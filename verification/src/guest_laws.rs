//! What holds of the size, the protection and the launch of a guest, and of the
//! annotations and answers that decide on it.

use vstd::prelude::*;

use crate::hypervisor::{
    memory_verdict, next_multiple, vcpu_verdict, whole_megs, HypervisorConfig, MemoryError,
    MemoryResize, NoVcpus, VcpuResize,
};
use crate::json::{json_text, JsonView};
use crate::launch::{
    annotation, answered_features, console_param, feature_name, kernel_params, launch_args,
    next_stage, requested_restore, without_leading_quotes, without_trailing_quotes, Architecture,
    HypervisorStage, KernelParams,
};
use crate::protection::{
    protection_used, protection_verdict, GuestProtection, GuestProtectionError,
};

verus! {

/// A request for vCPUs is granted up to the maximum. The hypervisor is asked
/// exactly if the granted number is another one than there are, whether more or
/// fewer; a request for none is refused.
pub proof fn law_vcpus_are_granted_up_to_the_maximum(
    old_vcpus: u32,
    new_vcpus: u32,
    max_vcpus: u32,
    granted: u32,
)
    requires
        granted <= new_vcpus,
        granted <= max_vcpus,
        granted == new_vcpus || granted == max_vcpus,
    ensures
        vcpu_verdict(old_vcpus, new_vcpus, max_vcpus) is Err <==> new_vcpus == 0,
        new_vcpus > 0 && granted == old_vcpus ==> vcpu_verdict(old_vcpus, new_vcpus, max_vcpus)
            == Ok::<_, NoVcpus>(VcpuResize::Unchanged { vcpus: granted }),
        new_vcpus > 0 && granted != old_vcpus ==> vcpu_verdict(old_vcpus, new_vcpus, max_vcpus)
            == Ok::<_, NoVcpus>(VcpuResize::Resize { vcpus: granted }),
{
}

/// The next multiple is a multiple, and the smallest that is large enough.
pub proof fn law_next_multiple_is_the_smallest(n: int, block: int, m: int)
    requires
        block > 0,
        n >= 0,
        n <= m * block < n + block,
    ensures
        next_multiple(n, block) == m * block,
{
    let rest = n + block - 1 - m * block;
    vstd::arithmetic::div_mod::lemma_fundamental_div_mod_converse(
        n + block - 1,
        block,
        m,
        rest,
    );
}

/// Memory grows to the smallest size that covers the request, in whole blocks
/// beyond what the guest has, if that is within the maximum; and else it is
/// refused. A request for what the guest has, or for less, changes nothing.
pub proof fn law_memory_grows_in_whole_blocks(
    current: u64,
    new_mem_mb: u32,
    block_mb: u32,
    max_mb: u32,
    blocks: int,
)
    ensures
        ({
            let mib = 1024int * 1024;
            let wanted = new_mem_mb * mib;
            let block = block_mb * mib;
            let target = current + blocks * block;
            let verdict = memory_verdict(current, new_mem_mb, block_mb, max_mb);
            &&& current == wanted <==> verdict == Ok::<_, MemoryError>(MemoryResize::AlreadyThere)
            &&& current > wanted <==> verdict == Ok::<_, MemoryError>(
                MemoryResize::NothingToRemove,
            )
            &&& current < wanted && block_mb == 0 ==> verdict == Err::<MemoryResize, _>(
                MemoryError::Alignment { bytes: (wanted - current) as u64, block: 0 },
            )
            &&& current < wanted && block_mb > 0 && wanted <= target < wanted + block ==> {
                &&& target <= max_mb * mib ==> verdict == Ok::<_, MemoryError>(
                    MemoryResize::Grow { desired_ram: target as u64 },
                )
                &&& target > max_mb * mib ==> verdict == Err::<MemoryResize, _>(
                    MemoryError::TooMuch { bytes: target as u64, max_mb },
                )
            }
        }),
{
    let mib = 1024int * 1024;
    let wanted = new_mem_mb * mib;
    let block = block_mb * mib;
    if current < wanted && block_mb > 0 && wanted <= current + blocks * block < wanted + block {
        law_next_multiple_is_the_smallest(wanted - current, block, blocks);
    }
}

/// A size in bytes is shown in whole MiB.
pub proof fn law_sizes_are_shown_in_mib(megs: nat, rest: nat)
    requires
        megs <= u32::MAX,
        rest < 1024 * 1024,
    ensures
        whole_megs(megs * (1024 * 1024) + rest) == megs,
{
    vstd::arithmetic::div_mod::lemma_fundamental_div_mod_converse(
        (megs * 0x10_0000 + rest) as int,
        0x10_0000,
        megs as int,
        rest as int,
    );
}

/// A guest may start exactly if it is confidential where the host has TDX, and
/// not confidential where the host has it not. Each refusal says what is wrong:
/// no protection for a confidential guest, another one than TDX, or TDX for a
/// guest that is not confidential.
pub proof fn law_guests_start_exactly_with_their_protection(
    confidential_guest: bool,
    protection: GuestProtection,
)
    ensures
        ({
            let verdict = protection_verdict(confidential_guest, protection);
            let tdx = protection == GuestProtection::Tdx;
            let none = protection == GuestProtection::NoProtection;
            &&& verdict is Ok <==> confidential_guest == tdx
            &&& confidential_guest && none ==> verdict == Err::<(), _>(
                GuestProtectionError::NoProtectionAvailable,
            )
            &&& confidential_guest && !tdx && !none ==> verdict == Err::<(), _>(
                GuestProtectionError::ExpectedTDXProtection(protection),
            )
            &&& !confidential_guest && tdx ==> verdict == Err::<(), _>(
                GuestProtectionError::TDXProtectionMustBeUsedWithCH,
            )
            &&& confidential_guest || tdx ==> protection_used(confidential_guest, protection)
                == protection
            &&& !confidential_guest && !tdx ==> protection_used(confidential_guest, protection)
                == GuestProtection::NoProtection
        }),
{
}

/// Whether no key occurs twice among annotations.
pub open spec fn keys_differ(annotations: Seq<(String, String)>) -> bool {
    forall|i: int, j: int|
        0 <= i < j < annotations.len() ==> (#[trigger] annotations[i]).0@ != (
        #[trigger] annotations[j]).0@
}

/// Whether an annotation is among the given ones.
pub open spec fn is_annotated(
    annotations: Seq<(String, String)>,
    key: Seq<char>,
    value: Seq<char>,
) -> bool {
    exists|i: int|
        0 <= i < annotations.len() && (#[trigger] annotations[i]).0@ == key && annotations[i].1@
            == value
}

/// An annotation is found wherever it stands.
proof fn lemma_annotation(annotations: Seq<(String, String)>, key: Seq<char>, value: Seq<char>)
    requires
        keys_differ(annotations),
    ensures
        annotation(annotations, key) == Some(value) <==> is_annotated(annotations, key, value),
    decreases annotations.len(),
{
    if annotations.len() > 0 {
        let rest = annotations.skip(1);
        assert forall|i: int, j: int| 0 <= i < j < rest.len() implies (#[trigger] rest[i]).0@ != (
        #[trigger] rest[j]).0@ by {
            assert(rest[i] == annotations[i + 1]);
            assert(rest[j] == annotations[j + 1]);
        }
        lemma_annotation(rest, key, value);
        if is_annotated(annotations, key, value) {
            let i = choose|i: int|
                0 <= i < annotations.len() && (#[trigger] annotations[i]).0@ == key
                    && annotations[i].1@ == value;
            if i > 0 {
                assert(annotations[0].0@ != annotations[i].0@);
                assert(rest[i - 1] == annotations[i]);
            }
        }
        if is_annotated(rest, key, value) {
            let i = choose|i: int|
                0 <= i < rest.len() && (#[trigger] rest[i]).0@ == key && rest[i].1@ == value;
            assert(annotations[i + 1] == rest[i]);
            assert(annotations[0].0@ != annotations[i + 1].0@);
        }
        if annotations[0].0@ == key && annotations[0].1@ == value {
            assert(is_annotated(annotations, key, value));
        }
    }
}

/// A checkpoint is restored exactly if the annotations ask for it and name it,
/// at whatever places and among whatever others.
pub proof fn law_annotations_ask_for_a_restore(annotations: Seq<(String, String)>, dir: Seq<char>)
    requires
        keys_differ(annotations),
    ensures
        requested_restore(annotations) == Some(dir) <==> is_annotated(
            annotations,
            "io.katacontainers.vm.restore"@,
            "true"@,
        ) && is_annotated(annotations, "io.katacontainers.vm.checkpoint_dir"@, dir),
{
    lemma_annotation(annotations, "io.katacontainers.vm.restore"@, "true"@);
    lemma_annotation(annotations, "io.katacontainers.vm.checkpoint_dir"@, dir);
}

/// Neither the order of annotations matters, nor the others among them.
pub proof fn law_order_of_annotations_does_not_matter(
    a: Seq<(String, String)>,
    b: Seq<(String, String)>,
)
    requires
        keys_differ(a),
        keys_differ(b),
        forall|value: Seq<char>|
            is_annotated(a, "io.katacontainers.vm.restore"@, value) == #[trigger] is_annotated(
                b,
                "io.katacontainers.vm.restore"@,
                value,
            ),
        forall|value: Seq<char>|
            is_annotated(a, "io.katacontainers.vm.checkpoint_dir"@, value)
                == #[trigger] is_annotated(b, "io.katacontainers.vm.checkpoint_dir"@, value),
    ensures
        requested_restore(a) == requested_restore(b),
{
    if let Some(dir) = requested_restore(a) {
        law_annotations_ask_for_a_restore(a, dir);
        law_annotations_ask_for_a_restore(b, dir);
    }
    if let Some(dir) = requested_restore(b) {
        law_annotations_ask_for_a_restore(a, dir);
        law_annotations_ask_for_a_restore(b, dir);
    }
}

/// The hypervisor is launched, connected to and checked, in this order; then it
/// runs, unless the guest uses TDX and the features are known to lack it.
pub proof fn law_hypervisor_is_launched_connected_and_checked(
    protection: GuestProtection,
    features: Option<Seq<Seq<char>>>,
)
    ensures
        next_stage(None, protection, features) == Ok::<_, Seq<char>>(
            Some(HypervisorStage::Launch),
        ),
        next_stage(Some(HypervisorStage::Launch), protection, features) == Ok::<_, Seq<char>>(
            Some(HypervisorStage::SetupComms),
        ),
        next_stage(Some(HypervisorStage::SetupComms), protection, features) == Ok::<_, Seq<char>>(
            Some(HypervisorStage::CheckRunning),
        ),
        next_stage(Some(HypervisorStage::CheckRunning), protection, features) == (
        if protection == GuestProtection::Tdx && features is Some && !features->0.contains(
            "tdx"@,
        ) {
            Err("Cloud Hypervisor is not built with TDX support"@)
        } else {
            Ok(None::<HypervisorStage>)
        }),
{
}

/// The hypervisor is launched with its API socket, then all configured arguments
/// in their order, then the switches that are wanted, and nothing else.
pub proof fn law_launch_arguments(
    socket: Seq<char>,
    extra: Option<Seq<Seq<char>>>,
    debug: bool,
    disable_seccomp: bool,
    i: int,
)
    ensures
        ({
            let args = launch_args(socket, extra, debug, disable_seccomp);
            let n: int = match extra {
                Some(list) => list.len() as int,
                None => 0,
            };
            let v: int = if debug {
                1
            } else {
                0
            };
            let s: int = if disable_seccomp {
                2
            } else {
                0
            };
            &&& args.len() == 2 + n + v + s
            &&& args[0] == "--api-socket"@
            &&& args[1] == socket
            &&& 0 <= i < n ==> args[2 + i] == extra->0[i]
            &&& debug ==> args[2 + n] == "-v"@
            &&& disable_seccomp ==> args[2 + n + v] == "--seccomp"@ && args[2 + n + v + 1]
                == "false"@
        }),
{
}

/// The command line of the kernel: the defaults, the console, the root file
/// system, what every guest of this hypervisor gets, and last what the user
/// gives. Without debugging the kernel is quiet; with it, it uses the console of
/// the machine, or the paravirtual one for a confidential guest. A root file
/// system without type is of the default type.
pub proof fn law_kernel_parameters(config: HypervisorConfig, arch: Architecture)
    ensures
        ({
            let params = kernel_params(config, arch);
            let confidential = config.security_info.confidential_guest;
            let console = console_param(config.enable_debug, confidential, arch);
            &&& params.len() == 5
            &&& params[0] == (KernelParams::<Seq<char>>::Defaults { debug: config.enable_debug })
            &&& params[1] == KernelParams::Text(console)
            &&& !config.enable_debug ==> console == "quiet"@
            &&& config.enable_debug && confidential ==> console == "console=hvc0"@
            &&& config.enable_debug && !confidential && arch == Architecture::X86_64 ==> console
                == "console=ttyS0,115200n8"@
            &&& config.enable_debug && !confidential && arch == Architecture::Aarch64 ==> console
                == "console=ttyAMA0,115200n8"@
            &&& config.boot_info.rootfs_type@.len() > 0 ==> params[2] == (KernelParams::Rootfs {
                verity_params: config.boot_info.kernel_verity_params@,
                rootfs_type: Some(config.boot_info.rootfs_type@),
            })
            &&& config.boot_info.rootfs_type@.len() == 0 ==> params[2] == (KernelParams::Rootfs {
                verity_params: config.boot_info.kernel_verity_params@,
                rootfs_type: None,
            })
            &&& params[3] == KernelParams::Text(
                "no_timer_check noreplace-smp systemd.log_target=console"@,
            )
            &&& params[4] == KernelParams::Text(config.boot_info.kernel_params@)
        }),
{
}

/// Quotes at the start are taken off, and nothing else.
proof fn lemma_leading_quotes(quotes: Seq<char>, rest: Seq<char>)
    requires
        forall|i: int| 0 <= i < quotes.len() ==> #[trigger] quotes[i] == '"',
        rest.len() > 0 ==> rest[0] != '"',
    ensures
        without_leading_quotes(quotes + rest) == rest,
    decreases quotes.len(),
{
    let whole = quotes + rest;
    if quotes.len() == 0 {
        assert(whole =~= rest);
    } else {
        assert(whole[0] == quotes[0]);
        assert(whole.skip(1) =~= quotes.skip(1) + rest);
        assert forall|i: int| 0 <= i < quotes.skip(1).len() implies #[trigger] quotes.skip(1)[i]
            == '"' by {
            assert(quotes.skip(1)[i] == quotes[i + 1]);
        }
        lemma_leading_quotes(quotes.skip(1), rest);
    }
}

/// Quotes at the end are taken off, and nothing else.
proof fn lemma_trailing_quotes(rest: Seq<char>, quotes: Seq<char>)
    requires
        forall|i: int| 0 <= i < quotes.len() ==> #[trigger] quotes[i] == '"',
        rest.len() > 0 ==> rest.last() != '"',
    ensures
        without_trailing_quotes(rest + quotes) == rest,
    decreases quotes.len(),
{
    let whole = rest + quotes;
    if quotes.len() == 0 {
        assert(whole =~= rest);
    } else {
        assert(whole.last() == quotes[quotes.len() - 1]);
        assert(whole.drop_last() =~= rest + quotes.drop_last());
        assert forall|i: int| 0 <= i < quotes.drop_last().len() implies #[trigger]
            quotes.drop_last()[i] == '"' by {
            assert(quotes.drop_last()[i] == quotes[i]);
        }
        lemma_trailing_quotes(rest, quotes.drop_last());
    }
}

/// A feature is named by what its item is rendered as, without the quotes at both
/// ends and with everything between them.
pub proof fn law_feature_is_named_without_quotes(
    item: JsonView,
    before: Seq<char>,
    name: Seq<char>,
    after: Seq<char>,
)
    requires
        json_text(item) == before + name + after,
        forall|i: int| 0 <= i < before.len() ==> #[trigger] before[i] == '"',
        forall|i: int| 0 <= i < after.len() ==> #[trigger] after[i] == '"',
        name.len() > 0,
        name[0] != '"',
        name.last() != '"',
    ensures
        feature_name(item) == name,
{
    assert(before + name + after =~= before + (name + after));
    assert((name + after)[0] == name[0]);
    lemma_leading_quotes(before, name + after);
    lemma_trailing_quotes(name, after);
}

/// The features of a hypervisor are those in the list of its answer, one for each
/// item; an answer that has no such member, or a null one, names none; anything
/// else is refused.
pub proof fn law_answers_name_their_features(document: JsonView, i: int)
    ensures
        !(document is Object) ==> answered_features(Some(document)) == Ok::<Option<Seq<Seq<char>>>, bool>(None),
        document matches JsonView::Object(map) ==> {
            &&& !map.contains_key("features"@) ==> answered_features(Some(document)) == Ok::<
                Option<Seq<Seq<char>>>,
                bool,
            >(None)
            &&& map.contains_key("features"@) ==> (match map["features"@] {
                JsonView::Null => answered_features(Some(document)) == Ok::<Option<Seq<Seq<char>>>, bool>(None),
                JsonView::Array(items) => answered_features(Some(document)) matches Ok(list)
                    && list is Some && list->0.len() == items.len() && (0 <= i < items.len()
                    ==> list->0[i] == feature_name(items[i])),
                _ => answered_features(Some(document)) == Err::<Option<Seq<Seq<char>>>, _>(true),
            })
        },
        answered_features(None) == Err::<Option<Seq<Seq<char>>>, _>(false),
{
}

} // verus!
