//! What a start, a stop and the files of a restore come to, step by step.

use vstd::prelude::*;

use crate::hypervisor::{CloudHypervisorInner, VmmState};
use crate::lifecycle::{
    boot_steps, close_steps, network_steps, start_step, stopped, BootStep, MemoryRestoreMode,
    RestoreCallView, RestoreView, StartActionView, StartEventView, StartFacts, StartStateView,
};
use crate::restore_files::{
    checkpoint_restore_plan, checkpoint_save_plan, snapshot_plan, template_artifacts,
    template_restore_plan, template_save_plan,
};
use crate::plan::Step;
use crate::text::opt_text;
use crate::unix_path::{joined, parent_of};

verus! {

/// What a start depends on is what the VM was configured and prepared with.
pub proof fn law_starts_go_by_the_configuration(ch: CloudHypervisorInner)
    ensures
        ch.start_facts().restore_path == (match ch.restore_path {
            Some(dir) => Some(dir@),
            None => None,
        }),
        ch.start_facts().confidential_guest == ch.config.security_info.confidential_guest,
        ch.start_facts().boot_from_template == ch.config.vm_template.boot_from_template,
        ch.start_facts().template_has_dir <==> parent_of(
            ch.config.vm_template.memory_path@,
        ) is Some,
        ch.start_facts().vm_path == ch.vm_path@,
        opt_text(ch.restore_path) == ch.start_facts().restore_path,
{
}

/// When the hypervisor runs, a requested checkpoint is restored, unless the guest
/// is confidential; without request the VM starts from its template, if it is to
/// and there is one; and else it is booted.
pub proof fn law_request_decides_on_the_start(facts: StartFacts)
    ensures
        ({
            let (state, actions) = start_step(
                facts,
                StartStateView::Launching,
                StartEventView::Done,
            );
            &&& facts.restore_path is Some && !facts.confidential_guest ==> state == (
            StartStateView::Listing { checkpoint_dir: facts.restore_path->0 }) && actions == seq![
                StartActionView::ListDevices,
            ]
            &&& facts.restore_path is Some && facts.confidential_guest ==> state is Refused
                && actions.len() == 0
            &&& facts.restore_path is None && facts.boot_from_template && facts.template_has_dir
                ==> state is CheckingTemplate && actions == seq![StartActionView::CheckTemplate]
            &&& facts.restore_path is None && !(facts.boot_from_template && facts.template_has_dir)
                ==> state is Booting && actions == seq![StartActionView::Boot]
        }),
{
}

/// A checkpoint is restored from start to end: its files are prepared with the
/// number of descriptors of each network, the VM is restored page by page from
/// its own directory with all descriptors, these are closed, the VM is resumed,
/// and then it runs.
pub proof fn law_checkpoint_is_restored_from_start_to_end(
    facts: StartFacts,
    checkpoint_dir: Seq<char>,
    networks: Seq<Seq<i32>>,
    nets: Seq<(Seq<char>, usize)>,
    k: int,
)
    ensures
        ({
            let s0 = StartStateView::Listing { checkpoint_dir };
            let (s1, a1) = start_step(facts, s0, StartEventView::Devices(networks));
            let (s2, a2) = start_step(facts, s1, StartEventView::Prepared(nets));
            let (s3, a3) = start_step(facts, s2, StartEventView::Done);
            let (s4, a4) = start_step(facts, s3, StartEventView::Done);
            &&& a1.len() == 1
            &&& a1[0] matches StartActionView::PrepareCheckpoint {
                checkpoint_dir: dir,
                net_fd_counts,
            } && dir == checkpoint_dir && net_fd_counts.len() == networks.len() && (0 <= k
                < networks.len() && networks[k].len() <= usize::MAX ==> net_fd_counts[k]
                == networks[k].len())
            &&& a2 == seq![
                StartActionView::Restore(
                    RestoreCallView {
                        state_file: joined(facts.vm_path, "state.json"@),
                        config_file: joined(facts.vm_path, "config.json"@),
                        request: RestoreView {
                            source_url: "file://"@ + facts.vm_path,
                            memory_restore_mode: MemoryRestoreMode::OnDemand,
                            net_fds: if nets.len() == 0 {
                                None
                            } else {
                                Some(nets)
                            },
                        },
                        fds: networks.flatten(),
                    },
                ),
            ]
            &&& a3 == seq![
                StartActionView::CloseFds(networks.flatten()),
                StartActionView::Resume,
            ]
            &&& s4 is Running
            &&& a4.len() == 0
        }),
{
}

/// A template is restored from start to end: its files are prepared, the VM is
/// restored by copying from its own directory, without networks, it is resumed,
/// and then it runs. Without the files of the template the VM is booted.
pub proof fn law_template_is_restored_from_start_to_end(facts: StartFacts)
    ensures
        ({
            let s0 = StartStateView::CheckingTemplate;
            let (s1, a1) = start_step(facts, s0, StartEventView::Done);
            let (s2, a2) = start_step(facts, s1, StartEventView::Done);
            let (s3, a3) = start_step(facts, s2, StartEventView::Done);
            let (s4, a4) = start_step(facts, s3, StartEventView::Done);
            let (b1, c1) = start_step(facts, s0, StartEventView::Failed);
            let (b2, c2) = start_step(facts, b1, StartEventView::Done);
            &&& a1 == seq![StartActionView::PrepareTemplate]
            &&& a2 == seq![
                StartActionView::Restore(
                    RestoreCallView {
                        state_file: joined(facts.vm_path, "state.json"@),
                        config_file: joined(facts.vm_path, "config.json"@),
                        request: RestoreView {
                            source_url: "file://"@ + facts.vm_path,
                            memory_restore_mode: MemoryRestoreMode::Copy,
                            net_fds: None,
                        },
                        fds: Seq::empty(),
                    },
                ),
            ]
            &&& a3 == seq![StartActionView::CloseFds(Seq::empty()), StartActionView::Resume]
            &&& s4 is Running
            &&& a4.len() == 0
            &&& c1 == seq![StartActionView::Boot]
            &&& b2 is Running
            &&& c2.len() == 0
        }),
{
}

/// An action that fails ends the start, but for the look at the template; the
/// descriptors that were handed over are closed then, and nothing else is done.
pub proof fn law_failure_ends_a_start(facts: StartFacts, state: StartStateView)
    requires
        !(state is CheckingTemplate),
    ensures
        start_step(facts, state, StartEventView::Failed) == (
            StartStateView::Failed,
            match state {
                StartStateView::Preparing { fds } => seq![StartActionView::CloseFds(fds)],
                StartStateView::Restoring { fds } => seq![StartActionView::CloseFds(fds)],
                _ => Seq::empty(),
            },
        ),
{
}

/// A VM that runs is stopped, and one that does not is left as it is.
pub proof fn law_running_vms_are_stopped(state: VmmState)
    ensures
        state == VmmState::VmRunning ==> stopped(state) == (true, VmmState::NotReady),
        state != VmmState::VmRunning ==> stopped(state) == (false, state),
{
}

/// Adding networks: each is added, and then its descriptors are closed.
proof fn lemma_network_steps(networks: Seq<Seq<i32>>, n: int, k: int, j: int)
    requires
        0 <= n <= networks.len(),
        networks.len() <= usize::MAX,
    ensures
        network_steps(networks, n).len() == n + networks.take(n).flatten().len(),
        0 <= k < n ==> ({
            let at = k + networks.take(k).flatten().len();
            &&& at + networks[k].len() < network_steps(networks, n).len()
            &&& network_steps(networks, n)[at] == (BootStep::AddNetwork { index: k as usize })
            &&& 0 <= j < networks[k].len() ==> network_steps(networks, n)[at + 1 + j] == (
            BootStep::CloseFd { fd: networks[k][j] })
        }),
    decreases n,
{
    if n == 0 {
        assert(networks.take(0) =~= Seq::<Seq<i32>>::empty());
        assert(Seq::<Seq<i32>>::empty().flatten() =~= Seq::<i32>::empty());
    } else {
        lemma_network_steps(networks, n - 1, k, j);
        let before = network_steps(networks, n - 1);
        let closing = close_steps(networks[n - 1]);
        let all = network_steps(networks, n);
        assert(all == before.push(BootStep::AddNetwork { index: (n - 1) as usize }) + closing);
        assert(networks.take(n) =~= networks.take(n - 1).push(networks[n - 1]));
        networks.take(n - 1).lemma_flatten_push(networks[n - 1]);
        if 0 <= k < n - 1 {
            let at = k + networks.take(k).flatten().len();
            assert(all[at as int] == before[at as int]);
            if 0 <= j < networks[k].len() {
                assert(all[at + 1 + j] == before[at + 1 + j]);
            }
        } else if k == n - 1 {
            let at = before.len() as int;
            assert(all[at] == (BootStep::AddNetwork { index: k as usize }));
            if 0 <= j < networks[k].len() {
                assert(all[at + 1 + j] == closing[j]);
            }
        }
    }
}

/// A VM is booted by making the directory of its sandbox, creating it, adding its
/// networks one after the other, each of whose descriptors is closed before the
/// next network is added, and starting it last. Nothing else is done.
pub proof fn law_boot_adds_every_network(networks: Seq<Seq<i32>>, k: int, j: int)
    requires
        networks.len() <= usize::MAX,
    ensures
        ({
            let steps = boot_steps(networks);
            let at = 2 + k + networks.take(k).flatten().len();
            &&& steps.len() == 3 + networks.len() + networks.flatten().len()
            &&& steps[0] == (BootStep::CreateSandboxDir { mode: 0o750 })
            &&& steps[1] == BootStep::CreateVm
            &&& steps.last() == BootStep::StartVm
            &&& 0 <= k < networks.len() ==> steps[at] == (BootStep::AddNetwork {
                index: k as usize,
            })
            &&& 0 <= k < networks.len() && 0 <= j < networks[k].len() ==> steps[at + 1 + j] == (
            BootStep::CloseFd { fd: networks[k][j] })
        }),
{
    let n = networks.len() as int;
    lemma_network_steps(networks, n, k, j);
    assert(networks.take(n) =~= networks);
    let steps = boot_steps(networks);
    let inner = network_steps(networks, n);
    assert forall|i: int| 0 <= i < inner.len() implies #[trigger] steps[2 + i] == inner[i] by {}
    if 0 <= k < n {
        let at = k + networks.take(k).flatten().len();
        assert(steps[2 + at] == inner[at as int]);
        if 0 <= j < networks[k].len() {
            assert(steps[2 + (at + 1 + j)] == inner[at + 1 + j]);
        }
    }
}

/// The files of a template are its memory, and the state and the configuration
/// beside it; a template whose memory is in no directory has none.
pub proof fn law_template_files_stand_beside_its_memory(memory_path: Seq<char>)
    ensures
        template_artifacts(memory_path) == (match parent_of(memory_path) {
            Some(dir) => Some(
                seq![memory_path, joined(dir, "state.json"@), joined(dir, "config.json"@)],
            ),
            None => None,
        }),
{
}

/// Preparing a template makes the directory of the VM, copies the configuration
/// and the state of the template there with their permissions, and adapts the
/// vsock socket of the copy to the sandbox. Nothing else is done.
pub proof fn law_template_is_prepared(
    template_dir: Seq<char>,
    vm_path: Seq<char>,
    id: Seq<char>,
)
    ensures
        ({
            let plan = template_restore_plan(template_dir, vm_path, id);
            let src_config = joined(template_dir, "config.json"@);
            let dst_config = joined(vm_path, "config.json"@);
            let src_state = joined(template_dir, "state.json"@);
            let dst_state = joined(vm_path, "state.json"@);
            &&& plan.len() == 8
            &&& plan[0].step == (Step::CreateOwnedDirAll { path: vm_path, mode: 0o750 })
            &&& plan[1].step == (Step::ReadPermissions { path: src_config })
            &&& plan[2].step == (Step::CopyFile { from: src_config, to: dst_config })
            &&& plan[3].step == (Step::ApplyPermissions { path: dst_config })
            &&& plan[4].step == (Step::ReadPermissions { path: src_state })
            &&& plan[5].step == (Step::CopyFile { from: src_state, to: dst_state })
            &&& plan[6].step == (Step::ApplyPermissions { path: dst_state })
            &&& plan[7].step == (Step::AdaptVsock { config: dst_config, sandbox_id: id })
        }),
{
}

/// Preparing a checkpoint makes the directory of the VM, makes sure that the
/// checkpoint is complete, copies its configuration and its state there with
/// their permissions, restores its disks, links its memory where nothing may be
/// in the way, and adapts the runtime paths of the copied configuration to the
/// sandbox. Nothing else is done.
pub proof fn law_checkpoint_is_prepared(
    checkpoint_dir: Seq<char>,
    vm_path: Seq<char>,
    id: Seq<char>,
    boot_image: Seq<char>,
)
    ensures
        ({
            let plan = checkpoint_restore_plan(checkpoint_dir, vm_path, id, boot_image);
            let src_config = joined(checkpoint_dir, "config.json"@);
            let dst_config = joined(vm_path, "config.json"@);
            let src_state = joined(checkpoint_dir, "state.json"@);
            let dst_state = joined(vm_path, "state.json"@);
            let src_memory = joined(checkpoint_dir, "memory-ranges"@);
            let dst_memory = joined(vm_path, "memory-ranges"@);
            &&& plan.len() == 15
            &&& plan[0].step == (Step::CreateOwnedDirAll { path: vm_path, mode: 0o750 })
            &&& plan[1].step == (Step::Access { path: src_config })
            &&& plan[2].step == (Step::Access { path: src_state })
            &&& plan[3].step == (Step::Access { path: src_memory })
            &&& plan[4].step == (Step::ReadPermissions { path: src_config })
            &&& plan[5].step == (Step::CopyFile { from: src_config, to: dst_config })
            &&& plan[6].step == (Step::ApplyPermissions { path: dst_config })
            &&& plan[7].step == (Step::ReadPermissions { path: src_state })
            &&& plan[8].step == (Step::CopyFile { from: src_state, to: dst_state })
            &&& plan[9].step == (Step::ApplyPermissions { path: dst_state })
            &&& plan[10].step == (Step::RestoreDisks {
                checkpoint_dir,
                config: dst_config,
                vm_path,
                boot_image,
            })
            &&& plan[11].step == (Step::RefuseExisting { path: dst_memory })
            &&& plan[12].step == (Step::Resolve { path: src_memory })
            &&& plan[13].step == (Step::LinkToResolved { link: dst_memory })
            &&& plan[14].step == (Step::AdaptRuntimePaths { config: dst_config, sandbox_id: id })
        }),
{
}

/// A snapshot is written to a directory as a whole, and must then have its
/// configuration and its state. A template is a snapshot, whose memory is marked
/// as private exactly if it is made to be a template.
pub proof fn law_snapshots_are_written_and_checked(dir: Seq<char>, to_be_template: bool)
    ensures
        ({
            let plan = template_save_plan(dir, to_be_template);
            let config = joined(dir, "config.json"@);
            &&& plan.take(3) == snapshot_plan(dir)
            &&& plan.len() == (if to_be_template {
                4int
            } else {
                3int
            })
            &&& plan[0].step == (Step::Snapshot { destination_url: "file://"@ + dir })
            &&& plan[1].step == (Step::Access { path: config })
            &&& plan[2].step == (Step::Access { path: joined(dir, "state.json"@) })
            &&& to_be_template ==> plan[3].step == (Step::MarkMemory { config, shared: false })
        }),
{
    assert(template_save_plan(dir, to_be_template).take(3) =~= snapshot_plan(dir));
}

/// A checkpoint is a snapshot in a directory that is new, below one that is made
/// if need be; it must then have its configuration, its state and its memory.
pub proof fn law_checkpoints_are_written_and_checked(dir: Seq<char>)
    ensures
        ({
            let plan = checkpoint_save_plan(dir);
            let at: int = if parent_of(dir) is Some {
                1
            } else {
                0
            };
            &&& plan.len() == at + 5
            &&& parent_of(dir) matches Some(parent) ==> plan[0].step == (Step::CreateDirAll {
                path: parent,
            })
            &&& plan[at].step == (Step::CreateDir { path: dir })
            &&& plan[at + 1].step == (Step::Snapshot { destination_url: "file://"@ + dir })
            &&& plan[at + 2].step == (Step::Access { path: joined(dir, "config.json"@) })
            &&& plan[at + 3].step == (Step::Access { path: joined(dir, "state.json"@) })
            &&& plan[at + 4].step == (Step::Access { path: joined(dir, "memory-ranges"@) })
        }),
{
}

} // verus!
