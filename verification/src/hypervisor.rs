//! The state of one Cloud Hypervisor instance, and the sizing of its guest.

use vstd::prelude::*;

use crate::protection::GuestProtection;
use crate::text::{concat2, decimal, decimal_text};

verus! {

/// How far an instance has come.
#[derive(Debug, Clone, Copy, PartialEq, Eq, Structural)]
pub enum VmmState {
    NotReady,
    VmmServerReady,
    VmRunning,
}

/// What the guest boots from.
#[derive(Debug, Default)]
pub struct BootInfo {
    pub image: String,
    pub rootfs_type: String,
    pub kernel_params: String,
    pub kernel_verity_params: String,
}

/// How the instance and its guest are confined.
#[derive(Debug, Default)]
pub struct SecurityInfo {
    pub confidential_guest: bool,
    pub disable_seccomp: bool,
    pub selinux_label: Option<String>,
    /// Whether a user to run as is configured.
    pub rootless_user: bool,
}

/// The template that a guest is started from or becomes.
#[derive(Debug, Default)]
pub struct TemplateInfo {
    pub memory_path: String,
    pub boot_from_template: bool,
    pub boot_to_be_template: bool,
}

/// The configuration of an instance.
#[derive(Debug, Default)]
pub struct HypervisorConfig {
    /// The hypervisor's executable file.
    pub path: String,
    pub enable_debug: bool,
    pub disable_selinux: bool,
    pub boot_info: BootInfo,
    pub security_info: SecurityInfo,
    pub vm_template: TemplateInfo,
    pub default_maxvcpus: u32,
    /// In MiB.
    pub default_maxmemory: u32,
}

impl HypervisorConfig {
    /// Whether nothing is configured.
    pub open spec fn is_blank(&self) -> bool {
        &&& self.path@.len() == 0
        &&& !self.enable_debug && !self.disable_selinux
        &&& self.boot_info.image@.len() == 0 && self.boot_info.rootfs_type@.len() == 0
        &&& self.boot_info.kernel_params@.len() == 0
        &&& self.boot_info.kernel_verity_params@.len() == 0
        &&& !self.security_info.confidential_guest && !self.security_info.disable_seccomp
        &&& self.security_info.selinux_label is None && !self.security_info.rootless_user
        &&& self.vm_template.memory_path@.len() == 0
        &&& !self.vm_template.boot_from_template && !self.vm_template.boot_to_be_template
        &&& self.default_maxvcpus == 0 && self.default_maxmemory == 0
    }
}

/// A child process, with its id while it has one.
#[derive(Debug, Clone, Copy, PartialEq, Eq, Structural)]
pub struct Process {
    pub id: Option<u32>,
}

/// One Cloud Hypervisor instance.
#[derive(Debug)]
pub struct CloudHypervisorInner {
    pub id: String,
    pub vm_path: String,
    pub run_dir: String,
    pub jailer_root: String,
    pub state: VmmState,
    pub pid: Option<u32>,
    pub process: Option<Process>,
    pub netns: Option<String>,
    /// The checkpoint to restore, if any.
    pub restore_path: Option<String>,
    pub config: HypervisorConfig,
    pub guest_memory_block_size_mb: u32,
    pub guest_protection_to_use: GuestProtection,
    pub ch_features: Option<Vec<String>>,
    pub extra_args: Option<Vec<String>>,
    pub timeout_secs: i32,
    /// Whether there is a channel to request the shutdown through.
    pub shutdown_tx: bool,
    /// Whether there is a channel to learn of the shutdown request from.
    pub shutdown_rx: bool,
    /// Whether there is a channel to report the exit through.
    pub exit_notify: bool,
    /// How many background tasks were started, if any were.
    pub tasks: Option<usize>,
}

impl Default for CloudHypervisorInner {
    /// An instance of which nothing is known yet.
    fn default() -> (r: Self)
        ensures
            r.id@.len() == 0,
            r.vm_path@.len() == 0,
            r.run_dir@.len() == 0,
            r.jailer_root@.len() == 0,
            r.state is NotReady,
            r.pid is None,
            r.process is None,
            r.netns is None,
            r.restore_path is None,
            r.guest_memory_block_size_mb == 0,
            r.guest_protection_to_use is NoProtection,
            r.ch_features is None,
            r.extra_args is None,
            r.tasks is None,
            r.timeout_secs == 0,
            !r.shutdown_tx && !r.shutdown_rx && !r.exit_notify,
            r.config.is_blank(),
    {
        let boot_info = BootInfo {
            image: String::new(),
            rootfs_type: String::new(),
            kernel_params: String::new(),
            kernel_verity_params: String::new(),
        };
        let security_info = SecurityInfo {
            confidential_guest: false,
            disable_seccomp: false,
            selinux_label: None,
            rootless_user: false,
        };
        let vm_template = TemplateInfo {
            memory_path: String::new(),
            boot_from_template: false,
            boot_to_be_template: false,
        };
        let config = HypervisorConfig {
            path: String::new(),
            enable_debug: false,
            disable_selinux: false,
            boot_info,
            security_info,
            vm_template,
            default_maxvcpus: 0,
            default_maxmemory: 0,
        };
        CloudHypervisorInner {
            id: String::new(),
            vm_path: String::new(),
            run_dir: String::new(),
            jailer_root: String::new(),
            state: VmmState::NotReady,
            pid: None,
            process: None,
            netns: None,
            restore_path: None,
            config,
            guest_memory_block_size_mb: 0,
            guest_protection_to_use: GuestProtection::NoProtection,
            ch_features: None,
            extra_args: None,
            timeout_secs: 0,
            shutdown_tx: false,
            shutdown_rx: false,
            exit_notify: false,
            tasks: None,
        }
    }
}

/// One MiB in bytes.
pub const MIB: u64 = 0x10_0000;

/// A size in whole MiB, as a 32-bit number.
pub open spec fn whole_megs(bytes: nat) -> nat {
    (bytes / 0x10_0000) % 0x1_0000_0000
}

/// A size in whole MiB, as a 32-bit number.
pub fn bytes_to_megs(bytes: u64) -> (r: u32)
    ensures
        r == whole_megs(bytes as nat),
{
    ((bytes / MIB) % 0x1_0000_0000) as u32
}

/// A size in MiB, in bytes.
pub fn megs_to_bytes(megs: u32) -> (r: u64)
    ensures
        r == megs * 0x10_0000,
{
    (megs as u64) * MIB
}

/// What a request for another number of vCPUs comes to.
#[derive(Debug, Clone, Copy, PartialEq, Eq, Structural)]
pub enum VcpuResize {
    /// The guest has that many already.
    Unchanged { vcpus: u32 },
    /// The hypervisor is to be asked for that many.
    Resize { vcpus: u32 },
}

/// No guest runs without vCPUs.
#[derive(Debug, Clone, Copy, PartialEq, Eq, Structural)]
pub struct NoVcpus;

/// The message of [`NoVcpus`].
pub fn no_vcpus_message() -> (r: String)
    ensures
        r@ == "resize to 0 vcpus requested"@,
{
    "resize to 0 vcpus requested".to_owned()
}

/// What a request for another memory size comes to.
#[derive(Debug, Clone, Copy, PartialEq, Eq, Structural)]
pub enum MemoryResize {
    /// The guest has that much already.
    AlreadyThere,
    /// The guest has more; memory is never taken away.
    NothingToRemove,
    /// The hypervisor is to be asked for that many bytes.
    Grow { desired_ram: u64 },
}

/// Why a memory size cannot be had.
#[derive(Debug, Clone, Copy, PartialEq, Eq, Structural)]
pub enum MemoryError {
    /// There is no multiple of the block size that would do.
    Alignment { bytes: u64, block: u64 },
    /// The maximum would be exceeded.
    TooMuch { bytes: u64, max_mb: u32 },
}

/// The message of a memory error.
pub open spec fn memory_error_text(e: MemoryError) -> Seq<char> {
    match e {
        MemoryError::Alignment { bytes, block } => "alignment of "@ + decimal(bytes as nat)
            + " B to the block size of "@ + decimal(block as nat) + " B failed"@,
        MemoryError::TooMuch { bytes, max_mb } => "requested memory ("@ + decimal(
            whole_megs(bytes as nat),
        ) + " MB) is greater than maximum allowed ("@ + decimal(max_mb as nat) + " MB)"@,
    }
}

impl MemoryError {
    /// The message of the error.
    pub fn message(&self) -> (r: String)
        ensures
            r@ == memory_error_text(*self),
    {
        match self {
            MemoryError::Alignment { bytes, block } => {
                let mut r = concat2("alignment of ", decimal_text(*bytes).as_str());
                r.append(" B to the block size of ");
                r.append(decimal_text(*block).as_str());
                r.append(" B failed");
                r
            },
            MemoryError::TooMuch { bytes, max_mb } => {
                let shown: u32 = bytes_to_megs(*bytes);
                let mut r = concat2("requested memory (", decimal_text(shown as u64).as_str());
                r.append(" MB) is greater than maximum allowed (");
                r.append(decimal_text(*max_mb as u64).as_str());
                r.append(" MB)");
                r
            },
        }
    }
}

/// The smallest multiple of `block` that is at least `n`.
pub open spec fn next_multiple(n: int, block: int) -> int
    recommends
        block > 0,
{
    ((n + block - 1) / block) * block
}

/// What a request for `new_mem_mb` MiB comes to, for a guest with `current`
/// bytes: what is missing is rounded up to whole memory blocks.
pub open spec fn memory_verdict(
    current: u64,
    new_mem_mb: u32,
    block_mb: u32,
    max_mb: u32,
) -> Result<MemoryResize, MemoryError> {
    let total = new_mem_mb * 0x10_0000;
    let block = block_mb * 0x10_0000;
    if current == total {
        Ok(MemoryResize::AlreadyThere)
    } else if current > total {
        Ok(MemoryResize::NothingToRemove)
    } else if block == 0 {
        Err(MemoryError::Alignment { bytes: (total - current) as u64, block: 0 })
    } else {
        let target = current + next_multiple(total - current, block);
        if target > max_mb * 0x10_0000 {
            Err(MemoryError::TooMuch { bytes: target as u64, max_mb })
        } else {
            Ok(MemoryResize::Grow { desired_ram: target as u64 })
        }
    }
}

/// The properties of the next multiple.
pub proof fn lemma_next_multiple(n: int, block: int)
    requires
        block > 0,
        n >= 0,
    ensures
        next_multiple(n, block) >= n,
        next_multiple(n, block) < n + block,
        next_multiple(n, block) % block == 0,
        n % block == 0 ==> next_multiple(n, block) == n,
        n % block != 0 ==> next_multiple(n, block) == n - n % block + block,
{
    let q = n / block;
    let rem = n % block;
    vstd::arithmetic::div_mod::lemma_fundamental_div_mod(n, block);
    vstd::arithmetic::div_mod::lemma_mod_bound(n, block);
    vstd::arithmetic::mul::lemma_mul_is_commutative(block, q);
    if rem == 0 {
        assert(n + block - 1 == q * block + (block - 1));
        vstd::arithmetic::div_mod::lemma_fundamental_div_mod_converse(
            n + block - 1,
            block,
            q,
            block - 1,
        );
        vstd::arithmetic::div_mod::lemma_mod_multiples_basic(q, block);
    } else {
        vstd::arithmetic::mul::lemma_mul_is_distributive_add_other_way(block, q, 1);
        assert(n + block - 1 == (q + 1) * block + (rem - 1));
        vstd::arithmetic::div_mod::lemma_fundamental_div_mod_converse(
            n + block - 1,
            block,
            q + 1,
            rem - 1,
        );
        vstd::arithmetic::div_mod::lemma_mod_multiples_basic(q + 1, block);
    }
}

/// The smallest multiple of `block` that is at least `value`, if there is one
/// that fits.
pub fn checked_next_multiple_of(value: u64, block: u64) -> (r: Option<u64>)
    ensures
        r == (if block == 0 || next_multiple(value as int, block as int) > u64::MAX {
            None
        } else {
            Some(next_multiple(value as int, block as int) as u64)
        }),
{
    if block == 0 {
        return None;
    }
    proof {
        lemma_next_multiple(value as int, block as int);
    }
    let rem: u64 = value % block;
    if rem == 0 {
        Some(value)
    } else {
        value.checked_add(block - rem)
    }
}

/// What a request for `new_vcpus` vCPUs comes to: at most `max_vcpus` are
/// granted, and the hypervisor is asked only for another number than there is.
pub open spec fn vcpu_verdict(old_vcpus: u32, new_vcpus: u32, max_vcpus: u32) -> Result<
    VcpuResize,
    NoVcpus,
> {
    let granted = if new_vcpus > max_vcpus {
        max_vcpus
    } else {
        new_vcpus
    };
    if new_vcpus == 0 {
        Err(NoVcpus)
    } else if granted == old_vcpus {
        Ok(VcpuResize::Unchanged { vcpus: granted })
    } else {
        Ok(VcpuResize::Resize { vcpus: granted })
    }
}

impl CloudHypervisorInner {
    /// What a request for `new_vcpus` vCPUs comes to: at most the configured
    /// maximum.
    pub fn resize_vcpu(&self, old_vcpus: u32, new_vcpus: u32) -> (r: Result<VcpuResize, NoVcpus>)
        ensures
            r == vcpu_verdict(old_vcpus, new_vcpus, self.config.default_maxvcpus),
    {
        if new_vcpus == 0 {
            return Err(NoVcpus);
        }
        let granted: u32 = if new_vcpus > self.config.default_maxvcpus {
            self.config.default_maxvcpus
        } else {
            new_vcpus
        };
        if granted == old_vcpus {
            Ok(VcpuResize::Unchanged { vcpus: granted })
        } else {
            Ok(VcpuResize::Resize { vcpus: granted })
        }
    }

    /// What a request for `new_mem_mb` MiB comes to, for a guest that has
    /// `current_mem_size` bytes.
    pub fn resize_memory(&self, current_mem_size: u64, new_mem_mb: u32) -> (r: Result<
        MemoryResize,
        MemoryError,
    >)
        ensures
            r == memory_verdict(
                current_mem_size,
                new_mem_mb,
                self.guest_memory_block_size_mb,
                self.config.default_maxmemory,
            ),
    {
        let new_total_mem: u64 = megs_to_bytes(new_mem_mb);
        if current_mem_size == new_total_mem {
            return Ok(MemoryResize::AlreadyThere);
        }
        if current_mem_size > new_total_mem {
            return Ok(MemoryResize::NothingToRemove);
        }
        let block: u64 = megs_to_bytes(self.guest_memory_block_size_mb);
        let missing: u64 = new_total_mem - current_mem_size;
        proof {
            if block > 0 {
                lemma_next_multiple(missing as int, block as int);
            }
        }
        let hotplugged: u64 = match checked_next_multiple_of(missing, block) {
            Some(aligned) => aligned,
            None => {
                return Err(MemoryError::Alignment { bytes: missing, block });
            },
        };
        let target: u64 = hotplugged + current_mem_size;
        if target > megs_to_bytes(self.config.default_maxmemory) {
            return Err(
                MemoryError::TooMuch { bytes: target, max_mb: self.config.default_maxmemory },
            );
        }
        Ok(MemoryResize::Grow { desired_ram: target })
    }

    /// Takes note of the size of the guest's memory blocks, given in bytes.
    pub fn set_guest_memory_block_size(&mut self, size: u32)
        ensures
            *final(self) == (CloudHypervisorInner {
                guest_memory_block_size_mb: (size / 0x10_0000) as u32,
                ..*old(self)
            }),
    {
        self.guest_memory_block_size_mb = bytes_to_megs(size as u64);
    }

    /// The size of the guest's memory blocks in MiB.
    pub fn guest_memory_block_size_mb(&self) -> (r: u32)
        ensures
            r == self.guest_memory_block_size_mb,
    {
        self.guest_memory_block_size_mb
    }
}

/// The hypervisor is never asked for more vCPUs than the maximum, nor for as
/// many as there are; and asking for what was granted grants it.
pub proof fn law_vcpus_stay_within_the_maximum(
    old_vcpus: u32,
    new_vcpus: u32,
    max_vcpus: u32,
    vcpus: u32,
)
    requires
        vcpu_verdict(old_vcpus, new_vcpus, max_vcpus) == Ok::<_, NoVcpus>(
            VcpuResize::Resize { vcpus },
        ),
    ensures
        vcpus <= max_vcpus,
        vcpus <= new_vcpus,
        vcpus != old_vcpus,
        vcpus > 0 ==> vcpu_verdict(vcpus, new_vcpus, max_vcpus) == Ok::<_, NoVcpus>(
            VcpuResize::Unchanged { vcpus },
        ),
{
}

/// Memory that is asked for covers the request with less than one block to
/// spare, stays within the maximum, and comes in whole blocks.
pub proof fn law_grown_memory_is_aligned(
    current: u64,
    new_mem_mb: u32,
    block_mb: u32,
    max_mb: u32,
    desired_ram: u64,
)
    requires
        memory_verdict(current, new_mem_mb, block_mb, max_mb) == Ok::<_, MemoryError>(
            MemoryResize::Grow { desired_ram },
        ),
    ensures
        new_mem_mb * 0x10_0000 <= desired_ram < (new_mem_mb + block_mb) * 0x10_0000,
        current < desired_ram <= max_mb * 0x10_0000,
        (desired_ram - current) % (block_mb * 0x10_0000) == 0,
{
    lemma_next_multiple(new_mem_mb * 0x10_0000 - current, block_mb * 0x10_0000);
}

/// A guest is never made smaller: a request for less than it has is met with
/// doing nothing.
pub proof fn law_memory_never_shrinks(current: u64, new_mem_mb: u32, block_mb: u32, max_mb: u32)
    requires
        new_mem_mb * 0x10_0000 <= current,
    ensures
        memory_verdict(current, new_mem_mb, block_mb, max_mb) matches Ok(done) && !(
        done is Grow),
{
}

} // verus!
