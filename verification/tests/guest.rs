use kata_checkpoint::hypervisor::{
    bytes_to_megs, checked_next_multiple_of, CloudHypervisorInner, MemoryError, MemoryResize,
    NoVcpus, VcpuResize,
};
use kata_checkpoint::launch::{Architecture, KernelParams};
use kata_checkpoint::protection::{
    get_fake_guest_protection, GuestProtection, GuestProtectionError, SevSnpDetails,
};

#[test]
fn test_network_device_hotplug_capability() {
    let ch = CloudHypervisorInner::default();
    assert!(ch.capabilities().is_network_device_hotplug_supported());
}

#[test]
fn tdx_guests_cannot_share_file_systems() {
    let mut ch = CloudHypervisorInner::default();
    let caps = ch.capabilities();
    assert!(caps.fs_sharing && caps.hybrid_vsock && caps.block_device);
    ch.guest_protection_to_use = GuestProtection::Tdx;
    let caps = ch.capabilities();
    assert!(!caps.fs_sharing);
    assert!(caps.block_device && caps.block_device_hotplug && caps.block_device_discard);
    assert!(caps.hybrid_vsock && caps.network_device_hotplug);
    ch.set_capabilities(caps);
    assert!(!ch.capabilities().fs_sharing);
}

#[test]
fn test_get_guest_protection() {
    let sev_snp_details = SevSnpDetails {
        cbitpos: 42,
        phys_addr_reduction: 42,
    };
    let tests = [
        GuestProtection::NoProtection,
        GuestProtection::Pef,
        GuestProtection::Se,
        GuestProtection::Sev(sev_snp_details),
        GuestProtection::Snp(sev_snp_details),
        GuestProtection::Tdx,
    ];
    for (i, value) in tests.iter().enumerate() {
        let result = get_fake_guest_protection(Some(*value), Ok(GuestProtection::NoProtection));
        assert_eq!(result, Ok(*value), "test[{i}]");
    }
    assert_eq!(
        get_fake_guest_protection(Some(GuestProtection::Tdx), Err("no access".to_string())),
        Err("no access".to_string())
    );
}

#[test]
fn test_get_guest_protection_tdx() {
    for have_tdx in [true, false] {
        let host = if have_tdx {
            GuestProtection::Tdx
        } else {
            GuestProtection::NoProtection
        };
        let protection = get_fake_guest_protection(None, Ok(host)).unwrap();
        if have_tdx {
            assert_eq!(protection, GuestProtection::Tdx);
        } else {
            assert_eq!(protection, GuestProtection::NoProtection);
        }
    }
}

#[test]
fn test_handle_guest_protection() {
    let tests = [
        (false, GuestProtection::NoProtection, Ok(()), GuestProtection::NoProtection),
        (
            true,
            GuestProtection::NoProtection,
            Err(GuestProtectionError::NoProtectionAvailable),
            GuestProtection::NoProtection,
        ),
        (
            false,
            GuestProtection::Tdx,
            Err(GuestProtectionError::TDXProtectionMustBeUsedWithCH),
            GuestProtection::Tdx,
        ),
        (true, GuestProtection::Tdx, Ok(()), GuestProtection::Tdx),
        (false, GuestProtection::Pef, Ok(()), GuestProtection::NoProtection),
        (
            true,
            GuestProtection::Pef,
            Err(GuestProtectionError::ExpectedTDXProtection(GuestProtection::Pef)),
            GuestProtection::Pef,
        ),
    ];
    for (i, (confidential_guest, available, expected, guest_protection_to_use)) in
        tests.into_iter().enumerate()
    {
        let mut ch = CloudHypervisorInner::default();
        ch.config.security_info.confidential_guest = confidential_guest;
        let result = ch.handle_guest_protection(available);
        assert_eq!(expected, result, "test[{i}]");
        assert_eq!(ch.guest_protection_to_use, guest_protection_to_use, "test[{i}]");
    }
}

#[test]
fn protection_that_is_not_requested_is_not_used() {
    let details = SevSnpDetails {
        cbitpos: 1,
        phys_addr_reduction: 2,
    };
    for available in [
        GuestProtection::Se,
        GuestProtection::Sev(details),
        GuestProtection::Snp(details),
    ] {
        let mut ch = CloudHypervisorInner::default();
        ch.guest_protection_to_use = GuestProtection::Tdx;
        assert_eq!(ch.handle_guest_protection(available), Ok(()));
        assert_eq!(ch.guest_protection_to_use, GuestProtection::NoProtection);
        ch.config.security_info.confidential_guest = true;
        assert_eq!(
            ch.handle_guest_protection(available),
            Err(GuestProtectionError::ExpectedTDXProtection(available))
        );
        assert_eq!(ch.guest_protection_to_use, available);
    }
}

#[test]
fn protection_messages() {
    assert_eq!(
        GuestProtectionError::NoProtectionAvailable.message(""),
        "guest protection requested but no guest protection available"
    );
    assert_eq!(
        GuestProtectionError::TDXProtectionMustBeUsedWithCH.message(""),
        "TDX guest protection available and must be used with Cloud Hypervisor (set 'confidential_guest=true')"
    );
    assert_eq!(
        GuestProtectionError::ExpectedTDXProtection(GuestProtection::Pef).message("pef"),
        "Expected TDX protection, found pef"
    );
}

#[test]
fn test_get_kernel_params() {
    let ch = CloudHypervisorInner::default();
    let params = ch.get_kernel_params(Architecture::X86_64);
    assert_eq!(params.len(), 5);
    assert_eq!(params[0], KernelParams::Defaults { debug: false });
    assert_eq!(params[1], KernelParams::Text("quiet".to_string()));
    assert_eq!(
        params[2],
        KernelParams::Rootfs {
            verity_params: String::new(),
            rootfs_type: None
        }
    );
    assert_eq!(params[4], KernelParams::Text(String::new()));
}

#[test]
fn kernel_consoles() {
    let mut ch = CloudHypervisorInner::default();
    ch.config.enable_debug = true;
    ch.config.boot_info.rootfs_type = "erofs".to_string();
    ch.config.boot_info.kernel_params = "agent.log=debug quiet".to_string();
    let text = |params: &[KernelParams<String>], i: usize| match &params[i] {
        KernelParams::Text(s) => s.clone(),
        other => panic!("{other:?}"),
    };
    let params = ch.get_kernel_params(Architecture::X86_64);
    assert_eq!(text(&params, 1), "console=ttyS0,115200n8");
    assert_eq!(
        params[2],
        KernelParams::Rootfs {
            verity_params: String::new(),
            rootfs_type: Some("erofs".to_string())
        }
    );
    assert_eq!(
        text(&params, 3),
        "no_timer_check noreplace-smp systemd.log_target=console"
    );
    assert_eq!(text(&params, 4), "agent.log=debug quiet");
    assert_eq!(
        text(&ch.get_kernel_params(Architecture::Aarch64), 1),
        "console=ttyAMA0,115200n8"
    );
    ch.config.security_info.confidential_guest = true;
    assert_eq!(text(&ch.get_kernel_params(Architecture::X86_64), 1), "console=hvc0");
}

#[test]
fn vcpus_are_resized_up_to_the_maximum() {
    let mut ch = CloudHypervisorInner::default();
    ch.config.default_maxvcpus = 8;
    assert_eq!(ch.resize_vcpu(2, 0), Err(NoVcpus));
    assert_eq!(ch.resize_vcpu(2, 4), Ok(VcpuResize::Resize { vcpus: 4 }));
    assert_eq!(ch.resize_vcpu(2, 2), Ok(VcpuResize::Unchanged { vcpus: 2 }));
    assert_eq!(ch.resize_vcpu(2, 99), Ok(VcpuResize::Resize { vcpus: 8 }));
    assert_eq!(ch.resize_vcpu(8, 99), Ok(VcpuResize::Unchanged { vcpus: 8 }));
    assert_eq!(
        kata_checkpoint::hypervisor::no_vcpus_message(),
        "resize to 0 vcpus requested"
    );
}

#[test]
fn memory_grows_in_blocks() {
    const MIB: u64 = 1 << 20;
    let mut ch = CloudHypervisorInner::default();
    ch.config.default_maxmemory = 4096;
    ch.set_guest_memory_block_size(128 << 20);
    assert_eq!(ch.guest_memory_block_size_mb(), 128);
    assert_eq!(ch.resize_memory(256 * MIB, 256), Ok(MemoryResize::AlreadyThere));
    assert_eq!(ch.resize_memory(256 * MIB, 255), Ok(MemoryResize::NothingToRemove));
    assert_eq!(
        ch.resize_memory(256 * MIB, 512),
        Ok(MemoryResize::Grow { desired_ram: 512 * MIB })
    );
    assert_eq!(
        ch.resize_memory(256 * MIB, 300),
        Ok(MemoryResize::Grow { desired_ram: 384 * MIB })
    );
    let error = ch.resize_memory(256 * MIB, 4097).unwrap_err();
    assert_eq!(
        error,
        MemoryError::TooMuch { bytes: 4224 * MIB, max_mb: 4096 }
    );
    assert_eq!(
        error.message(),
        "requested memory (4224 MB) is greater than maximum allowed (4096 MB)"
    );
    ch.set_guest_memory_block_size(1);
    assert_eq!(ch.guest_memory_block_size_mb(), 0);
    assert_eq!(
        ch.resize_memory(256 * MIB, 257).unwrap_err().message(),
        "alignment of 1048576 B to the block size of 0 B failed"
    );
}

#[test]
fn sizes_and_multiples() {
    assert_eq!(bytes_to_megs((1 << 20) - 1), 0);
    assert_eq!(bytes_to_megs(5 << 20), 5);
    assert_eq!(bytes_to_megs(u64::MAX), 0xffff_ffff);
    assert_eq!(bytes_to_megs(1 << 52), 0);
    assert_eq!(checked_next_multiple_of(10, 4), Some(12));
    assert_eq!(checked_next_multiple_of(12, 4), Some(12));
    assert_eq!(checked_next_multiple_of(0, 4), Some(0));
    assert_eq!(checked_next_multiple_of(10, 0), None);
    assert_eq!(checked_next_multiple_of(u64::MAX, 2), None);
}
