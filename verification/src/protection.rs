//! Guest protection: what the host offers, and whether a guest may start on it.

use vstd::prelude::*;

use crate::hypervisor::CloudHypervisorInner;
use crate::text::concat2;

verus! {

/// Parameters of AMD memory encryption.
#[derive(Debug, Clone, Copy, PartialEq, Eq, Structural)]
pub struct SevSnpDetails {
    pub cbitpos: u32,
    pub phys_addr_reduction: u32,
}

/// The guest protection of a host.
#[derive(Debug, Clone, Copy, PartialEq, Eq, Structural)]
pub enum GuestProtection {
    NoProtection,
    Tdx,
    Sev(SevSnpDetails),
    Snp(SevSnpDetails),
    Pef,
    Se,
}

/// Why a guest may not start.
#[derive(Debug, Clone, Copy, PartialEq, Eq, Structural)]
pub enum GuestProtectionError {
    /// Protection is requested and the host has none.
    NoProtectionAvailable,
    /// A host with TDX can only run protected guests.
    TDXProtectionMustBeUsedWithCH,
    /// Protection is requested and the host has another one than TDX.
    ExpectedTDXProtection(GuestProtection),
}

/// The message of an error; `found` shows the protection that was found.
pub open spec fn protection_error_text(e: GuestProtectionError, found: Seq<char>) -> Seq<char> {
    match e {
        GuestProtectionError::NoProtectionAvailable => "guest protection requested but no guest protection available"@,
        GuestProtectionError::TDXProtectionMustBeUsedWithCH => "TDX guest protection available and must be used with Cloud Hypervisor (set 'confidential_guest=true')"@,
        GuestProtectionError::ExpectedTDXProtection(_) => "Expected TDX protection, found "@
            + found,
    }
}

impl GuestProtectionError {
    /// The message of the error; `found` shows the protection that was found.
    pub fn message(&self, found: &str) -> (r: String)
        ensures
            r@ == protection_error_text(*self, found@),
    {
        match self {
            GuestProtectionError::NoProtectionAvailable => "guest protection requested but no guest protection available".to_owned(),
            GuestProtectionError::TDXProtectionMustBeUsedWithCH => "TDX guest protection available and must be used with Cloud Hypervisor (set 'confidential_guest=true')".to_owned(),
            GuestProtectionError::ExpectedTDXProtection(_) => concat2(
                "Expected TDX protection, found ",
                found,
            ),
        }
    }
}

/// Whether a guest may start: a confidential one needs TDX, any other must not
/// have it.
pub open spec fn protection_verdict(
    confidential_guest: bool,
    protection: GuestProtection,
) -> Result<(), GuestProtectionError> {
    if confidential_guest {
        match protection {
            GuestProtection::Tdx => Ok(()),
            GuestProtection::NoProtection => Err(GuestProtectionError::NoProtectionAvailable),
            other => Err(GuestProtectionError::ExpectedTDXProtection(other)),
        }
    } else if protection is Tdx {
        Err(GuestProtectionError::TDXProtectionMustBeUsedWithCH)
    } else {
        Ok(())
    }
}

/// Whether a protection is TDX.
pub fn guest_protection_is_tdx(protection: GuestProtection) -> (r: bool)
    ensures
        r == (protection is Tdx),
{
    matches!(protection, GuestProtection::Tdx)
}

/// The protection to work with: what the host offers, unless another one is
/// put in its place. A host that cannot be asked is an error either way.
pub fn get_fake_guest_protection(
    fake: Option<GuestProtection>,
    available: Result<GuestProtection, String>,
) -> (r: Result<GuestProtection, String>)
    ensures
        r == (match available {
            Err(e) => Err(e),
            Ok(host) => match fake {
                Some(protection) => Ok(protection),
                None => Ok(host),
            },
        }),
{
    match available {
        Err(e) => Err(e),
        Ok(host) => match fake {
            Some(protection) => Ok(protection),
            None => Ok(host),
        },
    }
}

/// What a hypervisor can do.
#[derive(Debug, Clone, Copy, PartialEq, Eq, Structural)]
pub struct Capabilities {
    pub block_device: bool,
    pub block_device_hotplug: bool,
    pub block_device_discard: bool,
    pub fs_sharing: bool,
    pub hybrid_vsock: bool,
    pub network_device_hotplug: bool,
}

impl Capabilities {
    /// Whether network devices can be added to a running guest.
    pub fn is_network_device_hotplug_supported(&self) -> (r: bool)
        ensures
            r == self.network_device_hotplug,
    {
        self.network_device_hotplug
    }
}

/// The protection that a guest uses: that of the host where it is requested, or
/// where the host cannot do without it; none where it is available but not
/// requested.
pub open spec fn protection_used(
    confidential_guest: bool,
    protection: GuestProtection,
) -> GuestProtection {
    if confidential_guest || protection is Tdx {
        protection
    } else {
        GuestProtection::NoProtection
    }
}

impl CloudHypervisorInner {
    /// Takes note of the protection to use, given what the host offers, and says
    /// whether the guest may start.
    pub fn handle_guest_protection(&mut self, protection: GuestProtection) -> (r: Result<
        (),
        GuestProtectionError,
    >)
        ensures
            *final(self) == (CloudHypervisorInner {
                guest_protection_to_use: protection_used(
                    old(self).config.security_info.confidential_guest,
                    protection,
                ),
                ..*old(self)
            }),
            r == protection_verdict(old(self).config.security_info.confidential_guest, protection),
    {
        let requested: bool = self.config.security_info.confidential_guest;
        self.guest_protection_to_use = if requested || guest_protection_is_tdx(protection) {
            protection
        } else {
            GuestProtection::NoProtection
        };
        if requested {
            match protection {
                GuestProtection::NoProtection => Err(GuestProtectionError::NoProtectionAvailable),
                GuestProtection::Tdx => Ok(()),
                other => Err(GuestProtectionError::ExpectedTDXProtection(other)),
            }
        } else if guest_protection_is_tdx(protection) {
            Err(GuestProtectionError::TDXProtectionMustBeUsedWithCH)
        } else {
            Ok(())
        }
    }

    /// What the hypervisor can do: everything, but a TDX guest cannot share
    /// file systems.
    pub fn capabilities(&self) -> (r: Capabilities)
        ensures
            r == (Capabilities {
                block_device: true,
                block_device_hotplug: true,
                block_device_discard: true,
                fs_sharing: !(self.guest_protection_to_use is Tdx),
                hybrid_vsock: true,
                network_device_hotplug: true,
            }),
    {
        Capabilities {
            block_device: true,
            block_device_hotplug: true,
            block_device_discard: true,
            fs_sharing: !guest_protection_is_tdx(self.guest_protection_to_use),
            hybrid_vsock: true,
            network_device_hotplug: true,
        }
    }

    /// The capabilities follow from the protection; they cannot be set.
    pub fn set_capabilities(&mut self, _capabilities: Capabilities)
        ensures
            *final(self) == *old(self),
    {
    }
}

/// A guest that may start uses a protection exactly when it requests one, and
/// then it is TDX.
pub proof fn law_protection_is_used_when_requested(
    confidential_guest: bool,
    protection: GuestProtection,
)
    requires
        protection_verdict(confidential_guest, protection) is Ok,
    ensures
        protection_used(confidential_guest, protection) == (if confidential_guest {
            GuestProtection::Tdx
        } else {
            GuestProtection::NoProtection
        }),
{
}

/// A guest that may start on a host is confidential exactly when the host has
/// TDX.
pub proof fn law_confidential_exactly_with_tdx(
    confidential_guest: bool,
    protection: GuestProtection,
)
    ensures
        protection_verdict(confidential_guest, protection) is Ok ==> confidential_guest == (
        protection is Tdx),
        confidential_guest && protection is Tdx ==> protection_verdict(
            confidential_guest,
            protection,
        ) is Ok,
{
}

} // verus!
