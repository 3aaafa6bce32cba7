//! What an instance tells of itself.

use vstd::prelude::*;

use crate::hypervisor::CloudHypervisorInner;
use crate::plan::Step;
use crate::text::{concat2, decimal, decimal_text};

verus! {

impl CloudHypervisorInner {
    /// What the agent of a guest is reached by.
    pub fn get_agent_socket(&self, vsock_path: &str) -> (r: String)
        ensures
            r@ == "hvsock://"@ + vsock_path@,
    {
        concat2("hvsock://", vsock_path)
    }
}

impl CloudHypervisorInner {
    /// The step that makes the directory of the jailer.
    pub fn get_jailer_root(&self, root_path: &str) -> (r: Step<String>)
        ensures
            r@ == (Step::CreateOwnedDirAll { path: root_path@, mode: 0o750 }),
    {
        Step::CreateOwnedDirAll { path: root_path.to_owned(), mode: 0o750 }
    }
}

/// A directory that is removed, with all that is in it.
#[derive(Debug, PartialEq, Eq)]
pub enum Removal {
    /// The directory of links to a rootless sandbox.
    SymlinkDir,
    /// What belongs to the VM.
    VmDir { path: String },
}

impl CloudHypervisorInner {
    /// The process id of the hypervisor.
    pub fn get_vmm_master_tid(&self) -> (r: Result<u32, String>)
        ensures
            match r {
                Ok(pid) => self.pid == Some(pid),
                Err(e) => self.pid is None && e@ == "could not get vmm master tid"@,
            },
    {
        match self.pid {
            Some(pid) => Ok(pid),
            None => Err("could not get vmm master tid".to_owned()),
        }
    }

    /// The process ids that belong to the VM.
    pub fn get_pids(&self) -> (r: Result<Vec<u32>, String>)
        ensures
            match r {
                Ok(pids) => self.pid matches Some(pid) && pids@ == seq![pid],
                Err(e) => self.pid is None && e@ == "could not get vmm master tid"@,
            },
    {
        match self.get_vmm_master_tid() {
            Ok(pid) => {
                let mut pids: Vec<u32> = Vec::new();
                pids.push(pid);
                assert(pids@ =~= seq![pid]);
                Ok(pids)
            },
            Err(e) => Err(e),
        }
    }

    /// The directory in which the threads of the hypervisor are found.
    pub fn get_thread_ids(&self) -> (r: Result<String, String>)
        ensures
            match r {
                Ok(path) => self.pid matches Some(pid) && path@ == "/proc/"@ + decimal(pid as nat),
                Err(e) => self.pid is None && e@ == "could not get vmm master tid"@,
            },
    {
        match self.get_vmm_master_tid() {
            Ok(pid) => Ok(concat2("/proc/", decimal_text(pid as u64).as_str())),
            Err(e) => Err(e),
        }
    }

    /// The directory of the namespaces of the hypervisor.
    pub fn get_ns_path(&self) -> (r: Result<String, String>)
        ensures
            match r {
                Ok(path) => self.pid matches Some(pid) && path@ == "/proc/"@ + decimal(pid as nat)
                    + "/ns"@,
                Err(e) => self.pid is None && e@ == "could not get ns path"@,
            },
    {
        match self.pid {
            Some(pid) => {
                let mut path = concat2("/proc/", decimal_text(pid as u64).as_str());
                path.append("/ns");
                Ok(path)
            },
            None => Err("could not get ns path".to_owned()),
        }
    }

    /// What is removed when the VM is gone, in this order.
    pub fn cleanup(&self, rootless: bool) -> (r: Vec<Removal>)
        ensures
            r@.len() == (if rootless {
                2int
            } else {
                1int
            }),
            rootless ==> r@[0] is SymlinkDir,
            r@.last() matches Removal::VmDir { path } && path@ == self.vm_path@,
    {
        let mut r: Vec<Removal> = Vec::new();
        if rootless {
            r.push(Removal::SymlinkDir);
        }
        r.push(Removal::VmDir { path: self.vm_path.clone() });
        r
    }

    /// Metrics are not offered.
    pub fn get_hypervisor_metrics(&self) -> (r: Result<String, String>)
        ensures
            r matches Err(e) && e@
                == "CH hypervisor metrics not implemented - see https://github.com/kata-containers/kata-containers/issues/8800"@,
    {
        Err(
            "CH hypervisor metrics not implemented - see https://github.com/kata-containers/kata-containers/issues/8800".to_owned(),
        )
    }
}

} // verus!
