//! The metadata file of a checkpoint, from which a restore of disks starts.
//!
//! The file is read only if it is a regular file of the checkpoint. The caller
//! looks at it, resolves it and reads it; what its findings lead to is decided
//! here, one step after the other.

use vstd::prelude::*;

use crate::block_disks::{
    check_metadata_file, check_metadata_within, collect_block_disks, collected, disk_views,
    disks_of, is_regular, within, CheckpointStorageDisk, CheckpointStorageMetadata, DiskError,
    FileFacts,
};
use crate::hypervisor::CloudHypervisorInner;
use crate::unix_path::{joined, path_join};

verus! {

/// The metadata file is looked at, without following a link.
pub struct MetadataInspect {
    /// As the caller names it.
    pub checkpoint_dir: String,
    /// The directory of the checkpoint, resolved.
    pub root: String,
    /// The metadata file, seen from where the checkpoint directory is seen.
    pub path: String,
}

/// The metadata file is resolved.
pub struct MetadataResolve {
    pub file: MetadataInspect,
    pub facts: FileFacts,
}

/// The metadata file is read.
pub struct MetadataRead {
    pub file: MetadataInspect,
    pub facts: FileFacts,
    /// The metadata file, resolved.
    pub canonical: String,
}

/// The disks that the metadata names are known.
pub struct CollectedDisks {
    pub checked: MetadataRead,
    /// The disks as they are named, one container after the other.
    pub named: Ghost<Seq<CheckpointStorageDisk<Seq<char>>>>,
    /// Each of them once.
    pub saved: Vec<CheckpointStorageDisk<String>>,
}

/// Which disks a checkpoint holds, or why they cannot be restored: its metadata
/// must be a regular file, must lie in the checkpoint, and must not contradict
/// itself, in this order.
pub open spec fn metadata_verdict(
    path: Seq<char>,
    facts: FileFacts,
    root: Seq<char>,
    canonical: Seq<char>,
    named: Seq<CheckpointStorageDisk<Seq<char>>>,
) -> Result<Seq<CheckpointStorageDisk<Seq<char>>>, DiskError<Seq<char>>> {
    if !is_regular(facts) {
        Err(DiskError::MetadataNotRegular { path })
    } else if !within(root, canonical) {
        Err(DiskError::MetadataEscapes { root })
    } else {
        match collected(named, named.len() as int) {
            Err(id) => Err(DiskError::Conflict { id }),
            Ok(saved) => Ok(saved),
        }
    }
}

impl CloudHypervisorInner {
    /// Says which file is to be looked at before the disks of a checkpoint are
    /// restored.
    pub fn checkpoint_metadata(checkpoint_dir: &str, root: &str) -> (r: MetadataInspect)
        ensures
            r.wf(),
            r.checkpoint_dir@ == checkpoint_dir@,
            r.root@ == root@,
    {
        MetadataInspect {
            checkpoint_dir: checkpoint_dir.to_owned(),
            root: root.to_owned(),
            path: path_join(checkpoint_dir, "metadata.json"),
        }
    }
}

impl MetadataInspect {
    /// What holds while the metadata file is looked at.
    pub open spec fn wf(&self) -> bool {
        self.path@ == joined(self.checkpoint_dir@, "metadata.json"@)
    }

    /// Goes on with a regular file; with another one there is no way on, whatever
    /// it resolves to and whatever it holds.
    pub fn inspected(self, facts: FileFacts) -> (r: Result<MetadataResolve, DiskError<String>>)
        requires
            self.wf(),
        ensures
            match r {
                Ok(resolve) => resolve.wf() && resolve == (MetadataResolve { file: self, facts }),
                Err(e) => !is_regular(facts) && forall|canonical: Seq<char>, named|
                    #[trigger] metadata_verdict(self.path@, facts, self.root@, canonical, named)
                        == Err::<Seq<CheckpointStorageDisk<Seq<char>>>, _>(e@),
            },
    {
        match check_metadata_file(self.path.as_str(), facts) {
            Ok(_) => Ok(MetadataResolve { file: self, facts }),
            Err(e) => Err(e),
        }
    }
}

impl MetadataResolve {
    /// What holds while the metadata file is resolved.
    pub open spec fn wf(&self) -> bool {
        self.file.wf() && is_regular(self.facts)
    }

    /// Goes on with a file of the checkpoint; with another one there is no way
    /// on, whatever it holds.
    pub fn resolved(self, canonical: String) -> (r: Result<MetadataRead, DiskError<String>>)
        requires
            self.wf(),
        ensures
            match r {
                Ok(read) => read.wf() && read == (MetadataRead {
                    file: self.file,
                    facts: self.facts,
                    canonical,
                }),
                Err(e) => !within(self.file.root@, canonical@) && forall|named|
                    #[trigger] metadata_verdict(
                        self.file.path@,
                        self.facts,
                        self.file.root@,
                        canonical@,
                        named,
                    ) == Err::<Seq<CheckpointStorageDisk<Seq<char>>>, _>(e@),
            },
    {
        match check_metadata_within(self.file.root.as_str(), canonical.as_str()) {
            Ok(_) => Ok(MetadataRead { file: self.file, facts: self.facts, canonical }),
            Err(e) => Err(e),
        }
    }
}

impl MetadataRead {
    /// What holds while the metadata file is read.
    pub open spec fn wf(&self) -> bool {
        self.file.wf() && is_regular(self.facts) && within(self.file.root@, self.canonical@)
    }

    /// What disks with the given names come to.
    pub open spec fn verdict(&self, named: Seq<CheckpointStorageDisk<Seq<char>>>) -> Result<
        Seq<CheckpointStorageDisk<Seq<char>>>,
        DiskError<Seq<char>>,
    > {
        metadata_verdict(
            self.file.path@,
            self.facts,
            self.file.root@,
            self.canonical@,
            named,
        )
    }

    /// Collects the disks that the metadata names.
    pub fn collect(self, metadata: &CheckpointStorageMetadata<String>) -> (r: Result<
        CollectedDisks,
        DiskError<String>,
    >)
        requires
            self.wf(),
        ensures
            match r {
                Ok(disks) => disks.wf() && disks.checked == self && disks.named@ == disks_of(
                    *metadata,
                ) && self.verdict(disks_of(*metadata)) is Ok,
                Err(e) => self.verdict(disks_of(*metadata)) == Err::<
                    Seq<CheckpointStorageDisk<Seq<char>>>,
                    _,
                >(e@),
            },
    {
        match collect_block_disks(metadata) {
            Ok(saved) => Ok(
                CollectedDisks { checked: self, named: Ghost(disks_of(*metadata)), saved },
            ),
            Err(e) => Err(e),
        }
    }
}

impl CollectedDisks {
    /// What holds when the disks of a checkpoint are known: its metadata is a
    /// regular file in it, and names these disks.
    pub open spec fn wf(&self) -> bool {
        &&& self.checked.wf()
        &&& self.checked.verdict(self.named@) == Ok::<_, DiskError<Seq<char>>>(
            disk_views(self.saved@),
        )
    }
}

/// Disks are restored only from a checkpoint whose metadata is a regular file
/// that lies in it and names no two different disks under one id.
pub proof fn law_restores_need_sound_metadata(
    path: Seq<char>,
    facts: FileFacts,
    root: Seq<char>,
    canonical: Seq<char>,
    named: Seq<CheckpointStorageDisk<Seq<char>>>,
)
    ensures
        metadata_verdict(path, facts, root, canonical, named) is Ok <==> (is_regular(facts)
            && within(root, canonical) && collected(named, named.len() as int) is Ok),
{
}

} // verus!
