//! The block disks of a checkpoint, and where a restore finds them.

use vstd::prelude::*;

use crate::text::{concat2, decimal, decimal_text, same_text};
use crate::unix_path::{components, path_starts_with};

verus! {

/// A disk that a checkpoint holds.
#[derive(Debug, PartialEq, Eq)]
pub struct CheckpointStorageDisk<S> {
    pub id: S,
    pub role: S,
    /// Seen from the directory of the checkpoint.
    pub path: S,
    pub readonly: bool,
    /// In bytes.
    pub size: u64,
    pub num_queues: usize,
    pub queue_size: u64,
}

/// A container of a checkpoint.
#[derive(Debug, PartialEq, Eq)]
pub struct CheckpointStorageContainer<S> {
    pub block_disks: Vec<CheckpointStorageDisk<S>>,
}

/// What a checkpoint says of its storage.
#[derive(Debug, PartialEq, Eq)]
pub struct CheckpointStorageMetadata<S> {
    pub containers: Vec<CheckpointStorageContainer<S>>,
}

impl View for CheckpointStorageDisk<String> {
    type V = CheckpointStorageDisk<Seq<char>>;

    open spec fn view(&self) -> CheckpointStorageDisk<Seq<char>> {
        CheckpointStorageDisk {
            id: self.id@,
            role: self.role@,
            path: self.path@,
            readonly: self.readonly,
            size: self.size,
            num_queues: self.num_queues,
            queue_size: self.queue_size,
        }
    }
}

/// The views of disks.
pub open spec fn disk_views(disks: Seq<CheckpointStorageDisk<String>>) -> Seq<
    CheckpointStorageDisk<Seq<char>>,
> {
    disks.map_values(|d: CheckpointStorageDisk<String>| d@)
}

/// The disks of the first `n` containers, one container after the other.
pub open spec fn all_disks(
    containers: Seq<CheckpointStorageContainer<String>>,
    n: int,
) -> Seq<CheckpointStorageDisk<Seq<char>>>
    decreases n,
{
    if n <= 0 {
        Seq::empty()
    } else {
        all_disks(containers, n - 1) + disk_views(containers[n - 1].block_disks@)
    }
}

/// The disks that metadata names, one container after the other.
pub open spec fn disks_of(metadata: CheckpointStorageMetadata<String>) -> Seq<
    CheckpointStorageDisk<Seq<char>>,
> {
    all_disks(metadata.containers@, metadata.containers@.len() as int)
}

/// Why the disks of a checkpoint cannot be restored.
#[derive(Debug, PartialEq, Eq)]
pub enum DiskError<S> {
    MetadataNotRegular { path: S },
    MetadataEscapes { root: S },
    Conflict { id: S },
    ConfigUnreadable { detail: S },
    MissingDisks,
    MissingPath,
    MissingId,
    NotInMetadata { id: S },
    InvalidId { id: S },
    InvalidPath { path: S },
    NotRegular { source: S },
    Escapes { source: S, root: S },
    SizeChanged { id: S, expected: u64, found: u64 },
    MissingDisk { id: S },
    Readonly { id: S },
    Queues { id: S },
    CloneExists { destination: S },
    CloneFailed { source: S, status: S },
    UnsupportedRole { id: S, role: S },
}

impl View for DiskError<String> {
    type V = DiskError<Seq<char>>;

    open spec fn view(&self) -> DiskError<Seq<char>> {
        match self {
            DiskError::MetadataNotRegular { path } => DiskError::MetadataNotRegular {
                path: path@,
            },
            DiskError::MetadataEscapes { root } => DiskError::MetadataEscapes { root: root@ },
            DiskError::Conflict { id } => DiskError::Conflict { id: id@ },
            DiskError::ConfigUnreadable { detail } => DiskError::ConfigUnreadable {
                detail: detail@,
            },
            DiskError::MissingDisks => DiskError::MissingDisks,
            DiskError::MissingPath => DiskError::MissingPath,
            DiskError::MissingId => DiskError::MissingId,
            DiskError::NotInMetadata { id } => DiskError::NotInMetadata { id: id@ },
            DiskError::InvalidId { id } => DiskError::InvalidId { id: id@ },
            DiskError::InvalidPath { path } => DiskError::InvalidPath { path: path@ },
            DiskError::NotRegular { source } => DiskError::NotRegular { source: source@ },
            DiskError::Escapes { source, root } => DiskError::Escapes {
                source: source@,
                root: root@,
            },
            DiskError::SizeChanged { id, expected, found } => DiskError::SizeChanged {
                id: id@,
                expected: *expected,
                found: *found,
            },
            DiskError::MissingDisk { id } => DiskError::MissingDisk { id: id@ },
            DiskError::Readonly { id } => DiskError::Readonly { id: id@ },
            DiskError::Queues { id } => DiskError::Queues { id: id@ },
            DiskError::CloneExists { destination } => DiskError::CloneExists {
                destination: destination@,
            },
            DiskError::CloneFailed { source, status } => DiskError::CloneFailed {
                source: source@,
                status: status@,
            },
            DiskError::UnsupportedRole { id, role } => DiskError::UnsupportedRole {
                id: id@,
                role: role@,
            },
        }
    }
}

/// The text that a string is shown as for debugging.
pub uninterp spec fn debug_text(s: Seq<char>) -> Seq<char>;

/// `Debug` of `str`: the text is a function of the string.
#[verifier::external_body]
fn debug_of(s: &str) -> (r: String)
    ensures
        r@ == debug_text(s@),
{
    format!("{:?}", s)
}

/// The message of an error.
pub open spec fn disk_error_text(e: DiskError<Seq<char>>) -> Seq<char> {
    match e {
        DiskError::MetadataNotRegular { path } => "checkpoint metadata is not a regular file: "@
            + path,
        DiskError::MetadataEscapes { root } => "checkpoint metadata escapes "@ + root,
        DiskError::Conflict { id } => "checkpoint disk id "@ + id + " has conflicting metadata"@,
        DiskError::ConfigUnreadable { detail } => detail,
        DiskError::MissingDisks => "checkpoint config missing block disks"@,
        DiskError::MissingPath => "checkpoint config disk is missing a path"@,
        DiskError::MissingId => "checkpoint config non-boot disk is missing an id"@,
        DiskError::NotInMetadata { id } => "checkpoint disk id "@ + id
            + " is not represented in block metadata"@,
        DiskError::InvalidId { id } => "invalid checkpoint disk id "@ + debug_text(id),
        DiskError::InvalidPath { path } => "invalid checkpoint disk path "@ + debug_text(path),
        DiskError::NotRegular { source } => "checkpoint disk is not a regular file: "@ + source,
        DiskError::Escapes { source, root } => "checkpoint disk "@ + source + " escapes "@ + root,
        DiskError::SizeChanged { id, expected, found } => "checkpoint disk "@ + id
            + " size changed: expected "@ + decimal(expected as nat) + ", got "@ + decimal(
            found as nat,
        ),
        DiskError::MissingDisk { id } => "checkpoint config missing disk id "@ + id,
        DiskError::Readonly { id } => "checkpoint disk "@ + id
            + " readonly setting does not match"@,
        DiskError::Queues { id } => "checkpoint disk "@ + id + " queue settings do not match"@,
        DiskError::CloneExists { destination } => "private checkpoint disk already exists: "@
            + destination,
        DiskError::CloneFailed { source, status } => "clone checkpoint disk "@ + source
            + " failed with "@ + status,
        DiskError::UnsupportedRole { id, role } => "checkpoint disk "@ + id
            + " has unsupported role "@ + debug_text(role),
    }
}

/// `a` followed by `b` and `c`.
fn concat3(a: &str, b: &str, c: &str) -> (r: String)
    ensures
        r@ == a@ + b@ + c@,
{
    let mut r = concat2(a, b);
    r.append(c);
    r
}

impl DiskError<String> {
    /// The message of the error.
    pub fn message(&self) -> (r: String)
        ensures
            r@ == disk_error_text(self@),
    {
        match self {
            DiskError::MetadataNotRegular { path } => concat2(
                "checkpoint metadata is not a regular file: ",
                path.as_str(),
            ),
            DiskError::MetadataEscapes { root } => concat2(
                "checkpoint metadata escapes ",
                root.as_str(),
            ),
            DiskError::Conflict { id } => concat3(
                "checkpoint disk id ",
                id.as_str(),
                " has conflicting metadata",
            ),
            DiskError::ConfigUnreadable { detail } => detail.clone(),
            DiskError::MissingDisks => "checkpoint config missing block disks".to_owned(),
            DiskError::MissingPath => "checkpoint config disk is missing a path".to_owned(),
            DiskError::MissingId => "checkpoint config non-boot disk is missing an id".to_owned(),
            DiskError::NotInMetadata { id } => concat3(
                "checkpoint disk id ",
                id.as_str(),
                " is not represented in block metadata",
            ),
            DiskError::InvalidId { id } => concat2(
                "invalid checkpoint disk id ",
                debug_of(id.as_str()).as_str(),
            ),
            DiskError::InvalidPath { path } => concat2(
                "invalid checkpoint disk path ",
                debug_of(path.as_str()).as_str(),
            ),
            DiskError::NotRegular { source } => concat2(
                "checkpoint disk is not a regular file: ",
                source.as_str(),
            ),
            DiskError::Escapes { source, root } => {
                let mut r = concat3("checkpoint disk ", source.as_str(), " escapes ");
                r.append(root.as_str());
                r
            },
            DiskError::SizeChanged { id, expected, found } => {
                let mut r = concat3("checkpoint disk ", id.as_str(), " size changed: expected ");
                r.append(decimal_text(*expected).as_str());
                r.append(", got ");
                r.append(decimal_text(*found).as_str());
                r
            },
            DiskError::MissingDisk { id } => concat2(
                "checkpoint config missing disk id ",
                id.as_str(),
            ),
            DiskError::Readonly { id } => concat3(
                "checkpoint disk ",
                id.as_str(),
                " readonly setting does not match",
            ),
            DiskError::Queues { id } => concat3(
                "checkpoint disk ",
                id.as_str(),
                " queue settings do not match",
            ),
            DiskError::CloneExists { destination } => concat2(
                "private checkpoint disk already exists: ",
                destination.as_str(),
            ),
            DiskError::CloneFailed { source, status } => {
                let mut r = concat3("clone checkpoint disk ", source.as_str(), " failed with ");
                r.append(status.as_str());
                r
            },
            DiskError::UnsupportedRole { id, role } => {
                let mut r = concat3("checkpoint disk ", id.as_str(), " has unsupported role ");
                r.append(debug_of(role.as_str()).as_str());
                r
            },
        }
    }
}

/// What is known of a directory entry, without following links.
#[derive(Debug, Clone, Copy, PartialEq, Eq, Structural)]
pub struct FileFacts {
    pub is_symlink: bool,
    pub is_file: bool,
    /// In bytes.
    pub len: u64,
}

/// Whether an entry is a regular file.
pub open spec fn is_regular(facts: FileFacts) -> bool {
    facts.is_file && !facts.is_symlink
}

/// Accepts the metadata file of a checkpoint if it is a regular file.
pub fn check_metadata_file(path: &str, facts: FileFacts) -> (r: Result<(), DiskError<String>>)
    ensures
        match r {
            Ok(_) => is_regular(facts),
            Err(e) => !is_regular(facts) && e@ == (DiskError::MetadataNotRegular { path: path@ }),
        },
{
    if facts.is_symlink || !facts.is_file {
        return Err(DiskError::MetadataNotRegular { path: path.to_owned() });
    }
    Ok(())
}

/// Whether a resolved path lies at or below a resolved directory.
pub open spec fn within(root: Seq<char>, path: Seq<char>) -> bool {
    components(root).is_prefix_of(components(path))
}

/// Accepts the metadata file of a checkpoint if it lies in the checkpoint.
pub fn check_metadata_within(root: &str, canonical: &str) -> (r: Result<(), DiskError<String>>)
    ensures
        match r {
            Ok(_) => within(root@, canonical@),
            Err(e) => !within(root@, canonical@) && e@ == (DiskError::MetadataEscapes {
                root: root@,
            }),
        },
{
    if !path_starts_with(canonical, root) {
        return Err(DiskError::MetadataEscapes { root: root.to_owned() });
    }
    Ok(())
}

/// The position of the disk with an id.
pub open spec fn position_of(
    disks: Seq<CheckpointStorageDisk<Seq<char>>>,
    id: Seq<char>,
    from: int,
) -> Option<int>
    decreases disks.len() - from,
{
    if from >= disks.len() {
        None
    } else if disks[from].id == id {
        Some(from)
    } else {
        position_of(disks, id, from + 1)
    }
}

/// The first `n` disks without repetitions, in the order in which they first
/// occur; or the id under which two different disks occur first.
pub open spec fn collected(all: Seq<CheckpointStorageDisk<Seq<char>>>, n: int) -> Result<
    Seq<CheckpointStorageDisk<Seq<char>>>,
    Seq<char>,
>
    decreases n,
{
    if n <= 0 {
        Ok(Seq::empty())
    } else {
        match collected(all, n - 1) {
            Err(id) => Err(id),
            Ok(found) => match position_of(found, all[n - 1].id, 0) {
                None => Ok(found.push(all[n - 1])),
                Some(i) => if found[i] == all[n - 1] {
                    Ok(found)
                } else {
                    Err(all[n - 1].id)
                },
            },
        }
    }
}

/// Whether no two disks have the same id.
pub open spec fn distinct_ids(disks: Seq<CheckpointStorageDisk<Seq<char>>>) -> bool {
    forall|i: int, j: int|
        0 <= i < j < disks.len() ==> (#[trigger] disks[i]).id != (#[trigger] disks[j]).id
}

/// A position that is found is the first with the id.
pub proof fn lemma_position_of(
    disks: Seq<CheckpointStorageDisk<Seq<char>>>,
    id: Seq<char>,
    from: int,
)
    requires
        0 <= from,
    ensures
        match position_of(disks, id, from) {
            Some(i) => from <= i < disks.len() && disks[i].id == id,
            None => forall|j: int| from <= j < disks.len() ==> (#[trigger] disks[j]).id != id,
        },
    decreases disks.len() - from,
{
    if from < disks.len() && disks[from].id != id {
        lemma_position_of(disks, id, from + 1);
    }
}

/// The collected disks have different ids, and every disk is among them: two
/// different disks under one id are refused.
pub proof fn law_collected_disks(all: Seq<CheckpointStorageDisk<Seq<char>>>, n: int)
    requires
        0 <= n <= all.len(),
    ensures
        match collected(all, n) {
            Ok(found) => distinct_ids(found) && (forall|j: int|
                0 <= j < n ==> found.contains(#[trigger] all[j])) && (forall|k: int|
                0 <= k < found.len() ==> all.take(n).contains(#[trigger] found[k])),
            Err(id) => exists|i: int, j: int|
                0 <= i < n && 0 <= j < n && (#[trigger] all[i]).id == id && (
                #[trigger] all[j]).id == id && all[i] != all[j],
        },
    decreases n,
{
    if n > 0 {
        law_collected_disks(all, n - 1);
        if let Ok(found) = collected(all, n - 1) {
            let disk = all[n - 1];
            lemma_position_of(found, disk.id, 0);
            match position_of(found, disk.id, 0) {
                None => {
                    let longer = found.push(disk);
                    assert forall|i: int, j: int| 0 <= i < j < longer.len() implies (
                    #[trigger] longer[i]).id != (#[trigger] longer[j]).id by {
                        assert(longer[i] == found[i]);
                    }
                    assert forall|j: int| 0 <= j < n implies longer.contains(#[trigger] all[j]) by {
                        if j < n - 1 {
                            let k = choose|k: int| 0 <= k < found.len() && found[k] == all[j];
                            assert(longer[k] == all[j]);
                        } else {
                            assert(longer[found.len() as int] == disk);
                        }
                    }
                    assert forall|k: int| 0 <= k < longer.len() implies all.take(n).contains(
                        #[trigger] longer[k],
                    ) by {
                        if k < found.len() {
                            assert(all.take(n - 1).contains(found[k]));
                            let j = choose|j: int|
                                0 <= j < n - 1 && (#[trigger] all.take(n - 1)[j]) == found[k];
                            assert(all.take(n)[j] == found[k]);
                        } else {
                            assert(all.take(n)[n - 1] == disk);
                        }
                    }
                },
                Some(i) => {
                    assert(all.take(n - 1).contains(found[i]));
                    let j = choose|j: int|
                        0 <= j < n - 1 && (#[trigger] all.take(n - 1)[j]) == found[i];
                    assert(all[j] == found[i]);
                    if found[i] == disk {
                        assert forall|m: int| 0 <= m < n implies found.contains(
                            #[trigger] all[m],
                        ) by {
                            if m == n - 1 {
                                assert(found[i] == all[m]);
                            }
                        }
                        assert forall|k: int| 0 <= k < found.len() implies all.take(n).contains(
                            #[trigger] found[k],
                        ) by {
                            assert(all.take(n - 1).contains(found[k]));
                            let m = choose|m: int|
                                0 <= m < n - 1 && (#[trigger] all.take(n - 1)[m]) == found[k];
                            assert(all.take(n)[m] == found[k]);
                        }
                    } else {
                        assert(all[j] != all[n - 1]);
                    }
                },
            }
        }
    }
}

/// Two different disks under one id are refused.
pub proof fn law_conflicting_disks_are_refused(
    all: Seq<CheckpointStorageDisk<Seq<char>>>,
    i: int,
    j: int,
)
    requires
        0 <= i < all.len(),
        0 <= j < all.len(),
        all[i].id == all[j].id,
        all[i] != all[j],
    ensures
        collected(all, all.len() as int) is Err,
{
    law_collected_disks(all, all.len() as int);
    if let Ok(found) = collected(all, all.len() as int) {
        assert(found.contains(all[i]));
        assert(found.contains(all[j]));
        let a = choose|a: int| 0 <= a < found.len() && found[a] == all[i];
        let b = choose|b: int| 0 <= b < found.len() && found[b] == all[j];
        if a < b {
            assert(found[a].id != found[b].id);
        } else if b < a {
            assert(found[b].id != found[a].id);
        }
    }
}

/// A disk that is there already is not collected again.
proof fn lemma_repeat_adds_nothing(
    all: Seq<CheckpointStorageDisk<Seq<char>>>,
    i: int,
    j: int,
)
    requires
        0 <= i < j < all.len(),
        all[i] == all[j],
    ensures
        collected(all, j + 1) == collected(all, j),
{
    law_collected_disks(all, j);
    if let Ok(found) = collected(all, j) {
        assert(found.contains(all[i]));
        let a = choose|a: int| 0 <= a < found.len() && found[a] == all[i];
        lemma_position_of(found, all[j].id, 0);
        match position_of(found, all[j].id, 0) {
            Some(p) => {
                if a < p {
                    assert(found[a].id != found[p].id);
                } else if p < a {
                    assert(found[p].id != found[a].id);
                }
            },
            None => {
                assert(found[a].id != all[j].id);
            },
        }
    }
}

/// A disk that repeats an earlier one can be left out: what is collected, or
/// refused, is the same without it.
pub proof fn law_repeated_disk_can_be_left_out(
    all: Seq<CheckpointStorageDisk<Seq<char>>>,
    i: int,
    j: int,
)
    requires
        0 <= i < j < all.len(),
        all[i] == all[j],
    ensures
        collected(all.remove(j), all.len() - 1) == collected(all, all.len() as int),
{
    lemma_without_repeat(all, i, j, all.len() as int);
}

/// Leaving out a repeated disk does not change what the first ones come to.
proof fn lemma_without_repeat(
    all: Seq<CheckpointStorageDisk<Seq<char>>>,
    i: int,
    j: int,
    n: int,
)
    requires
        0 <= i < j < n <= all.len(),
        all[i] == all[j],
    ensures
        collected(all.remove(j), n - 1) == collected(all, n),
    decreases n,
{
    let fewer = all.remove(j);
    if n == j + 1 {
        lemma_repeat_adds_nothing(all, i, j);
        lemma_same_start(all, fewer, j);
    } else {
        lemma_without_repeat(all, i, j, n - 1);
        assert(fewer[n - 2] == all[n - 1]);
    }
}

/// Disks that start alike are collected alike.
proof fn lemma_same_start(
    all: Seq<CheckpointStorageDisk<Seq<char>>>,
    others: Seq<CheckpointStorageDisk<Seq<char>>>,
    n: int,
)
    requires
        0 <= n <= all.len(),
        n <= others.len(),
        forall|k: int| 0 <= k < n ==> #[trigger] all[k] == others[k],
    ensures
        collected(all, n) == collected(others, n),
    decreases n,
{
    if n > 0 {
        assert(all[n - 1] == others[n - 1]);
        lemma_same_start(all, others, n - 1);
    }
}

/// A disk like the given one.
fn copy_disk(disk: &CheckpointStorageDisk<String>) -> (r: CheckpointStorageDisk<String>)
    ensures
        r@ == disk@,
{
    CheckpointStorageDisk {
        id: disk.id.clone(),
        role: disk.role.clone(),
        path: disk.path.clone(),
        readonly: disk.readonly,
        size: disk.size,
        num_queues: disk.num_queues,
        queue_size: disk.queue_size,
    }
}

/// Whether two disks are alike.
fn same_disk(a: &CheckpointStorageDisk<String>, b: &CheckpointStorageDisk<String>) -> (r: bool)
    ensures
        r == (a@ == b@),
{
    same_text(a.id.as_str(), b.id.as_str()) && same_text(a.role.as_str(), b.role.as_str())
        && same_text(a.path.as_str(), b.path.as_str()) && a.readonly == b.readonly && a.size
        == b.size && a.num_queues == b.num_queues && a.queue_size == b.queue_size
}

/// The position of the disk with an id.
pub fn find_disk(disks: &Vec<CheckpointStorageDisk<String>>, id: &str) -> (r: Option<usize>)
    ensures
        match r {
            Some(i) => i < disks@.len() && position_of(disk_views(disks@), id@, 0) == Some(
                i as int,
            ),
            None => position_of(disk_views(disks@), id@, 0) is None,
        },
{
    let ghost views = disk_views(disks@);
    let mut i: usize = 0;
    while i < disks.len()
        invariant
            i <= disks@.len(),
            views == disk_views(disks@),
            position_of(views, id@, 0) == position_of(views, id@, i as int),
        decreases disks@.len() - i,
    {
        assert(views[i as int] == disks@[i as int]@);
        if same_text(disks[i].id.as_str(), id) {
            return Some(i);
        }
        i = i + 1;
    }
    None
}

/// Two different disks under one id stay a fault, whatever follows.
proof fn lemma_conflict_stays(all: Seq<CheckpointStorageDisk<Seq<char>>>, n: int, m: int)
    requires
        n <= m,
        collected(all, n) is Err,
    ensures
        collected(all, m) == collected(all, n),
    decreases m - n,
{
    if n < m {
        lemma_conflict_stays(all, n, m - 1);
    }
}

/// The disks of fewer containers come first.
proof fn lemma_all_disks_prefix(
    containers: Seq<CheckpointStorageContainer<String>>,
    n: int,
    m: int,
)
    requires
        0 <= n <= m,
    ensures
        all_disks(containers, n).len() <= all_disks(containers, m).len(),
        all_disks(containers, m).take(all_disks(containers, n).len() as int) == all_disks(
            containers,
            n,
        ),
    decreases m - n,
{
    let short = all_disks(containers, n);
    if n == m {
        assert(short.take(short.len() as int) == short);
    } else {
        lemma_all_disks_prefix(containers, n, m - 1);
        let mid = all_disks(containers, m - 1);
        assert(all_disks(containers, m).take(short.len() as int) == mid.take(short.len() as int));
    }
}

/// Collects the disks of all containers; containers may share a disk, but not
/// an id for different disks.
pub fn collect_block_disks(metadata: &CheckpointStorageMetadata<String>) -> (r: Result<
    Vec<CheckpointStorageDisk<String>>,
    DiskError<String>,
>)
    ensures
        ({
            let all = disks_of(*metadata);
            match r {
                Ok(found) => collected(all, all.len() as int) == Ok::<_, Seq<char>>(
                    disk_views(found@),
                ),
                Err(e) => collected(all, all.len() as int) matches Err(id) && e@ == (
                DiskError::Conflict { id }),
            }
        }),
{
    let ghost containers = metadata.containers@;
    let ghost all = all_disks(containers, containers.len() as int);
    let mut found: Vec<CheckpointStorageDisk<String>> = Vec::new();
    let mut c: usize = 0;
    assert(disk_views(found@) =~= Seq::empty());
    while c < metadata.containers.len()
        invariant
            c <= metadata.containers@.len(),
            containers == metadata.containers@,
            all == all_disks(containers, containers.len() as int),
            collected(all, all_disks(containers, c as int).len() as int) == Ok::<_, Seq<char>>(
                disk_views(found@),
            ),
        decreases metadata.containers@.len() - c,
    {
        let disks = &metadata.containers[c].block_disks;
        let ghost before = all_disks(containers, c as int);
        let ghost start = before.len() as int;
        proof {
            lemma_all_disks_prefix(containers, c + 1, containers.len() as int);
        }
        let mut d: usize = 0;
        while d < disks.len()
            invariant
                d <= disks@.len(),
                c < containers.len(),
                disks@ == containers[c as int].block_disks@,
                before == all_disks(containers, c as int),
                start == before.len(),
                all == all_disks(containers, containers.len() as int),
                all_disks(containers, c + 1) == before + disk_views(disks@),
                all_disks(containers, c + 1).len() <= all.len(),
                all.take(all_disks(containers, c + 1).len() as int) == all_disks(
                    containers,
                    c + 1,
                ),
                containers == metadata.containers@,
                collected(all, start + d) == Ok::<_, Seq<char>>(disk_views(found@)),
            decreases disks@.len() - d,
        {
            let disk = &disks[d];
            proof {
                assert(all[start + d] == all.take(all_disks(containers, c + 1).len() as int)[start
                    + d]);
                assert(all[start + d] == disk_views(disks@)[d as int]);
                assert(all[start + d] == disk@);
            }
            let ghost known = disk_views(found@);
            match find_disk(&found, disk.id.as_str()) {
                Some(i) => {
                    assert(known[i as int] == found@[i as int]@);
                    if !same_disk(&found[i], disk) {
                        proof {
                            lemma_conflict_stays(all, start + d + 1, all.len() as int);
                        }
                        return Err(DiskError::Conflict { id: disk.id.clone() });
                    }
                },
                None => {
                    found.push(copy_disk(disk));
                    assert(disk_views(found@) =~= known.push(disk@));
                },
            }
            d = d + 1;
        }
        assert(all_disks(containers, c + 1).len() == start + disks@.len());
        c = c + 1;
    }
    Ok(found)
}

} // verus!
