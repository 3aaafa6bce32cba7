//! Placing the disks of a checkpoint, one after the other.
//!
//! The caller looks at files and clones disks; what is asked of it and what its
//! findings lead to is decided here.

use vstd::prelude::*;

use crate::block_disks::{
    disk_views, disks_of, distinct_ids, find_disk, is_regular, law_collected_disks,
    law_conflicting_disks_are_refused, law_repeated_disk_can_be_left_out, lemma_position_of,
    position_of, within, CheckpointStorageDisk, CheckpointStorageMetadata, DiskError, FileFacts,
};
use crate::hypervisor::CloudHypervisorInner;
use crate::json::{
    array_view, bool_in, depth_limit, find_item, integral, item_index, items_in, json_bytes,
    json_parsed, json_read, json_written, lemma_array_levels, lemma_item_index, lemma_item_levels,
    lemma_member_levels, lemma_same_index, lemma_same_member, lemma_with_member_levels,
    levels_within, member, member_text, parse_json, text_in, u64_in, with_member, write_json, Json,
    JsonError, JsonView,
};
use crate::metadata_file::{CollectedDisks, MetadataRead};
use crate::text::{chars_of, concat2, same_text, split_on, texts};
use crate::unix_path::{
    absolute, components, entry_filter, goes_up, is_absolute, is_name, joined,
    lemma_joined_components, lemma_joined_name, path_join, path_lead, path_starts_with,
};

verus! {

/// Why a disk of a configuration cannot be restored, if it cannot: one that is
/// not the boot image must have an id, and be among the saved disks.
pub open spec fn entry_fault(
    entry: JsonView,
    boot_image: Seq<char>,
    saved: Seq<CheckpointStorageDisk<Seq<char>>>,
) -> Option<DiskError<Seq<char>>> {
    match text_in(member(entry, "path"@)) {
        None => Some(DiskError::MissingPath),
        Some(path) => if path == boot_image {
            None
        } else {
            match text_in(member(entry, "id"@)) {
                None => Some(DiskError::MissingId),
                Some(id) => if id.len() == 0 {
                    Some(DiskError::MissingId)
                } else if position_of(saved, id, 0) is None {
                    Some(DiskError::NotInMetadata { id })
                } else {
                    None
                },
            }
        },
    }
}

/// Why the first such disk from `from` on cannot be restored.
pub open spec fn entries_fault(
    entries: Seq<JsonView>,
    boot_image: Seq<char>,
    saved: Seq<CheckpointStorageDisk<Seq<char>>>,
    from: int,
) -> Option<DiskError<Seq<char>>>
    decreases entries.len() - from,
{
    if from >= entries.len() {
        None
    } else {
        match entry_fault(entries[from], boot_image, saved) {
            Some(fault) => Some(fault),
            None => entries_fault(entries, boot_image, saved, from + 1),
        }
    }
}

/// Why the disks of a configuration cannot be restored.
pub open spec fn config_fault(
    config: JsonView,
    boot_image: Seq<char>,
    saved: Seq<CheckpointStorageDisk<Seq<char>>>,
) -> Option<DiskError<Seq<char>>> {
    match items_in(member(config, "disks"@)) {
        None => Some(DiskError::MissingDisks),
        Some(entries) => entries_fault(entries, boot_image, saved, 0),
    }
}

/// Checks one disk of a configuration.
fn check_entry(
    entry: &Json,
    boot_image: &str,
    saved: &Vec<CheckpointStorageDisk<String>>,
) -> (r: Result<(), DiskError<String>>)
    ensures
        match r {
            Ok(_) => entry_fault(entry@, boot_image@, disk_views(saved@)) is None,
            Err(e) => entry_fault(entry@, boot_image@, disk_views(saved@)) == Some(e@),
        },
{
    match member_text(entry, "path") {
        None => {
            return Err(DiskError::MissingPath);
        },
        Some(path) => {
            if same_text(path, boot_image) {
                return Ok(());
            }
        },
    }
    match member_text(entry, "id") {
        None => Err(DiskError::MissingId),
        Some(id) => {
            if id.is_empty() {
                return Err(DiskError::MissingId);
            }
            match find_disk(saved, id) {
                Some(_) => Ok(()),
                None => Err(DiskError::NotInMetadata { id: id.to_owned() }),
            }
        },
    }
}

/// Checks the disks of a configuration.
pub fn check_config_disks(
    config: &Json,
    boot_image: &str,
    saved: &Vec<CheckpointStorageDisk<String>>,
) -> (r: Result<(), DiskError<String>>)
    ensures
        match r {
            Ok(_) => config_fault(config@, boot_image@, disk_views(saved@)) is None,
            Err(e) => config_fault(config@, boot_image@, disk_views(saved@)) == Some(e@),
        },
{
    let entries: &Vec<Json> = match config.get("disks") {
        None => {
            return Err(DiskError::MissingDisks);
        },
        Some(value) => match value.as_array() {
            None => {
                return Err(DiskError::MissingDisks);
            },
            Some(entries) => entries,
        },
    };
    let ghost all = array_view(entries@);
    let ghost views = disk_views(saved@);
    let mut i: usize = 0;
    while i < entries.len()
        invariant
            i <= entries@.len(),
            all == array_view(entries@),
            views == disk_views(saved@),
            config_fault(config@, boot_image@, views) == entries_fault(
                all,
                boot_image@,
                views,
                i as int,
            ),
        decreases entries@.len() - i,
    {
        assert(all[i as int] == entries@[i as int]@);
        match check_entry(&entries[i], boot_image, saved) {
            Ok(_) => {},
            Err(e) => {
                return Err(e);
            },
        }
        i = i + 1;
    }
    Ok(())
}

/// Whether a character may stand in a disk id.
pub open spec fn is_id_char(c: char) -> bool {
    '0' <= c <= '9' || 'A' <= c <= 'Z' || 'a' <= c <= 'z' || c == '-'
}

/// Whether a text is a disk id: it names a file in any directory.
pub open spec fn is_disk_id(id: Seq<char>) -> bool {
    id.len() > 0 && forall|i: int| 0 <= i < id.len() ==> is_id_char(#[trigger] id[i])
}

/// Whether a text is the path of a disk: relative, and never up.
pub open spec fn is_disk_path(path: Seq<char>) -> bool {
    !is_absolute(path) && !components(path).contains(seq!['.', '.'])
}

/// Whether a text is a disk id.
fn disk_id(id: &str) -> (r: bool)
    ensures
        r == is_disk_id(id@),
{
    let chars = chars_of(id);
    let mut i: usize = 0;
    while i < chars.len()
        invariant
            i <= chars@.len(),
            chars@ == id@,
            forall|k: int| 0 <= k < i ==> is_id_char(#[trigger] id@[k]),
        decreases chars@.len() - i,
    {
        let c = chars[i];
        let allowed = (c >= '0' && c <= '9') || (c >= 'A' && c <= 'Z') || (c >= 'a' && c <= 'z')
            || c == '-';
        if !allowed {
            assert(!is_id_char(id@[i as int]));
            return false;
        }
        i = i + 1;
    }
    chars.len() > 0
}

/// What the setting `readonly` of a configured disk is.
pub open spec fn readonly_of(entry: JsonView) -> bool {
    match bool_in(member(entry, "readonly"@)) {
        Some(b) => b,
        None => false,
    }
}

/// What a number among the settings of a configured disk is.
pub open spec fn number_in(entry: JsonView, key: Seq<char>) -> u64 {
    match u64_in(member(entry, key)) {
        Some(n) => n,
        None => 0,
    }
}

/// Whether the queues of a configured disk are those of the saved one.
pub open spec fn queues_match(entry: JsonView, disk: CheckpointStorageDisk<Seq<char>>) -> bool {
    number_in(entry, "num_queues"@) == disk.num_queues as u64 && number_in(entry, "queue_size"@)
        == disk.queue_size
}

/// Where a disk is placed.
#[derive(Debug)]
pub enum Placement<S> {
    /// Where the checkpoint has it.
    InPlace { path: S },
    /// In a clone of its own.
    Clone { source: S, destination: S },
}

/// Where a clone of a disk is put.
pub open spec fn clone_path(private_dir: Seq<char>, id: Seq<char>) -> Seq<char> {
    joined(private_dir, id + ".ext4"@)
}

/// Where a disk is placed, given its resolved path and its size: it must lie in
/// the checkpoint, have its size, and be configured as it was saved. A disk that
/// the guest writes to is cloned; one that it only reads stays where it is.
pub open spec fn placement(
    disk: CheckpointStorageDisk<Seq<char>>,
    entries: Seq<JsonView>,
    root: Seq<char>,
    private_dir: Seq<char>,
    source: Seq<char>,
    size: u64,
) -> Result<Placement<Seq<char>>, DiskError<Seq<char>>> {
    if !within(root, source) {
        Err(DiskError::Escapes { source, root })
    } else if size != disk.size {
        Err(DiskError::SizeChanged { id: disk.id, expected: disk.size, found: size })
    } else {
        match item_index(entries, "id"@, disk.id, 0) {
            None => Err(DiskError::MissingDisk { id: disk.id }),
            Some(i) => if readonly_of(entries[i]) != disk.readonly {
                Err(DiskError::Readonly { id: disk.id })
            } else if !queues_match(entries[i], disk) {
                Err(DiskError::Queues { id: disk.id })
            } else if disk.role == "ext4-upper"@ {
                Ok(Placement::Clone { source, destination: clone_path(private_dir, disk.id) })
            } else if disk.role == "erofs-lower"@ {
                Ok(Placement::InPlace { path: source })
            } else {
                Err(DiskError::UnsupportedRole { id: disk.id, role: disk.role })
            },
        }
    }
}

/// The disks of a configuration.
pub open spec fn entries_of(config: JsonView) -> Seq<JsonView> {
    items_in(member(config, "disks"@))->0
}

/// Configured disks with the paths of the first `n` saved disks replaced.
pub open spec fn entries_placed(
    entries: Seq<JsonView>,
    saved: Seq<CheckpointStorageDisk<Seq<char>>>,
    paths: Seq<Seq<char>>,
    n: int,
) -> Seq<JsonView>
    decreases n,
{
    if n <= 0 {
        entries
    } else {
        let before = entries_placed(entries, saved, paths, n - 1);
        match item_index(before, "id"@, saved[n - 1].id, 0) {
            None => before,
            Some(i) => before.update(
                i,
                with_member(before[i], "path"@, JsonView::Text(paths[n - 1])),
            ),
        }
    }
}

/// Whether a path is one at which a disk may be placed, and the disk is
/// configured as it was saved.
pub open spec fn placed_well(
    disk: CheckpointStorageDisk<Seq<char>>,
    path: Seq<char>,
    entries: Seq<JsonView>,
    root: Seq<char>,
    private_dir: Seq<char>,
) -> bool {
    &&& is_disk_id(disk.id)
    &&& is_disk_path(disk.path)
    &&& item_index(entries, "id"@, disk.id, 0) matches Some(i) && readonly_of(entries[i])
        == disk.readonly && queues_match(entries[i], disk)
    &&& {
        ||| disk.role == "ext4-upper"@ && path == clone_path(private_dir, disk.id)
        ||| disk.role == "erofs-lower"@ && within(root, path)
    }
}

/// A restore of disks of which some are placed.
pub struct DiskRestore {
    pub checkpoint_dir: String,
    /// The directory of the checkpoint, resolved.
    pub root: String,
    /// The directory for clones.
    pub private_dir: String,
    pub saved: Vec<CheckpointStorageDisk<String>>,
    /// Where the first disks are placed.
    pub placed: Vec<String>,
    /// The configuration, with their paths.
    pub config: Json,
    /// The configuration as it was.
    pub start: Ghost<JsonView>,
}

impl DiskRestore {
    /// What holds at every point: the configuration is the one that the restore
    /// started from with the paths of the placed disks, each of which is placed
    /// well.
    pub open spec fn wf(&self) -> bool {
        let saved = disk_views(self.saved@);
        let paths = texts(self.placed@);
        let entries = entries_of(self.start@);
        &&& self.placed@.len() <= self.saved@.len()
        &&& distinct_ids(saved)
        &&& self.config.storable()
        &&& levels_within(self.start@, depth_limit())
        &&& items_in(member(self.start@, "disks"@)) is Some
        &&& self.config@ == with_member(
            self.start@,
            "disks"@,
            JsonView::Array(entries_placed(entries, saved, paths, paths.len() as int)),
        )
        &&& forall|k: int|
            0 <= k < paths.len() ==> placed_well(
                saved[k],
                #[trigger] paths[k],
                entries,
                self.root@,
                self.private_dir@,
            )
    }

    /// The disk to be placed next.
    pub open spec fn current(&self) -> CheckpointStorageDisk<Seq<char>> {
        self.saved@[self.placed@.len() as int]@
    }

    /// Whether this restore is another one with one more disk placed.
    pub open spec fn follows(&self, before: DiskRestore, path: Seq<char>) -> bool {
        &&& self.wf()
        &&& self.checkpoint_dir == before.checkpoint_dir
        &&& self.root == before.root
        &&& self.private_dir == before.private_dir
        &&& self.saved == before.saved
        &&& self.start == before.start
        &&& texts(self.placed@) == texts(before.placed@).push(path)
    }
}

/// The names that placing speaks of are different.
proof fn lemma_names_differ()
    ensures
        "path"@ != "id"@,
        "path"@ != "readonly"@,
        "path"@ != "num_queues"@,
        "path"@ != "queue_size"@,
{
    reveal_strlit("path");
    reveal_strlit("id");
    reveal_strlit("readonly");
    reveal_strlit("num_queues");
    reveal_strlit("queue_size");
    assert("path"@.len() == 4 && "id"@.len() == 2 && "readonly"@.len() == 8);
    assert("num_queues"@.len() == 10 && "queue_size"@.len() == 10);
}

/// The path of the last of the first `n` saved disks that is configured as
/// entry `i`.
pub open spec fn path_for(
    entries: Seq<JsonView>,
    saved: Seq<CheckpointStorageDisk<Seq<char>>>,
    paths: Seq<Seq<char>>,
    n: int,
    i: int,
) -> Option<Seq<char>>
    decreases n,
{
    if n <= 0 {
        None
    } else if item_index(entries, "id"@, saved[n - 1].id, 0) == Some(i) {
        Some(paths[n - 1])
    } else {
        path_for(entries, saved, paths, n - 1, i)
    }
}

/// Placing disks changes the paths of the entries that they are configured as,
/// and nothing else: every other member of every entry stays, and so does
/// every entry that is no saved disk.
pub proof fn law_placing_sets_paths_only(
    entries: Seq<JsonView>,
    saved: Seq<CheckpointStorageDisk<Seq<char>>>,
    paths: Seq<Seq<char>>,
    n: int,
)
    requires
        0 <= n <= saved.len(),
        n <= paths.len(),
    ensures
        ({
            let after = entries_placed(entries, saved, paths, n);
            &&& after.len() == entries.len()
            &&& forall|i: int|
                0 <= i < entries.len() ==> #[trigger] after[i] == (match path_for(
                    entries,
                    saved,
                    paths,
                    n,
                    i,
                ) {
                    Some(path) => with_member(entries[i], "path"@, JsonView::Text(path)),
                    None => entries[i],
                })
            &&& forall|i: int, key: Seq<char>|
                0 <= i < entries.len() && key != "path"@ ==> #[trigger] member(after[i], key)
                    == member(entries[i], key)
            &&& forall|i: int|
                0 <= i < entries.len() && path_for(entries, saved, paths, n, i) is Some ==> (
                #[trigger] entries[i]) is Object
        }),
    decreases n,
{
    lemma_names_differ();
    if n > 0 {
        law_placing_sets_paths_only(entries, saved, paths, n - 1);
        let before = entries_placed(entries, saved, paths, n - 1);
        let id = saved[n - 1].id;
        assert forall|i: int| 0 <= i < before.len() implies member(#[trigger] before[i], "id"@)
            == member(entries[i], "id"@) by {}
        lemma_same_index(before, entries, "id"@, id, 0);
        lemma_item_index(entries, "id"@, id, 0);
        lemma_item_index(before, "id"@, id, 0);
        if let Some(at) = item_index(before, "id"@, id, 0) {
            let path = JsonView::Text(paths[n - 1]);
            let after = before.update(at, with_member(before[at], "path"@, path));
            assert(after == entries_placed(entries, saved, paths, n));
            if let Some(earlier) = path_for(entries, saved, paths, n - 1, at) {
                let old_path = JsonView::Text(earlier);
                assert(entries[at]->Object_0.insert("path"@, old_path).insert("path"@, path)
                    =~= entries[at]->Object_0.insert("path"@, path));
            }
            assert forall|i: int| 0 <= i < entries.len() implies #[trigger] after[i] == (
            match path_for(entries, saved, paths, n, i) {
                Some(p) => with_member(entries[i], "path"@, JsonView::Text(p)),
                None => entries[i],
            }) by {
                if i != at {
                    assert(after[i] == before[i]);
                }
            }
            assert forall|i: int, key: Seq<char>|
                0 <= i < entries.len() && key != "path"@ implies #[trigger] member(after[i], key)
                == member(entries[i], key) by {
                assert(member(before[i], key) == member(entries[i], key));
                if i != at {
                    assert(after[i] == before[i]);
                }
            }
            assert forall|i: int|
                0 <= i < entries.len() && path_for(entries, saved, paths, n, i) is Some implies (
            #[trigger] entries[i]) is Object by {
                if i != at {
                    assert(path_for(entries, saved, paths, n - 1, i) is Some);
                }
            }
        }
    }
}

/// What was placed first does not depend on what is placed next.
proof fn lemma_placed_prefix(
    entries: Seq<JsonView>,
    saved: Seq<CheckpointStorageDisk<Seq<char>>>,
    paths: Seq<Seq<char>>,
    path: Seq<char>,
    n: int,
)
    requires
        0 <= n <= paths.len(),
    ensures
        entries_placed(entries, saved, paths.push(path), n) == entries_placed(
            entries,
            saved,
            paths,
            n,
        ),
    decreases n,
{
    if n > 0 {
        lemma_placed_prefix(entries, saved, paths, path, n - 1);
        assert(paths.push(path)[n - 1] == paths[n - 1]);
    }
}

/// Every saved disk that is configured is found at the path that it was given.
pub proof fn law_each_disk_has_its_path(
    entries: Seq<JsonView>,
    saved: Seq<CheckpointStorageDisk<Seq<char>>>,
    paths: Seq<Seq<char>>,
    n: int,
    k: int,
)
    requires
        0 <= k < n <= saved.len(),
        n <= paths.len(),
        distinct_ids(saved),
        item_index(entries, "id"@, saved[k].id, 0) is Some,
    ensures
        ({
            let i = item_index(entries, "id"@, saved[k].id, 0)->0;
            text_in(member(entries_placed(entries, saved, paths, n)[i], "path"@)) == Some(paths[k])
        }),
{
    let i = item_index(entries, "id"@, saved[k].id, 0)->0;
    law_placing_sets_paths_only(entries, saved, paths, n);
    lemma_item_index(entries, "id"@, saved[k].id, 0);
    lemma_path_for(entries, saved, paths, n, k, i);
    assert(entries[i] is Object);
}

/// An entry gets the path of the one disk that has its id.
proof fn lemma_path_for(
    entries: Seq<JsonView>,
    saved: Seq<CheckpointStorageDisk<Seq<char>>>,
    paths: Seq<Seq<char>>,
    n: int,
    k: int,
    i: int,
)
    requires
        0 <= k < n <= saved.len(),
        distinct_ids(saved),
        item_index(entries, "id"@, saved[k].id, 0) == Some(i),
    ensures
        path_for(entries, saved, paths, n, i) == Some(paths[k]),
    decreases n,
{
    if k < n - 1 {
        lemma_item_index(entries, "id"@, saved[k].id, 0);
        lemma_item_index(entries, "id"@, saved[n - 1].id, 0);
        assert(saved[k].id != saved[n - 1].id);
        lemma_path_for(entries, saved, paths, n - 1, k, i);
    }
}

/// The configured disks, and how they compare to those at the start.
proof fn lemma_current_entries(restore: DiskRestore, id: Seq<char>)
    requires
        restore.wf(),
    ensures
        ({
            let start = entries_of(restore.start@);
            let now = entries_of(restore.config@);
            let found = item_index(now, "id"@, id, 0);
            &&& items_in(member(restore.config@, "disks"@)) == Some(now)
            &&& now == entries_placed(
                start,
                disk_views(restore.saved@),
                texts(restore.placed@),
                restore.placed@.len() as int,
            )
            &&& found == item_index(start, "id"@, id, 0)
            &&& found matches Some(i) ==> readonly_of(now[i]) == readonly_of(start[i])
                && number_in(now[i], "num_queues"@) == number_in(start[i], "num_queues"@)
                && number_in(now[i], "queue_size"@) == number_in(start[i], "queue_size"@)
        }),
{
    lemma_names_differ();
    let start = entries_of(restore.start@);
    let saved = disk_views(restore.saved@);
    let paths = texts(restore.placed@);
    let now = entries_placed(start, saved, paths, paths.len() as int);
    law_placing_sets_paths_only(start, saved, paths, paths.len() as int);
    assert forall|i: int| 0 <= i < now.len() implies member(#[trigger] now[i], "id"@) == member(
        start[i],
        "id"@,
    ) by {}
    lemma_same_index(now, start, "id"@, id, 0);
    lemma_item_index(start, "id"@, id, 0);
    if let Some(i) = item_index(start, "id"@, id, 0) {
        assert(member(now[i], "readonly"@) == member(start[i], "readonly"@));
        assert(member(now[i], "num_queues"@) == member(start[i], "num_queues"@));
        assert(member(now[i], "queue_size"@) == member(start[i], "queue_size"@));
    }
}

/// Places the current disk.
fn place(restore: DiskRestore, at: usize, path: String) -> (r: DiskRestore)
    requires
        restore.wf(),
        restore.placed@.len() < restore.saved@.len(),
        item_index(entries_of(restore.config@), "id"@, restore.current().id, 0) == Some(at as int),
        placed_well(
            restore.current(),
            path@,
            entries_of(restore.config@),
            restore.root@,
            restore.private_dir@,
        ),
    ensures
        r.follows(restore, path@),
{
    let ghost before = restore;
    let ghost saved = disk_views(restore.saved@);
    let ghost paths = texts(restore.placed@);
    let ghost start = entries_of(restore.start@);
    let ghost now = entries_of(restore.config@);
    let ghost n = restore.placed@.len() as int;
    let mut restore = restore;
    proof {
        lemma_current_entries(restore, restore.current().id);
        lemma_item_index(now, "id"@, restore.current().id, 0);
        assert(saved[n] == restore.current());
        lemma_placed_prefix(start, saved, paths, path@, n);
        assert(paths.push(path@)[n] == path@);
    }
    if let Some(disks) = restore.config.get_mut("disks") {
        if let Some(entries) = disks.as_array_mut() {
            let ghost held = entries@;
            assert(array_view(held) == now);
            assert(held[at as int]@ == now[at as int]);
            let entry = &mut entries[at];
            entry.insert("path", Json::Text(path.clone()));
            proof {
                assert(array_view(entries@) =~= now.update(
                    at as int,
                    with_member(now[at as int], "path"@, JsonView::Text(path@)),
                ));
                assert forall|k: int| 0 <= k < entries@.len() implies (
                #[trigger] entries@[k]).storable() by {
                    assert(held[k].storable());
                }
            }
        }
    }
    restore.placed.push(path);
    proof {
        let all = texts(restore.placed@);
        assert(all =~= paths.push(path@));
        let placed = entries_placed(start, saved, all, n + 1);
        assert(placed == now.update(
            at as int,
            with_member(now[at as int], "path"@, JsonView::Text(path@)),
        ));
        assert(restore.config@ == with_member(
            with_member(restore.start@, "disks"@, JsonView::Array(now)),
            "disks"@,
            JsonView::Array(placed),
        ));
        assert(restore.start@->Object_0.insert("disks"@, JsonView::Array(now)).insert(
            "disks"@,
            JsonView::Array(placed),
        ) =~= restore.start@->Object_0.insert("disks"@, JsonView::Array(placed)));
        assert forall|k: int| 0 <= k < all.len() implies placed_well(
            saved[k],
            #[trigger] all[k],
            start,
            restore.root@,
            restore.private_dir@,
        ) by {
            if k < n {
                assert(paths[k] == all[k]);
            }
        }
    }
    restore
}

/// Placing disks adds no levels and no fractions.
proof fn lemma_placed_levels(
    entries: Seq<JsonView>,
    saved: Seq<CheckpointStorageDisk<Seq<char>>>,
    paths: Seq<Seq<char>>,
    n: int,
    depth: nat,
)
    requires
        0 <= n <= saved.len(),
        levels_within(JsonView::Array(entries), depth),
        integral(JsonView::Array(entries), depth),
    ensures
        levels_within(JsonView::Array(entries_placed(entries, saved, paths, n)), depth),
        integral(JsonView::Array(entries_placed(entries, saved, paths, n)), depth),
    decreases n,
{
    if n > 0 {
        lemma_placed_levels(entries, saved, paths, n - 1, depth);
        let before = entries_placed(entries, saved, paths, n - 1);
        lemma_item_index(before, "id"@, saved[n - 1].id, 0);
        if let Some(i) = item_index(before, "id"@, saved[n - 1].id, 0) {
            let path = JsonView::Text(paths[n - 1]);
            lemma_item_levels(before, i, depth);
            lemma_with_member_levels(before[i], "path"@, path, (depth - 1) as nat);
            lemma_array_levels(before, i, with_member(before[i], "path"@, path), depth);
        }
    }
}

/// What is to be done next.
pub enum NextDisk {
    /// All disks are placed; the configuration is to be written.
    Finish(DiskFinish),
    /// A file is to be looked at, without following a link.
    Inspect(DiskInspect),
}

/// All disks are placed.
pub struct DiskFinish {
    pub restore: DiskRestore,
}

/// The file of the current disk is looked at.
pub struct DiskInspect {
    pub restore: DiskRestore,
    /// The file, seen from where the checkpoint directory is seen.
    pub source: String,
}

/// The file of the current disk is resolved.
pub struct DiskResolve {
    pub restore: DiskRestore,
    pub source: String,
    pub size: u64,
}

/// The place for a clone of the current disk is looked at.
pub struct DiskProbe {
    pub restore: DiskRestore,
    pub at: usize,
    /// The file, resolved.
    pub source: String,
    pub destination: String,
}

/// The current disk is cloned.
pub struct DiskClone {
    pub restore: DiskRestore,
    pub at: usize,
    pub source: String,
    pub destination: String,
}

/// What a resolved disk leads to.
pub enum Resolved {
    /// It is placed.
    Placed(DiskRestore),
    /// It is to be cloned, if there is room for the clone.
    Probe(DiskProbe),
}

impl DiskFinish {
    /// What holds when all disks are placed.
    pub open spec fn wf(&self) -> bool {
        self.restore.wf() && self.restore.placed@.len() == self.restore.saved@.len()
    }

    /// The bytes of the configuration with the paths of all disks.
    pub fn finish(self) -> (r: Result<Vec<u8>, JsonError>)
        requires
            self.wf(),
        ensures
            ({
                let entries = entries_of(self.restore.start@);
                let saved = disk_views(self.restore.saved@);
                let paths = texts(self.restore.placed@);
                let wanted = with_member(
                    self.restore.start@,
                    "disks"@,
                    JsonView::Array(entries_placed(entries, saved, paths, saved.len() as int)),
                );
                match r {
                    Ok(bytes) => json_bytes(wanted) == Some(bytes@) && (integral(
                        self.restore.start@,
                        depth_limit(),
                    ) ==> json_parsed(bytes@) == Some(wanted)),
                    Err(e) => json_written(wanted) == Err::<Seq<u8>, _>(e.detail@),
                }
            }),
    {
        proof {
            let start = self.restore.start@;
            let entries = entries_of(start);
            let saved = disk_views(self.restore.saved@);
            let paths = texts(self.restore.placed@);
            let d = depth_limit();
            if integral(start, d) {
                lemma_member_levels(start, "disks"@, d);
                lemma_placed_levels(entries, saved, paths, saved.len() as int, (d - 1) as nat);
                let after = entries_placed(entries, saved, paths, saved.len() as int);
                lemma_with_member_levels(start, "disks"@, JsonView::Array(after), d);
            }
        }
        write_json(self.restore.config)
    }
}

impl DiskRestore {
    /// Goes on to the next disk: its id and its path must be well formed.
    pub fn next(self) -> (r: Result<NextDisk, DiskError<String>>)
        requires
            self.wf(),
        ensures
            self.placed@.len() == self.saved@.len() ==> r == Ok::<_, DiskError<String>>(
                NextDisk::Finish(DiskFinish { restore: self }),
            ),
            self.placed@.len() < self.saved@.len() ==> match r {
                Ok(NextDisk::Finish(_)) => false,
                Ok(NextDisk::Inspect(inspect)) => inspect.wf() && inspect.restore == self
                    && is_disk_id(self.current().id) && is_disk_path(self.current().path),
                Err(e) => e@ == (if !is_disk_id(self.current().id) {
                    DiskError::InvalidId { id: self.current().id }
                } else {
                    DiskError::InvalidPath { path: self.current().path }
                }) && !(is_disk_id(self.current().id) && is_disk_path(self.current().path)),
            },
    {
        let n: usize = self.placed.len();
        if n == self.saved.len() {
            return Ok(NextDisk::Finish(DiskFinish { restore: self }));
        }
        let disk = &self.saved[n];
        if !disk_id(disk.id.as_str()) {
            return Err(DiskError::InvalidId { id: disk.id.clone() });
        }
        if absolute(disk.path.as_str()) || goes_up(disk.path.as_str()) {
            return Err(DiskError::InvalidPath { path: disk.path.clone() });
        }
        let source = path_join(self.checkpoint_dir.as_str(), disk.path.as_str());
        Ok(NextDisk::Inspect(DiskInspect { restore: self, source }))
    }
}

impl DiskInspect {
    /// What holds while the file of a disk is looked at.
    pub open spec fn wf(&self) -> bool {
        let disk = self.restore.current();
        &&& self.restore.wf()
        &&& self.restore.placed@.len() < self.restore.saved@.len()
        &&& is_disk_id(disk.id)
        &&& is_disk_path(disk.path)
        &&& self.source@ == joined(self.restore.checkpoint_dir@, disk.path)
    }

    /// Goes on with a regular file.
    pub fn inspected(self, facts: FileFacts) -> (r: Result<DiskResolve, DiskError<String>>)
        requires
            self.wf(),
        ensures
            match r {
                Ok(resolve) => is_regular(facts) && resolve.wf() && resolve == (DiskResolve {
                    restore: self.restore,
                    source: self.source,
                    size: facts.len,
                }),
                Err(e) => !is_regular(facts) && e@ == (DiskError::NotRegular {
                    source: self.source@,
                }),
            },
    {
        if facts.is_symlink || !facts.is_file {
            return Err(DiskError::NotRegular { source: self.source });
        }
        Ok(DiskResolve { restore: self.restore, source: self.source, size: facts.len })
    }
}

impl DiskResolve {
    /// What holds while the file of a disk is resolved.
    pub open spec fn wf(&self) -> bool {
        let disk = self.restore.current();
        &&& self.restore.wf()
        &&& self.restore.placed@.len() < self.restore.saved@.len()
        &&& is_disk_id(disk.id)
        &&& is_disk_path(disk.path)
    }

    /// Where the disk is placed once its file is resolved.
    pub open spec fn verdict(&self, canonical: Seq<char>) -> Result<
        Placement<Seq<char>>,
        DiskError<Seq<char>>,
    > {
        placement(
            self.restore.current(),
            entries_of(self.restore.config@),
            self.restore.root@,
            self.restore.private_dir@,
            canonical,
            self.size,
        )
    }

    /// Places the disk, or says where its clone goes.
    pub fn resolved(self, canonical: String) -> (r: Result<Resolved, DiskError<String>>)
        requires
            self.wf(),
        ensures
            match r {
                Ok(Resolved::Placed(next)) => next.follows(self.restore, canonical@)
                    && self.verdict(canonical@) == Ok::<_, DiskError<Seq<char>>>(
                    Placement::InPlace { path: canonical@ },
                ),
                Ok(Resolved::Probe(probe)) => probe.wf() && probe.restore == self.restore
                    && self.verdict(canonical@) == Ok::<_, DiskError<Seq<char>>>(
                    Placement::Clone { source: probe.source@, destination: probe.destination@ },
                ),
                Err(e) => self.verdict(canonical@) == Err::<Placement<Seq<char>>, _>(e@),
            },
    {
        let restore = self.restore;
        let n: usize = restore.placed.len();
        if !path_starts_with(canonical.as_str(), restore.root.as_str()) {
            return Err(DiskError::Escapes { source: canonical, root: restore.root });
        }
        proof {
            lemma_current_entries(restore, restore.current().id);
        }
        let disk = &restore.saved[n];
        if self.size != disk.size {
            return Err(
                DiskError::SizeChanged {
                    id: disk.id.clone(),
                    expected: disk.size,
                    found: self.size,
                },
            );
        }
        let entries: &Vec<Json> = match restore.config.get("disks") {
            Some(value) => match value.as_array() {
                Some(entries) => entries,
                None => {
                    return Err(DiskError::MissingDisk { id: disk.id.clone() });
                },
            },
            None => {
                return Err(DiskError::MissingDisk { id: disk.id.clone() });
            },
        };
        let ghost now = entries_of(restore.config@);
        assert(array_view(entries@) == now);
        let at: usize = match find_item(entries, "id", disk.id.as_str()) {
            Some(i) => i,
            None => {
                return Err(DiskError::MissingDisk { id: disk.id.clone() });
            },
        };
        let entry = &entries[at];
        assert(entry@ == now[at as int]);
        let readonly: bool = match entry.get("readonly") {
            Some(value) => match value.as_bool() {
                Some(b) => b,
                None => false,
            },
            None => false,
        };
        if readonly != disk.readonly {
            return Err(DiskError::Readonly { id: disk.id.clone() });
        }
        let num_queues: u64 = number_of(entry, "num_queues");
        let queue_size: u64 = number_of(entry, "queue_size");
        if num_queues != disk.num_queues as u64 || queue_size != disk.queue_size {
            return Err(DiskError::Queues { id: disk.id.clone() });
        }
        if same_text(disk.role.as_str(), "ext4-upper") {
            let name = concat2(disk.id.as_str(), ".ext4");
            let destination = path_join(restore.private_dir.as_str(), name.as_str());
            Ok(Resolved::Probe(DiskProbe { restore, at, source: canonical, destination }))
        } else if same_text(disk.role.as_str(), "erofs-lower") {
            Ok(Resolved::Placed(place(restore, at, canonical)))
        } else {
            Err(DiskError::UnsupportedRole { id: disk.id.clone(), role: disk.role.clone() })
        }
    }
}

/// What a number among the settings of a configured disk is.
fn number_of(entry: &Json, key: &str) -> (r: u64)
    ensures
        r == number_in(entry@, key@),
{
    match entry.get(key) {
        Some(value) => match value.as_u64() {
            Some(n) => n,
            None => 0,
        },
        None => 0,
    }
}

/// Whether the current disk of a restore can be placed at its clone.
pub open spec fn clone_ready(restore: DiskRestore, at: usize, destination: Seq<char>) -> bool {
    let disk = restore.current();
    &&& restore.wf()
    &&& restore.placed@.len() < restore.saved@.len()
    &&& disk.role == "ext4-upper"@
    &&& destination == clone_path(restore.private_dir@, disk.id)
    &&& item_index(entries_of(restore.config@), "id"@, disk.id, 0) == Some(at as int)
    &&& placed_well(
        disk,
        destination,
        entries_of(restore.config@),
        restore.root@,
        restore.private_dir@,
    )
}

impl DiskProbe {
    /// What holds while the place for a clone is looked at.
    pub open spec fn wf(&self) -> bool {
        clone_ready(self.restore, self.at, self.destination@)
    }

    /// Goes on where nothing is in the way.
    pub fn probed(self, exists: bool) -> (r: Result<DiskClone, DiskError<String>>)
        requires
            self.wf(),
        ensures
            match r {
                Ok(clone) => !exists && clone.wf() && clone == (DiskClone {
                    restore: self.restore,
                    at: self.at,
                    source: self.source,
                    destination: self.destination,
                }),
                Err(e) => exists && e@ == (DiskError::CloneExists {
                    destination: self.destination@,
                }),
            },
    {
        if exists {
            return Err(DiskError::CloneExists { destination: self.destination });
        }
        Ok(
            DiskClone {
                restore: self.restore,
                at: self.at,
                source: self.source,
                destination: self.destination,
            },
        )
    }
}

impl DiskClone {
    /// What holds while a disk is cloned.
    pub open spec fn wf(&self) -> bool {
        clone_ready(self.restore, self.at, self.destination@)
    }

    /// The arguments with which `cp` clones the disk.
    pub fn copy_args(&self) -> (r: Vec<String>)
        ensures
            texts(r@) == seq![
                "-a"@,
                "--reflink=auto"@,
                "--sparse=always"@,
                self.source@,
                self.destination@,
            ],
    {
        let mut r: Vec<String> = Vec::new();
        r.push("-a".to_owned());
        r.push("--reflink=auto".to_owned());
        r.push("--sparse=always".to_owned());
        r.push(self.source.clone());
        r.push(self.destination.clone());
        assert(texts(r@) =~= seq![
            "-a"@,
            "--reflink=auto"@,
            "--sparse=always"@,
            self.source@,
            self.destination@,
        ]);
        r
    }

    /// Places the disk at its clone, unless cloning failed; the failure is
    /// shown by the status of the process.
    pub fn cloned(self, failure: Option<String>) -> (r: Result<DiskRestore, DiskError<String>>)
        requires
            self.wf(),
        ensures
            match (r, failure) {
                (Ok(next), None) => next.follows(self.restore, self.destination@),
                (Err(e), Some(status)) => e@ == (DiskError::CloneFailed {
                    source: self.source@,
                    status: status@,
                }),
                _ => false,
            },
    {
        match failure {
            Some(status) => Err(DiskError::CloneFailed { source: self.source, status }),
            None => Ok(place(self.restore, self.at, self.destination)),
        }
    }
}

/// Why the disks of a checkpoint cannot be restored, before any file of them is
/// looked at, if they cannot.
pub open spec fn start_fault(
    config: Result<JsonView, Seq<char>>,
    boot_image: Seq<char>,
    saved: Seq<CheckpointStorageDisk<Seq<char>>>,
) -> Option<DiskError<Seq<char>>> {
    match config {
        Err(detail) => Some(DiskError::ConfigUnreadable { detail }),
        Ok(document) => config_fault(document, boot_image, saved),
    }
}

impl CloudHypervisorInner {
    /// Starts to restore the disks that the checked metadata of a checkpoint
    /// names: the configuration must name no other disk but the boot image.
    /// Without disks there is nothing to do.
    pub fn patch_checkpoint_disk_paths(
        disks: CollectedDisks,
        vm_path: &str,
        boot_image: &str,
        config_data: &[u8],
    ) -> (r: Result<Option<DiskRestore>, DiskError<String>>)
        requires
            disks.wf(),
        ensures
            ({
                let saved = disk_views(disks.saved@);
                let fault = start_fault(json_read(config_data@), boot_image@, saved);
                match r {
                    Err(e) => fault == Some(e@),
                    Ok(None) => fault is None && saved.len() == 0,
                    Ok(Some(restore)) => {
                        &&& fault is None && saved.len() > 0
                        &&& restore.wf()
                        &&& restore.placed@.len() == 0
                        &&& disk_views(restore.saved@) == saved
                        &&& restore.start@ == json_parsed(config_data@)->0
                        &&& restore.checkpoint_dir@ == disks.checked.file.checkpoint_dir@
                        &&& restore.root@ == disks.checked.file.root@
                        &&& restore.private_dir@ == joined(vm_path@, "checkpoint-disks"@)
                    },
                }
            }),
    {
        let config = match parse_json(config_data) {
            Ok(config) => config,
            Err(e) => {
                return Err(DiskError::ConfigUnreadable { detail: e.detail });
            },
        };
        match check_config_disks(&config, boot_image, &disks.saved) {
            Ok(_) => {},
            Err(e) => {
                return Err(e);
            },
        }
        assert(disk_views(disks.saved@).len() == disks.saved@.len());
        if disks.saved.len() == 0 {
            return Ok(None);
        }
        let private_dir = path_join(vm_path, "checkpoint-disks");
        let placed: Vec<String> = Vec::new();
        let start = Ghost(config@);
        proof {
            law_collected_disks(disks.named@, disks.named@.len() as int);
            lemma_same_member(config@, "disks"@);
            assert(texts(placed@) =~= Seq::<Seq<char>>::empty());
        }
        let file = disks.checked.file;
        Ok(
            Some(
                DiskRestore {
                    checkpoint_dir: file.checkpoint_dir,
                    root: file.root,
                    private_dir,
                    saved: disks.saved,
                    placed,
                    config,
                    start,
                },
            ),
        )
    }
}

/// When all disks are placed, each is found at its path: one that the guest
/// writes to in a clone of its own in the private directory, one that it only
/// reads inside the checkpoint. Nothing but paths of disks has changed.
pub proof fn law_restored_disks_are_isolated(finish: DiskFinish, k: int, key: Seq<char>)
    requires
        finish.wf(),
        0 <= k < finish.restore.saved@.len(),
    ensures
        ({
            let restore = finish.restore;
            let disk = restore.saved@[k]@;
            let path = restore.placed@[k]@;
            let entries = entries_of(restore.start@);
            let i = item_index(entries, "id"@, disk.id, 0);
            &&& i is Some
            &&& text_in(member(entries_of(restore.config@)[i->0], "path"@)) == Some(path)
            &&& disk.role == "ext4-upper"@ ==> path == clone_path(restore.private_dir@, disk.id)
            &&& disk.role != "ext4-upper"@ ==> disk.role == "erofs-lower"@ && within(
                restore.root@,
                path,
            )
            &&& key != "disks"@ ==> member(restore.config@, key) == member(restore.start@, key)
        }),
{
    let restore = finish.restore;
    let saved = disk_views(restore.saved@);
    let paths = texts(restore.placed@);
    let entries = entries_of(restore.start@);
    assert(saved[k] == restore.saved@[k]@);
    assert(paths[k] == restore.placed@[k]@);
    assert(placed_well(saved[k], paths[k], entries, restore.root@, restore.private_dir@));
    law_each_disk_has_its_path(entries, saved, paths, paths.len() as int, k);
    reveal_strlit("ext4-upper");
    reveal_strlit("erofs-lower");
    assert("ext4-upper"@.len() == 10 && "erofs-lower"@.len() == 11);
}

/// The clone of a disk lies in the private directory itself, and two disks
/// never share one.
pub proof fn law_clones_are_private(private_dir: Seq<char>, id: Seq<char>, other: Seq<char>)
    requires
        private_dir.len() > 0,
        is_disk_id(id),
        is_disk_id(other),
    ensures
        components(clone_path(private_dir, id)) == components(private_dir).push(id + ".ext4"@),
        id != other ==> components(clone_path(private_dir, id)) != components(
            clone_path(private_dir, other),
        ),
{
    lemma_clone_name(id);
    lemma_clone_name(other);
    let a = id + ".ext4"@;
    let b = other + ".ext4"@;
    lemma_joined_name(private_dir, a);
    lemma_joined_name(private_dir, b);
    if components(clone_path(private_dir, id)) == components(clone_path(private_dir, other)) {
        assert(components(private_dir).push(a).last() == a);
        assert(components(private_dir).push(b).last() == b);
        assert(a == b);
        assert(id.len() == other.len());
        assert(id =~= a.take(id.len() as int));
        assert(other =~= b.take(id.len() as int));
    }
}

/// The name of a clone is a name.
pub proof fn lemma_clone_name(id: Seq<char>)
    requires
        is_disk_id(id),
    ensures
        is_name(id + ".ext4"@),
{
    reveal_strlit(".ext4");
    let name = id + ".ext4"@;
    assert(name.len() > 1);
    if name.contains('/') {
        let k = choose|k: int| 0 <= k < name.len() && name[k] == '/';
        if k < id.len() {
            assert(is_id_char(id[k]));
        }
    }
}

/// The file of a disk is looked for below the directory of the checkpoint.
pub proof fn law_sources_lie_in_the_checkpoint(checkpoint_dir: Seq<char>, path: Seq<char>)
    requires
        checkpoint_dir.len() > 0,
        is_disk_path(path),
    ensures
        within(checkpoint_dir, joined(checkpoint_dir, path)),
        components(joined(checkpoint_dir, path)).contains(seq!['.', '.']) ==> components(
            checkpoint_dir,
        ).contains(seq!['.', '.']),
{
    let up = seq!['.', '.'];
    let base = components(checkpoint_dir);
    let added = split_on(path, '/').filter(entry_filter());
    lemma_joined_components(checkpoint_dir, path);
    assert((base + added).subrange(0, base.len() as int) =~= base);
    if (base + added).contains(up) && !base.contains(up) {
        let k = choose|k: int| 0 <= k < (base + added).len() && (base + added)[k] == up;
        assert(k >= base.len());
        assert(added[k - base.len()] == up);
        assert(components(path)[path_lead(path).len() + k - base.len()] == up);
    }
}

/// A configuration is accepted only if each of its disks is the boot image or
/// among the saved ones.
pub proof fn law_every_disk_is_accounted_for(
    entries: Seq<JsonView>,
    boot_image: Seq<char>,
    saved: Seq<CheckpointStorageDisk<Seq<char>>>,
    i: int,
)
    requires
        entries_fault(entries, boot_image, saved, 0) is None,
        0 <= i < entries.len(),
    ensures
        text_in(member(entries[i], "path"@)) == Some(boot_image) || (text_in(
            member(entries[i], "id"@),
        ) matches Some(id) && exists|k: int| 0 <= k < saved.len() && (#[trigger] saved[k]).id == id),
{
    lemma_no_fault(entries, boot_image, saved, 0, i);
    if text_in(member(entries[i], "path"@)) != Some(boot_image) {
        let id = text_in(member(entries[i], "id"@))->0;
        lemma_position_of(saved, id, 0);
        let k = position_of(saved, id, 0)->0;
        assert(saved[k].id == id);
    }
}

/// Where no disk has a fault, a given one has none.
proof fn lemma_no_fault(
    entries: Seq<JsonView>,
    boot_image: Seq<char>,
    saved: Seq<CheckpointStorageDisk<Seq<char>>>,
    from: int,
    i: int,
)
    requires
        entries_fault(entries, boot_image, saved, from) is None,
        from <= i < entries.len(),
    ensures
        entry_fault(entries[i], boot_image, saved) is None,
    decreases i - from,
{
    if from < i {
        lemma_no_fault(entries, boot_image, saved, from + 1, i);
    }
}

/// Metadata that names two different disks under one id is refused: the restore
/// does not start, and nothing is written.
pub proof fn law_conflicting_metadata_is_refused(
    checked: MetadataRead,
    metadata: CheckpointStorageMetadata<String>,
    i: int,
    j: int,
)
    requires
        checked.wf(),
        0 <= i < disks_of(metadata).len(),
        0 <= j < disks_of(metadata).len(),
        disks_of(metadata)[i].id == disks_of(metadata)[j].id,
        disks_of(metadata)[i] != disks_of(metadata)[j],
    ensures
        checked.verdict(disks_of(metadata)) matches Err(e) && e is Conflict,
{
    law_conflicting_disks_are_refused(disks_of(metadata), i, j);
}

/// Metadata that repeats a disk comes to the same as metadata without the
/// repetition: the same disks are restored, or the same fault is found.
pub proof fn law_repeated_metadata_can_be_left_out(
    checked: MetadataRead,
    metadata: CheckpointStorageMetadata<String>,
    fewer: CheckpointStorageMetadata<String>,
    i: int,
    j: int,
)
    requires
        0 <= i < j < disks_of(metadata).len(),
        disks_of(metadata)[i] == disks_of(metadata)[j],
        disks_of(fewer) == disks_of(metadata).remove(j),
    ensures
        checked.verdict(disks_of(fewer)) == checked.verdict(disks_of(metadata)),
{
    law_repeated_disk_can_be_left_out(disks_of(metadata), i, j);
}

/// Whether a disk is placed at a path.
pub open spec fn is_placed(
    saved: Seq<CheckpointStorageDisk<Seq<char>>>,
    paths: Seq<Seq<char>>,
    id: Seq<char>,
    path: Seq<char>,
) -> bool {
    exists|k: int| 0 <= k < saved.len() && (#[trigger] saved[k]).id == id && paths[k] == path
}

/// An entry that gets a path gets that of a disk with its id.
proof fn lemma_path_from(
    entries: Seq<JsonView>,
    saved: Seq<CheckpointStorageDisk<Seq<char>>>,
    paths: Seq<Seq<char>>,
    n: int,
    i: int,
) -> (k: int)
    requires
        0 <= n <= saved.len(),
        path_for(entries, saved, paths, n, i) is Some,
    ensures
        0 <= k < n,
        item_index(entries, "id"@, saved[k].id, 0) == Some(i),
        path_for(entries, saved, paths, n, i) == Some(paths[k]),
    decreases n,
{
    if item_index(entries, "id"@, saved[n - 1].id, 0) == Some(i) {
        n - 1
    } else {
        lemma_path_from(entries, saved, paths, n - 1, i)
    }
}

/// The order in which disks are placed does not matter: where the same disks
/// are placed at the same paths, the configured disks are the same.
pub proof fn law_order_of_disks_does_not_matter(
    entries: Seq<JsonView>,
    saved: Seq<CheckpointStorageDisk<Seq<char>>>,
    paths: Seq<Seq<char>>,
    other_saved: Seq<CheckpointStorageDisk<Seq<char>>>,
    other_paths: Seq<Seq<char>>,
)
    requires
        saved.len() == paths.len(),
        other_saved.len() == other_paths.len(),
        distinct_ids(saved),
        distinct_ids(other_saved),
        forall|id: Seq<char>, path: Seq<char>|
            is_placed(saved, paths, id, path) <==> is_placed(other_saved, other_paths, id, path),
    ensures
        entries_placed(entries, saved, paths, saved.len() as int) == entries_placed(
            entries,
            other_saved,
            other_paths,
            other_saved.len() as int,
        ),
{
    let n = saved.len() as int;
    let m = other_saved.len() as int;
    law_placing_sets_paths_only(entries, saved, paths, n);
    law_placing_sets_paths_only(entries, other_saved, other_paths, m);
    let a = entries_placed(entries, saved, paths, n);
    let b = entries_placed(entries, other_saved, other_paths, m);
    assert forall|i: int| 0 <= i < entries.len() implies a[i] == b[i] by {
        if path_for(entries, saved, paths, n, i) is Some {
            let k = lemma_path_from(entries, saved, paths, n, i);
            assert(is_placed(saved, paths, saved[k].id, paths[k]));
            assert(is_placed(other_saved, other_paths, saved[k].id, paths[k]));
            let o = choose|o: int|
                0 <= o < other_saved.len() && (#[trigger] other_saved[o]).id == saved[k].id
                    && other_paths[o] == paths[k];
            lemma_path_for(entries, other_saved, other_paths, m, o, i);
        } else if path_for(entries, other_saved, other_paths, m, i) is Some {
            let o = lemma_path_from(entries, other_saved, other_paths, m, i);
            assert(is_placed(other_saved, other_paths, other_saved[o].id, other_paths[o]));
            assert(is_placed(saved, paths, other_saved[o].id, other_paths[o]));
            let k = choose|k: int|
                0 <= k < saved.len() && (#[trigger] saved[k]).id == other_saved[o].id && paths[k]
                    == other_paths[o];
            lemma_path_for(entries, saved, paths, n, k, i);
        }
    }
    assert(a =~= b);
}

/// Two restores of the same configuration that place the same disks at the same
/// paths write the same configuration, in whatever order they place them.
pub proof fn law_same_placements_write_the_same(a: DiskFinish, b: DiskFinish)
    requires
        a.wf(),
        b.wf(),
        a.restore.start@ == b.restore.start@,
        forall|id: Seq<char>, path: Seq<char>|
            is_placed(disk_views(a.restore.saved@), texts(a.restore.placed@), id, path)
                <==> is_placed(
                disk_views(b.restore.saved@),
                texts(b.restore.placed@),
                id,
                path,
            ),
    ensures
        a.restore.config@ == b.restore.config@,
{
    law_order_of_disks_does_not_matter(
        entries_of(a.restore.start@),
        disk_views(a.restore.saved@),
        texts(a.restore.placed@),
        disk_views(b.restore.saved@),
        texts(b.restore.placed@),
    );
}

} // verus!
