//! What holds of the disks that a restore accepts, and of where it places them.

use vstd::prelude::*;

use crate::block_disks::{
    all_disks, collected, disk_views, is_regular, law_collected_disks,
    law_conflicting_disks_are_refused, lemma_position_of, position_of, within,
    CheckpointStorageContainer, CheckpointStorageDisk, DiskError, FileFacts,
};
use crate::disk_restore::{
    config_fault, entries_fault, entries_placed, entry_fault, is_disk_id, is_disk_path, placement,
    start_fault, DiskClone, DiskFinish, DiskInspect, DiskRestore, Placement,
};
use crate::document_laws::{
    at_key, has_key, has_text, is_first_with, law_first_item_is_found, law_parts_of_documents,
    some_has,
};
use crate::json::JsonView;
use crate::metadata_file::metadata_verdict;
use crate::text::texts;
use crate::unix_path::{components, joined};

verus! {

/// Whether a configured disk is accepted: it has a path, and is the boot image or
/// has the id of a saved disk.
pub open spec fn is_accepted(
    entry: JsonView,
    boot_image: Seq<char>,
    saved: Seq<CheckpointStorageDisk<Seq<char>>>,
) -> bool {
    &&& has_key(entry, "path"@)
    &&& at_key(entry, "path"@) is Text
    &&& {
        ||| at_key(entry, "path"@)->Text_0 == boot_image
        ||| has_key(entry, "id"@) && (at_key(entry, "id"@) matches JsonView::Text(id) && id.len()
            > 0 && exists|k: int| 0 <= k < saved.len() && (#[trigger] saved[k]).id == id)
    }
}

/// A configured disk has no fault exactly if it is accepted: the boot image needs
/// no id and no metadata, and every other disk needs both.
pub proof fn law_boot_image_needs_no_metadata(
    entry: JsonView,
    boot_image: Seq<char>,
    saved: Seq<CheckpointStorageDisk<Seq<char>>>,
)
    ensures
        entry_fault(entry, boot_image, saved) is None <==> is_accepted(entry, boot_image, saved),
        has_text(entry, "path"@, boot_image) ==> entry_fault(entry, boot_image, saved) is None,
{
    law_parts_of_documents(entry, "path"@);
    law_parts_of_documents(entry, "id"@);
    if has_key(entry, "id"@) {
        if let JsonView::Text(id) = at_key(entry, "id"@) {
            lemma_position_of(saved, id, 0);
            if let Some(k) = position_of(saved, id, 0) {
                assert(saved[k].id == id);
            }
        }
    }
}

/// Why a configured disk is refused: it has no path, it has no id, or its id is
/// that of no saved disk.
pub proof fn law_refused_disks_say_why(
    entry: JsonView,
    boot_image: Seq<char>,
    saved: Seq<CheckpointStorageDisk<Seq<char>>>,
    path: Seq<char>,
    id: Seq<char>,
)
    ensures
        ({
            let fault = entry_fault(entry, boot_image, saved);
            let has_path = has_text(entry, "path"@, path);
            let has_id = has_text(entry, "id"@, id);
            &&& !(has_key(entry, "path"@) && at_key(entry, "path"@) is Text) ==> fault == Some(
                DiskError::<Seq<char>>::MissingPath,
            )
            &&& has_path && path != boot_image && !(has_key(entry, "id"@) && at_key(
                entry,
                "id"@,
            ) is Text) ==> fault == Some(
                DiskError::<Seq<char>>::MissingId,
            )
            &&& has_path && path != boot_image && has_id && id.len() == 0 ==> fault == Some(
                DiskError::<Seq<char>>::MissingId,
            )
            &&& has_path && path != boot_image && has_id && id.len() > 0 && (forall|k: int|
                0 <= k < saved.len() ==> (#[trigger] saved[k]).id != id) ==> fault == Some(
                DiskError::NotInMetadata { id },
            )
        }),
{
    law_parts_of_documents(entry, "path"@);
    law_parts_of_documents(entry, "id"@);
    lemma_position_of(saved, id, 0);
}

/// From a given entry on, there is no fault exactly if every disk is accepted,
/// and the first one that is not decides.
proof fn lemma_entries_fault(
    entries: Seq<JsonView>,
    boot_image: Seq<char>,
    saved: Seq<CheckpointStorageDisk<Seq<char>>>,
    from: int,
    k: int,
)
    requires
        0 <= from,
    ensures
        entries_fault(entries, boot_image, saved, from) is None <==> forall|i: int|
            from <= i < entries.len() ==> is_accepted(#[trigger] entries[i], boot_image, saved),
        from <= k < entries.len() && !is_accepted(entries[k], boot_image, saved) && (forall|i: int|
            from <= i < k ==> is_accepted(#[trigger] entries[i], boot_image, saved))
            ==> entries_fault(entries, boot_image, saved, from) == entry_fault(
            entries[k],
            boot_image,
            saved,
        ),
    decreases entries.len() - from,
{
    if from < entries.len() {
        law_boot_image_needs_no_metadata(entries[from], boot_image, saved);
        lemma_entries_fault(entries, boot_image, saved, from + 1, k);
        if from < k < entries.len() && (forall|i: int|
            from <= i < k ==> is_accepted(#[trigger] entries[i], boot_image, saved)) {
            assert(is_accepted(entries[from], boot_image, saved));
        }
    }
}

/// A configuration is accepted exactly if it lists its disks, and each of them is
/// accepted; the first one that is not decides on the refusal.
pub proof fn law_configurations_are_accepted(
    config: JsonView,
    boot_image: Seq<char>,
    saved: Seq<CheckpointStorageDisk<Seq<char>>>,
    entries: Seq<JsonView>,
    k: int,
)
    ensures
        ({
            let fault = config_fault(config, boot_image, saved);
            let listed = has_key(config, "disks"@) && at_key(config, "disks"@)
                == JsonView::Array(entries);
            &&& listed ==> (fault is None <==> forall|i: int|
                0 <= i < entries.len() ==> is_accepted(#[trigger] entries[i], boot_image, saved))
            &&& listed && 0 <= k < entries.len() && !is_accepted(entries[k], boot_image, saved) && (
            forall|i: int|
                0 <= i < k ==> is_accepted(#[trigger] entries[i], boot_image, saved)) ==> fault
                == entry_fault(entries[k], boot_image, saved)
            &&& !(has_key(config, "disks"@) && at_key(config, "disks"@) is Array) ==> fault == Some(
                DiskError::<Seq<char>>::MissingDisks,
            )
        }),
        start_fault(Ok(config), boot_image, saved) == config_fault(config, boot_image, saved),
{
    law_parts_of_documents(config, "disks"@);
    lemma_entries_fault(entries, boot_image, saved, 0, k);
}

/// A configuration that cannot be read is refused with the reason.
pub proof fn law_unreadable_configurations_are_refused(
    why: Seq<char>,
    boot_image: Seq<char>,
    saved: Seq<CheckpointStorageDisk<Seq<char>>>,
)
    ensures
        start_fault(Err(why), boot_image, saved) == Some(
            DiskError::ConfigUnreadable { detail: why },
        ),
{
}

/// A disk id consists of letters, digits and hyphens, and a disk path is
/// relative and never goes up.
pub proof fn law_ids_and_paths_of_disks(id: Seq<char>, path: Seq<char>)
    ensures
        is_disk_id(id) <==> id.len() > 0 && forall|i: int|
            0 <= i < id.len() ==> '0' <= #[trigger] id[i] <= '9' || 'A' <= id[i] <= 'Z' || 'a'
                <= id[i] <= 'z' || id[i] == '-',
        is_disk_path(path) <==> !(path.len() > 0 && path[0] == '/') && !components(path).contains(
            seq!['.', '.'],
        ),
{
}

/// A path lies in a directory exactly if it begins with its components.
pub proof fn law_paths_lie_in_directories(root: Seq<char>, path: Seq<char>)
    ensures
        within(root, path) <==> components(root).len() <= components(path).len() && components(
            path,
        ).take(components(root).len() as int) == components(root),
{
    let n = components(root).len() as int;
    if n <= components(path).len() {
        assert(components(path).take(n) =~= components(path).subrange(0, n));
    }
}

/// Whether a setting of a configured disk is the given number, or missing where
/// that is zero.
pub open spec fn is_set_to(entry: JsonView, key: Seq<char>, n: u64) -> bool {
    if has_key(entry, key) && at_key(entry, key) is Integer && 0 <= at_key(entry, key)->Integer_0
        <= u64::MAX {
        at_key(entry, key)->Integer_0 == n
    } else {
        n == 0
    }
}

/// Whether a configured disk is read-only.
pub open spec fn is_readonly(entry: JsonView) -> bool {
    has_key(entry, "readonly"@) && at_key(entry, "readonly"@) == JsonView::Bool(true)
}

/// A disk is placed exactly if it lies in the checkpoint, has its size, and is
/// configured as it was saved: a disk that the guest writes to is cloned to a
/// file of its own, named by its id, and one that it only reads stays where it
/// is. Each refusal says what is wrong.
pub proof fn law_disks_are_placed(
    disk: CheckpointStorageDisk<Seq<char>>,
    entries: Seq<JsonView>,
    root: Seq<char>,
    private_dir: Seq<char>,
    source: Seq<char>,
    size: u64,
    i: int,
)
    ensures
        ({
            let r = placement(disk, entries, root, private_dir, source, size);
            let there = within(root, source);
            let found = is_first_with(entries, "id"@, disk.id, i);
            let same_mode = is_readonly(entries[i]) == disk.readonly;
            let same_queues = is_set_to(entries[i], "num_queues"@, disk.num_queues as u64)
                && is_set_to(entries[i], "queue_size"@, disk.queue_size);
            &&& !there ==> r == Err::<Placement<Seq<char>>, _>(DiskError::Escapes { source, root })
            &&& there && size != disk.size ==> r == Err::<Placement<Seq<char>>, _>(
                DiskError::SizeChanged { id: disk.id, expected: disk.size, found: size },
            )
            &&& there && size == disk.size && found ==> {
                &&& !same_mode ==> r == Err::<Placement<Seq<char>>, _>(
                    DiskError::Readonly { id: disk.id },
                )
                &&& same_mode && !same_queues ==> r == Err::<Placement<Seq<char>>, _>(
                    DiskError::Queues { id: disk.id },
                )
                &&& same_mode && same_queues && disk.role == "ext4-upper"@ ==> r == Ok::<
                    _,
                    DiskError<Seq<char>>,
                >(
                    Placement::Clone {
                        source,
                        destination: joined(private_dir, disk.id + ".ext4"@),
                    },
                )
                &&& same_mode && same_queues && disk.role == "erofs-lower"@ ==> r == Ok::<
                    _,
                    DiskError<Seq<char>>,
                >(Placement::InPlace { path: source })
                &&& same_mode && same_queues && disk.role != "ext4-upper"@ && disk.role
                    != "erofs-lower"@ ==> r == Err::<Placement<Seq<char>>, _>(
                    DiskError::UnsupportedRole { id: disk.id, role: disk.role },
                )
            }
            &&& there && size == disk.size && !some_has(
                entries,
                "id"@,
                disk.id,
            ) ==> r == Err::<
                Placement<Seq<char>>,
                _,
            >(DiskError::MissingDisk { id: disk.id })
        }),
{
    reveal_strlit("ext4-upper");
    reveal_strlit("erofs-lower");
    assert("ext4-upper"@.len() == 10 && "erofs-lower"@.len() == 11);
    law_first_item_is_found(entries, "id"@, disk.id, i);
    law_parts_of_documents(entries[i], "readonly"@);
    law_parts_of_documents(entries[i], "num_queues"@);
    law_parts_of_documents(entries[i], "queue_size"@);
}

/// A configured disk that is not the first with the id of a saved disk stays as
/// it is, and the list keeps its length.
pub proof fn law_other_entries_stay(
    entries: Seq<JsonView>,
    saved: Seq<CheckpointStorageDisk<Seq<char>>>,
    paths: Seq<Seq<char>>,
    n: int,
    i: int,
)
    requires
        0 <= n <= saved.len(),
        n <= paths.len(),
        0 <= i < entries.len(),
        forall|k: int|
            0 <= k < n ==> !is_first_with(entries, "id"@, (#[trigger] saved[k]).id, i),
    ensures
        entries_placed(entries, saved, paths, n).len() == entries.len(),
        entries_placed(entries, saved, paths, n)[i] == entries[i],
{
    crate::disk_restore::law_placing_sets_paths_only(entries, saved, paths, n);
    lemma_no_path(entries, saved, paths, n, i);
}

/// An entry that is the first with no id of a saved disk gets no path.
proof fn lemma_no_path(
    entries: Seq<JsonView>,
    saved: Seq<CheckpointStorageDisk<Seq<char>>>,
    paths: Seq<Seq<char>>,
    n: int,
    i: int,
)
    requires
        0 <= n <= saved.len(),
        forall|k: int|
            0 <= k < n ==> !is_first_with(entries, "id"@, (#[trigger] saved[k]).id, i),
    ensures
        crate::disk_restore::path_for(entries, saved, paths, n, i) is None,
    decreases n,
{
    if n > 0 {
        assert(!is_first_with(entries, "id"@, saved[n - 1].id, i));
        law_first_item_is_found(entries, "id"@, saved[n - 1].id, i);
        lemma_no_path(entries, saved, paths, n - 1, i);
    }
}

/// Every saved disk that is configured gets its path in the first entry with its
/// id, if no later disk has the same id.
pub proof fn law_disks_get_their_paths(
    entries: Seq<JsonView>,
    saved: Seq<CheckpointStorageDisk<Seq<char>>>,
    paths: Seq<Seq<char>>,
    k: int,
    i: int,
    key: Seq<char>,
)
    requires
        0 <= k < saved.len(),
        saved.len() <= paths.len(),
        is_first_with(entries, "id"@, saved[k].id, i),
        forall|a: int, b: int|
            0 <= a < b < saved.len() ==> (#[trigger] saved[a]).id != (#[trigger] saved[b]).id,
    ensures
        ({
            let after = entries_placed(entries, saved, paths, saved.len() as int)[i];
            &&& has_text(after, "path"@, paths[k])
            &&& key != "path"@ ==> has_key(after, key) == has_key(entries[i], key)
            &&& key != "path"@ && has_key(entries[i], key) ==> at_key(after, key) == at_key(
                entries[i],
                key,
            )
        }),
{
    let n = saved.len() as int;
    let after = entries_placed(entries, saved, paths, n);
    law_first_item_is_found(entries, "id"@, saved[k].id, i);
    crate::disk_restore::law_each_disk_has_its_path(entries, saved, paths, n, k);
    crate::disk_restore::law_placing_sets_paths_only(entries, saved, paths, n);
    law_parts_of_documents(after[i], "path"@);
    law_parts_of_documents(after[i], key);
    law_parts_of_documents(entries[i], key);
    if key != "path"@ {
        assert(crate::json::member(after[i], key) == crate::json::member(entries[i], key));
    }
}

/// Disks are collected exactly if no two different ones have one id; each of them
/// is collected once, in the order in which they first occur.
pub proof fn law_disks_are_collected_in_order(
    all: Seq<CheckpointStorageDisk<Seq<char>>>,
    n: int,
    found: Seq<CheckpointStorageDisk<Seq<char>>>,
)
    requires
        0 <= n < all.len(),
        collected(all, n) == Ok::<_, Seq<char>>(found),
    ensures
        collected(all, 0) == Ok::<Seq<CheckpointStorageDisk<Seq<char>>>, Seq<char>>(Seq::empty()),
        (forall|j: int| 0 <= j < n ==> (#[trigger] all[j]).id != all[n].id) ==> collected(
            all,
            n + 1,
        ) == Ok::<_, Seq<char>>(found.push(all[n])),
        (exists|j: int| 0 <= j < n && #[trigger] all[j] == all[n]) ==> collected(all, n + 1)
            == Ok::<_, Seq<char>>(found),
        (exists|j: int| 0 <= j < n && (#[trigger] all[j]).id == all[n].id && all[j] != all[n])
            ==> collected(all, n + 1) == Err::<Seq<CheckpointStorageDisk<Seq<char>>>, _>(
            all[n].id,
        ),
{
    law_collected_disks(all, n);
    lemma_position_of(found, all[n].id, 0);
    assert(all.take(n).len() == n);
    if let Some(p) = position_of(found, all[n].id, 0) {
        assert(all.take(n).contains(found[p]));
        let m = choose|m: int| 0 <= m < n && #[trigger] all.take(n)[m] == found[p];
        assert(all[m] == found[p]);
        if exists|j: int| 0 <= j < n && #[trigger] all[j] == all[n] {
            let j = choose|j: int| 0 <= j < n && #[trigger] all[j] == all[n];
            assert(found.contains(all[j]));
            lemma_one_of_an_id(found, p, all[j]);
        }
        if exists|j: int| 0 <= j < n && (#[trigger] all[j]).id == all[n].id && all[j] != all[n] {
            let j = choose|j: int|
                0 <= j < n && (#[trigger] all[j]).id == all[n].id && all[j] != all[n];
            assert(found.contains(all[j]));
            lemma_one_of_an_id(found, p, all[j]);
        }
    } else {
        assert forall|j: int| 0 <= j < n implies (#[trigger] all[j]).id != all[n].id by {
            assert(found.contains(all[j]));
            let a = choose|a: int| 0 <= a < found.len() && found[a] == all[j];
            assert(found[a].id != all[n].id);
        }
    }
}

/// Among disks with different ids, only one has a given id.
proof fn lemma_one_of_an_id(
    found: Seq<CheckpointStorageDisk<Seq<char>>>,
    p: int,
    disk: CheckpointStorageDisk<Seq<char>>,
)
    requires
        crate::block_disks::distinct_ids(found),
        0 <= p < found.len(),
        found.contains(disk),
        found[p].id == disk.id,
    ensures
        found[p] == disk,
{
    let a = choose|a: int| 0 <= a < found.len() && found[a] == disk;
    if a < p {
        assert(found[a].id != found[p].id);
    } else if p < a {
        assert(found[p].id != found[a].id);
    }
}

/// Disks are refused exactly if two different ones have one id.
pub proof fn law_only_conflicting_disks_are_refused(all: Seq<CheckpointStorageDisk<Seq<char>>>)
    ensures
        collected(all, all.len() as int) is Err <==> exists|i: int, j: int|
            0 <= i < all.len() && 0 <= j < all.len() && (#[trigger] all[i]).id == (
            #[trigger] all[j]).id && all[i] != all[j],
{
    law_collected_disks(all, all.len() as int);
    if exists|i: int, j: int|
        0 <= i < all.len() && 0 <= j < all.len() && (#[trigger] all[i]).id == (
        #[trigger] all[j]).id && all[i] != all[j] {
        let (i, j) = choose|i: int, j: int|
            0 <= i < all.len() && 0 <= j < all.len() && (#[trigger] all[i]).id == (
            #[trigger] all[j]).id && all[i] != all[j];
        law_conflicting_disks_are_refused(all, i, j);
    }
}

/// The disks that metadata names are those of all its containers, one container
/// after the other.
pub proof fn law_disks_of_all_containers(
    containers: Seq<CheckpointStorageContainer<String>>,
    n: int,
)
    requires
        0 <= n <= containers.len(),
    ensures
        all_disks(containers, n) == containers.take(n).map_values(
            |c: CheckpointStorageContainer<String>| disk_views(c.block_disks@),
        ).flatten(),
    decreases n,
{
    let view = |c: CheckpointStorageContainer<String>| disk_views(c.block_disks@);
    let lists = containers.take(n).map_values(view);
    if n == 0 {
        assert(lists =~= Seq::<Seq<CheckpointStorageDisk<Seq<char>>>>::empty());
        assert(lists.flatten() =~= Seq::<CheckpointStorageDisk<Seq<char>>>::empty());
    } else {
        law_disks_of_all_containers(containers, n - 1);
        let before = containers.take(n - 1).map_values(view);
        let last = disk_views(containers[n - 1].block_disks@);
        assert(lists =~= before.push(last));
        before.lemma_flatten_push(last);
    }
}

/// The metadata of a checkpoint is checked in this order: whether it is a file
/// and no link, whether it lies in the checkpoint, and whether it names different
/// disks under one id. The first that is wrong is reported, and else the disks
/// are those that were collected.
pub proof fn law_metadata_is_checked_in_order(
    path: Seq<char>,
    facts: FileFacts,
    root: Seq<char>,
    canonical: Seq<char>,
    named: Seq<CheckpointStorageDisk<Seq<char>>>,
)
    ensures
        ({
            let r = metadata_verdict(path, facts, root, canonical, named);
            let regular = facts.is_file && !facts.is_symlink;
            &&& is_regular(facts) <==> regular
            &&& !regular ==> r == Err::<Seq<CheckpointStorageDisk<Seq<char>>>, _>(
                DiskError::MetadataNotRegular { path },
            )
            &&& regular && !within(root, canonical) ==> r == Err::<
                Seq<CheckpointStorageDisk<Seq<char>>>,
                _,
            >(DiskError::MetadataEscapes { root })
            &&& regular && within(root, canonical) ==> (match collected(
                named,
                named.len() as int,
            ) {
                Ok(saved) => r == Ok::<_, DiskError<Seq<char>>>(saved),
                Err(id) => r == Err::<Seq<CheckpointStorageDisk<Seq<char>>>, _>(
                    DiskError::Conflict { id },
                ),
            })
        }),
{
}

/// Disks are placed one after the other, in the order in which they were
/// collected: the next one is looked at where the checkpoint has it, a clone is
/// made at its own place, and what was placed before stays placed.
pub proof fn law_disks_are_placed_in_turn(
    before: DiskRestore,
    after: DiskRestore,
    path: Seq<char>,
    inspect: DiskInspect,
    clone: DiskClone,
    finish: DiskFinish,
    k: int,
)
    ensures
        before.placed@.len() < before.saved@.len() ==> before.current()
            == before.saved@[before.placed@.len() as int]@,
        inspect.wf() ==> inspect.source@ == joined(
            inspect.restore.checkpoint_dir@,
            inspect.restore.current().path,
        ),
        clone.wf() ==> clone.restore.current().role == "ext4-upper"@ && clone.destination@
            == joined(clone.restore.private_dir@, clone.restore.current().id + ".ext4"@),
        after.follows(before, path) ==> {
            &&& after.placed@.len() == before.placed@.len() + 1
            &&& after.placed@.last()@ == path
            &&& 0 <= k < before.placed@.len() ==> after.placed@[k]@ == before.placed@[k]@
            &&& after.saved == before.saved
            &&& after.checkpoint_dir == before.checkpoint_dir
            &&& after.root == before.root
            &&& after.private_dir == before.private_dir
            &&& after.wf()
        },
        finish.wf() ==> finish.restore.placed@.len() == finish.restore.saved@.len(),
        before.wf() && 0 <= k < before.placed@.len() ==> {
            ||| before.saved@[k].role@ == "ext4-upper"@ && before.placed@[k]@ == joined(
                before.private_dir@,
                before.saved@[k].id@ + ".ext4"@,
            )
            ||| before.saved@[k].role@ == "erofs-lower"@ && within(
                before.root@,
                before.placed@[k]@,
            )
        },
{
    let old_paths = texts(before.placed@);
    let new_paths = texts(after.placed@);
    if after.follows(before, path) {
        assert(new_paths == old_paths.push(path));
        assert(new_paths.len() == after.placed@.len());
        assert(old_paths.len() == before.placed@.len());
        assert(new_paths[old_paths.len() as int] == path);
        if 0 <= k < before.placed@.len() {
            assert(new_paths[k] == old_paths[k]);
        }
    }
    if before.wf() && 0 <= k < before.placed@.len() {
        assert(old_paths[k] == before.placed@[k]@);
        assert(disk_views(before.saved@)[k] == before.saved@[k]@);
    }
}

} // verus!
