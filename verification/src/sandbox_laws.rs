//! What checkpoints save and restores rebuild, path by path and step by step.

use vstd::prelude::*;

use crate::checkpoint::{
    container_restore_plan, container_save_plan, containers_restore_plan, passthrough_copies,
    rootfs_restore_plan, CheckpointContainerMetadata, DirEntry,
};
use crate::checkpoint_laws::checkpoint_trace;
use crate::checkpoint_run::{
    checkpoint_step, kept_of, next_container, CheckpointActionView, CheckpointEventView,
    CheckpointStateView, ContainerView, EntryView, GatheringView, MetadataView,
};
use crate::overlay::{declared_layers, rootfs_layers};
use crate::overlay_laws::{
    law_layers_are_declared_with_an_upper, law_mount_options_name_the_directories, names_upper,
};
use crate::pause::{
    pause_error_chain, pause_step, resume_step, PauseAction, PauseError, PauseState, ResumeState,
};
use crate::plan::Step;
use crate::text::{join_with, texts};
use crate::unix_path::joined;

verus! {

/// The steps of one container stand together, in the order of the containers.
proof fn lemma_steps_of_containers<T>(
    checkpoint_dir: Seq<char>,
    passthrough: Seq<char>,
    sid: Seq<char>,
    containers: Seq<CheckpointContainerMetadata<T>>,
    n: int,
    k: int,
)
    requires
        0 <= n <= containers.len(),
    ensures
        containers_restore_plan(checkpoint_dir, passthrough, sid, containers, n).len() == 7 * n,
        0 <= k < n ==> containers_restore_plan(
            checkpoint_dir,
            passthrough,
            sid,
            containers,
            n,
        ).subrange(7 * k, 7 * k + 7) == container_restore_plan(
            checkpoint_dir,
            passthrough,
            sid,
            containers[k].old_id@,
            texts(containers[k].lower_dirs@),
        ),
    decreases n,
{
    if n > 0 {
        lemma_steps_of_containers(checkpoint_dir, passthrough, sid, containers, n - 1, k);
        let before = containers_restore_plan(checkpoint_dir, passthrough, sid, containers, n - 1);
        let all = containers_restore_plan(checkpoint_dir, passthrough, sid, containers, n);
        let own = container_restore_plan(
            checkpoint_dir,
            passthrough,
            sid,
            containers[n - 1].old_id@,
            texts(containers[n - 1].lower_dirs@),
        );
        assert(all == before + own);
        if 0 <= k < n - 1 {
            assert(all.subrange(7 * k, 7 * k + 7) =~= before.subrange(7 * k, 7 * k + 7));
        } else if k == n - 1 {
            assert(all.subrange(7 * k, 7 * k + 7) =~= own);
        }
    }
}

/// A restore copies the files that were shared directly, and rebuilds every
/// container of the metadata, in its order: the saved upper directory is cloned
/// below the id of the new sandbox, an overlay of the saved lower directories and
/// the clone is mounted, and the mount is bound to where the restored guest looks
/// for it: in the share, under the whole id that the container had. Nothing else
/// is done.
pub proof fn law_every_container_is_rebuilt<T>(
    checkpoint_dir: Seq<char>,
    share_path: Seq<char>,
    sid: Seq<char>,
    containers: Seq<CheckpointContainerMetadata<T>>,
    k: int,
)
    ensures
        ({
            let plan = rootfs_restore_plan(checkpoint_dir, share_path, sid, containers);
            let shared = joined(share_path, "passthrough"@);
            let own = joined(joined(checkpoint_dir, "containers"@), containers[k].old_id@);
            let dir = joined(joined(own, "restores"@), sid);
            let upper = joined(dir, "rw-diff"@);
            let work = joined(dir, "rw-work"@);
            let merged = joined(dir, "merged"@);
            let rootfs = joined(joined(shared, containers[k].old_id@), "rootfs"@);
            let lowers = join_with(texts(containers[k].lower_dirs@), seq![':']);
            let at = 1 + 7 * k;
            &&& plan.len() == 1 + 7 * containers.len()
            &&& plan[0].step == (Step::CopyPassthrough {
                from: joined(checkpoint_dir, "share-passthrough"@),
                to: shared,
            })
            &&& 0 <= k < containers.len() ==> {
                &&& plan[at].step == (Step::CreateDirAll { path: upper })
                &&& plan[at + 1].step == (Step::CopyTree {
                    from: joined(joined(own, "rw-diff"@), "."@),
                    to: upper,
                })
                &&& plan[at + 2].step == (Step::CreateDirAll { path: work })
                &&& plan[at + 3].step == (Step::CreateDirAll { path: merged })
                &&& plan[at + 4].step == (Step::MountOverlay {
                    target: merged,
                    options: "lowerdir="@ + lowers + ",upperdir="@ + upper + ",workdir="@ + work,
                })
                &&& plan[at + 5].step == (Step::CreateDirAll { path: rootfs })
                &&& plan[at + 6].step == (Step::Bind { source: merged, target: rootfs })
            }
        }),
{
    let n = containers.len() as int;
    let shared = joined(share_path, "passthrough"@);
    lemma_steps_of_containers(checkpoint_dir, shared, sid, containers, n, k);
    if 0 <= k < n {
        let plan = rootfs_restore_plan(checkpoint_dir, share_path, sid, containers);
        let rest = containers_restore_plan(checkpoint_dir, shared, sid, containers, n);
        let own = rest.subrange(7 * k, 7 * k + 7);
        assert forall|j: int| 0 <= j < 7 implies plan[1 + 7 * k + j] == #[trigger] own[j] by {}
        assert(plan[1 + 7 * k] == own[0]);
        assert(plan[1 + 7 * k + 1] == own[1]);
        assert(plan[1 + 7 * k + 2] == own[2]);
        assert(plan[1 + 7 * k + 3] == own[3]);
        assert(plan[1 + 7 * k + 4] == own[4]);
        assert(plan[1 + 7 * k + 5] == own[5]);
        assert(plan[1 + 7 * k + 6] == own[6]);
        let dir = joined(
            joined(
                joined(joined(checkpoint_dir, "containers"@), containers[k].old_id@),
                "restores"@,
            ),
            sid,
        );
        law_mount_options_name_the_directories(
            texts(containers[k].lower_dirs@),
            joined(dir, "rw-diff"@),
            joined(dir, "rw-work"@),
        );
    }
}

/// A container is saved by copying the contents of its upper directory to
/// `rw-diff` in its own directory of the checkpoint, beside which there is room
/// for an overlay. Nothing else is done.
pub proof fn law_container_is_saved_in_its_directory(
    output_path: Seq<char>,
    id: Seq<char>,
    upper_dir: Seq<char>,
)
    ensures
        ({
            let plan = container_save_plan(output_path, id, upper_dir);
            let own = joined(joined(output_path, "containers"@), id);
            &&& plan.len() == 4
            &&& plan[0].step == (Step::CreateDirAll { path: joined(own, "rw-diff"@) })
            &&& plan[1].step == (Step::CopyTree {
                from: joined(upper_dir, "."@),
                to: joined(own, "rw-diff"@),
            })
            &&& plan[2].step == (Step::CreateDirAll { path: joined(own, "rw-work"@) })
            &&& plan[3].step == (Step::CreateDirAll { path: joined(own, "merged"@) })
        }),
{
}

/// Every file and every link that stands directly in a directory is copied to
/// the other directory under its name, and nothing else is; the order is that of
/// the entries.
pub proof fn law_files_and_links_are_copied(
    source: Seq<char>,
    destination: Seq<char>,
    entries: Seq<DirEntry>,
    n: int,
    k: int,
)
    requires
        0 <= k < n <= entries.len(),
    ensures
        ({
            let before = passthrough_copies(source, destination, entries, k);
            let after = passthrough_copies(source, destination, entries, k + 1);
            let all = passthrough_copies(source, destination, entries, n);
            &&& passthrough_copies(source, destination, entries, 0).len() == 0
            &&& before.is_prefix_of(all)
            &&& after.is_prefix_of(all)
            &&& entries[k].is_file || entries[k].is_symlink ==> after.len() == before.len() + 1
                && all[before.len() as int].step == (Step::CopyFile {
                from: joined(source, entries[k].name@),
                to: joined(destination, entries[k].name@),
            })
            &&& !entries[k].is_file && !entries[k].is_symlink ==> after == before
        }),
    decreases n,
{
    let before = passthrough_copies(source, destination, entries, k);
    let after = passthrough_copies(source, destination, entries, k + 1);
    let all = passthrough_copies(source, destination, entries, n);
    if n == k + 1 {
        assert(before =~= all.subrange(0, before.len() as int));
        assert(after =~= all.subrange(0, after.len() as int));
    } else {
        law_files_and_links_are_copied(source, destination, entries, n - 1, k);
        let most = passthrough_copies(source, destination, entries, n - 1);
        assert(before =~= all.subrange(0, before.len() as int)) by {
            assert(before =~= most.subrange(0, before.len() as int));
        }
        assert(after =~= all.subrange(0, after.len() as int)) by {
            assert(after =~= most.subrange(0, after.len() as int));
        }
    }
}

/// The events of a checkpoint in which everything goes well, up to the first `n`
/// containers: the mount table is handed over for those containers whose mounts
/// name no upper directory.
pub open spec fn good_events<T>(
    agent_socket: Seq<char>,
    listed: Seq<ContainerView<T>>,
    table: Seq<char>,
    n: int,
) -> Seq<CheckpointEventView<T>>
    decreases n,
{
    if n <= 0 {
        seq![
            CheckpointEventView::Done,
            CheckpointEventView::Done,
            CheckpointEventView::Socket(agent_socket),
            CheckpointEventView::Containers(listed),
        ]
    } else {
        let before = good_events(agent_socket, listed, table, n - 1);
        if exists|m: int|
            0 <= m < listed[n - 1].rootfs_mounts.len() && names_upper(
                #[trigger] listed[n - 1].rootfs_mounts[m],
            ) {
            before.push(CheckpointEventView::Done)
        } else {
            before.push(CheckpointEventView::MountTable(table)).push(CheckpointEventView::Done)
        }
    }
}

/// The entry that the metadata has for a container with the given layers.
pub open spec fn entry_for<T>(container: ContainerView<T>, table: Seq<char>) -> EntryView<T> {
    EntryView {
        old_id: container.id,
        bundle: container.bundle,
        rootfs_mounts: container.rootfs_mounts,
        lower_dirs: match rootfs_layers(container.bundle, container.rootfs_mounts, table) {
            Some((lowers, upper)) => lowers,
            None => Seq::empty(),
        },
        spec: container.spec,
    }
}

/// Where a checkpoint stands when the first `n` containers are saved, whatever
/// the others are.
proof fn lemma_good_prefix<T>(
    sid: Seq<char>,
    output_path: Seq<char>,
    share_path: Seq<char>,
    agent_socket: Seq<char>,
    listed: Seq<ContainerView<T>>,
    table: Seq<char>,
    n: int,
) -> (g: GatheringView<T>)
    requires
        0 <= n <= listed.len(),
        forall|k: int|
            0 <= k < n ==> rootfs_layers(
                (#[trigger] listed[k]).bundle,
                listed[k].rootfs_mounts,
                table,
            ) is Some,
    ensures
        checkpoint_trace(
            sid,
            output_path,
            share_path,
            good_events(agent_socket, listed, table, n),
        ) == next_container(sid, g),
        g.output_path == output_path,
        g.listed == listed,
        g.agent_socket == agent_socket,
        g.entries == Seq::new(n as nat, |k: int| entry_for(listed[k], table)),
    decreases n,
{
    let events = good_events(agent_socket, listed, table, n);
    if n <= 0 {
        let e1 = events.drop_last();
        let e2 = e1.drop_last();
        let e3 = e2.drop_last();
        let e4 = e3.drop_last();
        assert(e4 =~= Seq::<CheckpointEventView<T>>::empty());
        assert(e3.last() == events[0]);
        assert(e2.last() == events[1]);
        assert(e1.last() == events[2]);
        assert(checkpoint_trace(sid, output_path, share_path, e4).0 is SavingVm);
        assert(checkpoint_trace(sid, output_path, share_path, e3).0 is CopyingPassthrough);
        assert(checkpoint_trace(sid, output_path, share_path, e2).0 is GettingSocket);
        assert(checkpoint_trace(sid, output_path, share_path, e1).0 is Listing);
        assert(Seq::new(0, |k: int| entry_for(listed[k], table)) =~= Seq::<
            EntryView<T>,
        >::empty());
        GatheringView {
            output_path,
            agent_socket,
            entries: Seq::empty(),
            listed,
            tables: Seq::empty(),
        }
    } else {
        let g = lemma_good_prefix(
            sid,
            output_path,
            share_path,
            agent_socket,
            listed,
            table,
            n - 1,
        );
        let before = good_events(agent_socket, listed, table, n - 1);
        let container = listed[n - 1];
        law_layers_are_declared_with_an_upper(container.rootfs_mounts);
        assert(rootfs_layers(container.bundle, container.rootfs_mounts, table) is Some);
        let entry = entry_for(container, table);
        assert(g.entries.push(entry) =~= Seq::new(n as nat, |k: int| entry_for(listed[k], table)));
        if declared_layers(container.rootfs_mounts, 0) is Some {
            assert(events == before.push(CheckpointEventView::Done));
            assert(events.drop_last() =~= before);
            assert(rootfs_layers(container.bundle, container.rootfs_mounts, Seq::empty())
                == rootfs_layers(container.bundle, container.rootfs_mounts, table));
            assert(kept_of(container, Seq::empty()) == Some(entry));
            assert(checkpoint_trace(sid, output_path, share_path, before).0 == (
            CheckpointStateView::SavingContainer(
                GatheringView { tables: g.tables.push(Seq::empty()), ..g },
                entry,
            )));
            GatheringView { entries: g.entries.push(entry), tables: g.tables.push(Seq::empty()), ..g }
        } else {
            let asked = before.push(CheckpointEventView::MountTable(table));
            assert(asked.drop_last() =~= before);
            assert(events == asked.push(CheckpointEventView::Done));
            assert(events.drop_last() =~= asked);
            assert(kept_of(container, table) == Some(entry));
            assert(checkpoint_trace(sid, output_path, share_path, asked).0 == (
            CheckpointStateView::SavingContainer(
                GatheringView { tables: g.tables.push(table), ..g },
                entry,
            )));
            GatheringView { entries: g.entries.push(entry), tables: g.tables.push(table), ..g }
        }
    }
}

/// A checkpoint in which everything goes well ends with its metadata: it is
/// written to `metadata.json`, names the sandbox and its agent, and has an entry
/// for every container, in order, with the lower directories that were found for
/// it; and when it is written, the checkpoint has succeeded.
pub proof fn law_checkpoint_succeeds<T>(
    sid: Seq<char>,
    output_path: Seq<char>,
    share_path: Seq<char>,
    agent_socket: Seq<char>,
    listed: Seq<ContainerView<T>>,
    table: Seq<char>,
)
    requires
        forall|k: int|
            0 <= k < listed.len() ==> rootfs_layers(
                (#[trigger] listed[k]).bundle,
                listed[k].rootfs_mounts,
                table,
            ) is Some,
    ensures
        ({
            let events = good_events(agent_socket, listed, table, listed.len() as int);
            let (state, action) = checkpoint_trace(sid, output_path, share_path, events);
            let written = events.push(CheckpointEventView::Done);
            &&& action == (CheckpointActionView::<T>::WriteMetadata {
                path: joined(output_path, "metadata.json"@),
                metadata: MetadataView {
                    version: 1,
                    sandbox_id: sid,
                    agent_socket,
                    containers: Seq::new(
                        listed.len(),
                        |k: int| entry_for(listed[k], table),
                    ),
                },
            })
            &&& checkpoint_trace(sid, output_path, share_path, written).1 is Succeed
        }),
{
    let n = listed.len() as int;
    let events = good_events(agent_socket, listed, table, n);
    let g = lemma_good_prefix(sid, output_path, share_path, agent_socket, listed, table, n);
    assert(events.push(CheckpointEventView::Done).drop_last() =~= events);
}

/// A checkpoint saves each container when its turn comes: at once if its mounts
/// name an upper directory, and else when the mount table was read. What is
/// copied is the upper directory that was found. A container without layers ends
/// the checkpoint, with its bundle in the report.
pub proof fn law_containers_are_saved_in_turn<T>(
    sid: Seq<char>,
    output_path: Seq<char>,
    share_path: Seq<char>,
    agent_socket: Seq<char>,
    listed: Seq<ContainerView<T>>,
    table: Seq<char>,
    n: int,
)
    requires
        0 <= n < listed.len(),
        forall|k: int|
            0 <= k < n ==> rootfs_layers(
                (#[trigger] listed[k]).bundle,
                listed[k].rootfs_mounts,
                table,
            ) is Some,
    ensures
        ({
            let events = good_events(agent_socket, listed, table, n);
            let asked = events.push(CheckpointEventView::MountTable(table));
            let container = listed[n];
            let declared = exists|m: int|
                0 <= m < container.rootfs_mounts.len() && names_upper(
                    #[trigger] container.rootfs_mounts[m],
                );
            let layers = rootfs_layers(container.bundle, container.rootfs_mounts, table);
            let action = if declared {
                checkpoint_trace(sid, output_path, share_path, events).1
            } else {
                checkpoint_trace(sid, output_path, share_path, asked).1
            };
            &&& !declared ==> checkpoint_trace(
                sid,
                output_path,
                share_path,
                events,
            ).1 is ReadMountTable
            &&& layers is None ==> action == (CheckpointActionView::<T>::FailOverlay {
                bundle: container.bundle,
            })
            &&& layers matches Some((lowers, upper)) ==> action == CheckpointActionView::<T>::Run(
                container_save_plan(output_path, container.id, upper),
            )
        }),
{
    let events = good_events(agent_socket, listed, table, n);
    let container = listed[n];
    law_layers_are_declared_with_an_upper(container.rootfs_mounts);
    let g = lemma_good_prefix(sid, output_path, share_path, agent_socket, listed, table, n);
    let asked = events.push(CheckpointEventView::MountTable(table));
    assert(asked.drop_last() =~= events);
}

/// A checkpoint first saves the VM to its directory, then copies the files that
/// are shared directly, then asks for the agent's socket and for the containers.
pub proof fn law_checkpoint_begins_with_the_vm<T>(
    sid: Seq<char>,
    output_path: Seq<char>,
    share_path: Seq<char>,
    agent_socket: Seq<char>,
)
    ensures
        ({
            let done = CheckpointEventView::<T>::Done;
            let socket = CheckpointEventView::<T>::Socket(agent_socket);
            let first = checkpoint_trace::<T>(sid, output_path, share_path, Seq::empty()).1;
            let second = checkpoint_trace(sid, output_path, share_path, seq![done]).1;
            let third = checkpoint_trace(sid, output_path, share_path, seq![done, done]).1;
            let fourth = checkpoint_trace(sid, output_path, share_path, seq![done, done, socket]).1;
            &&& first == (CheckpointActionView::<T>::SaveVm { dir: output_path })
            &&& second matches CheckpointActionView::Run(plan) && plan.len() == 1 && plan[0].step
                == (Step::CopyPassthrough {
                from: joined(share_path, "passthrough"@),
                to: joined(output_path, "share-passthrough"@),
            })
            &&& third is GetAgentSocket
            &&& fourth is ListContainers
        }),
{
    let done = CheckpointEventView::<T>::Done;
    let socket = CheckpointEventView::<T>::Socket(agent_socket);
    let e0 = Seq::<CheckpointEventView<T>>::empty();
    let e1 = seq![done];
    let e2 = seq![done, done];
    let e3 = seq![done, done, socket];
    assert(e1.drop_last() =~= e0);
    assert(e2.drop_last() =~= e1);
    assert(e3.drop_last() =~= e2);
    assert(checkpoint_trace(sid, output_path, share_path, e0).0 is SavingVm);
    assert(checkpoint_trace(sid, output_path, share_path, e1).0 is CopyingPassthrough);
    assert(checkpoint_trace(sid, output_path, share_path, e2).0 is GettingSocket);
}

/// An action that fails ends the checkpoint at once, and the failure is reported.
pub proof fn law_failure_ends_a_checkpoint<T>(sid: Seq<char>, state: CheckpointStateView<T>)
    requires
        !(state is Ended),
    ensures
        checkpoint_step(sid, state, CheckpointEventView::Failed) == (
            CheckpointStateView::<T>::Ended,
            CheckpointActionView::<T>::Fail,
        ),
{
}

/// To pause a VM, the agent is disconnected, the guest gets a quarter of a second
/// to see it, and then the VM is paused. Where the agent cannot be disconnected,
/// nothing more is done. Where the VM cannot be paused, the agent is connected
/// again, and both failures are reported.
pub proof fn law_pausing_goes_step_by_step(
    start: Option<Seq<char>>,
    slept: Option<Seq<char>>,
    failure: Seq<char>,
    reconnect: Seq<char>,
)
    ensures
        ({
            let (s1, a1) = pause_step(PauseState::Start, start);
            let (s2, a2) = pause_step(s1, None);
            let (s3, a3) = pause_step(s2, slept);
            let (s4, a4) = pause_step(s3, None);
            let (s5, a5) = pause_step(s3, Some(failure));
            &&& a1 is DisconnectAgent
            &&& a2 == (PauseAction::<Seq<char>>::Sleep { ms: 250 })
            &&& a3 is PauseVm
            &&& a4 is Succeed
            &&& a5 is ReconnectAgent
            &&& pause_step(s1, Some(failure)).1 == PauseAction::Fail(
                PauseError::Disconnect { failure },
            )
            &&& pause_step(s5, None).1 == PauseAction::Fail(PauseError::Pause { failure })
            &&& pause_step(s5, Some(reconnect)).1 == PauseAction::Fail(
                PauseError::PauseAndReconnect { failure, reconnect },
            )
            &&& pause_step(pause_step(s1, Some(failure)).0, start).1 is Nothing
            &&& pause_step(s4, start).1 is Nothing
            &&& pause_step(pause_step(s5, None).0, start).1 is Nothing
            &&& pause_step(pause_step(s5, Some(reconnect)).0, start).1 is Nothing
        }),
{
}

/// A failed pause is reported from its cause outwards, and the failure to connect
/// the agent again is told with it.
pub proof fn law_pause_errors_tell_their_causes(failure: Seq<char>, reconnect: Seq<char>)
    ensures
        pause_error_chain(PauseError::Disconnect { failure }) == seq![
            failure,
            "disconnect agent before checkpoint"@,
        ],
        pause_error_chain(PauseError::Pause { failure }) == seq![failure, "pause VM"@],
        pause_error_chain(PauseError::PauseAndReconnect { failure, reconnect }) == seq![
            failure,
            "pause VM"@,
            "failed to reconnect agent after pause error: "@ + reconnect,
        ],
{
}

/// To resume a VM, it is resumed and then the agent is connected again; it counts
/// as resumed when both succeeded. Where resuming fails, the agent is left alone.
pub proof fn law_resuming_goes_step_by_step(any: bool)
    ensures
        ({
            let (s1, a1) = resume_step(ResumeState::Start, any);
            let (s2, a2) = resume_step(s1, true);
            let (s3, a3) = resume_step(s2, true);
            &&& a1 is ResumeVm
            &&& a2 is ReconnectAgent
            &&& a3 is Succeed
            &&& resume_step(s1, false).1 is FailResume
            &&& resume_step(s2, false).1 is FailReconnect
            &&& resume_step(s3, any).1 is Nothing
            &&& resume_step(resume_step(s1, false).0, any).1 is Nothing
            &&& resume_step(resume_step(s2, false).0, any).1 is Nothing
        }),
{
}

} // verus!
