//! What holds of a checkpoint as a whole, from its first action to its last.

use vstd::prelude::*;

use crate::checkpoint_run::{
    checkpoint_start, checkpoint_step, gathered_well, kept_of, metadata_of, next_container,
    passthrough_plan, save_container, save_plan_of, CheckpointActionView, CheckpointEventView,
    CheckpointStateView, ContainerView, EntryView, GatheringView, MetadataView,
};
use crate::overlay::declared_layers;
use crate::unix_path::joined;

verus! {

/// Where a checkpoint stands after the given events, and what is then to be done.
pub open spec fn checkpoint_trace<T>(
    sid: Seq<char>,
    output_path: Seq<char>,
    share_path: Seq<char>,
    events: Seq<CheckpointEventView<T>>,
) -> (CheckpointStateView<T>, CheckpointActionView<T>)
    decreases events.len(),
{
    if events.len() == 0 {
        checkpoint_start(output_path, share_path)
    } else {
        checkpoint_step(
            sid,
            checkpoint_trace(sid, output_path, share_path, events.drop_last()).0,
            events.last(),
        )
    }
}

/// What is done after the first `i` events.
pub open spec fn action_at<T>(
    sid: Seq<char>,
    output_path: Seq<char>,
    share_path: Seq<char>,
    events: Seq<CheckpointEventView<T>>,
    i: int,
) -> CheckpointActionView<T> {
    checkpoint_trace(sid, output_path, share_path, events.take(i)).1
}

/// Whether a container was saved: the plan that saves it was carried out.
pub open spec fn was_saved<T>(
    sid: Seq<char>,
    output_path: Seq<char>,
    share_path: Seq<char>,
    events: Seq<CheckpointEventView<T>>,
    container: ContainerView<T>,
    table: Seq<char>,
) -> bool {
    exists|i: int|
        0 <= i < events.len() && events[i] is Done && #[trigger] action_at(
            sid,
            output_path,
            share_path,
            events,
            i,
        ) == CheckpointActionView::<T>::Run(save_plan_of(output_path, container, table))
}

/// What was gathered in a state.
spec fn gathered<T>(state: CheckpointStateView<T>) -> Option<GatheringView<T>> {
    match state {
        CheckpointStateView::ReadingTable(g) => Some(g),
        CheckpointStateView::SavingContainer(g, entry) => Some(g),
        CheckpointStateView::WritingMetadata(g) => Some(g),
        _ => None,
    }
}

/// Whether the first events are what a checkpoint needs before it comes to its
/// containers.
spec fn prepared<T>(
    events: Seq<CheckpointEventView<T>>,
    agent_socket: Seq<char>,
    listed: Seq<ContainerView<T>>,
) -> bool {
    &&& events.len() >= 4
    &&& events[0] is Done
    &&& events[1] is Done
    &&& events[2] == CheckpointEventView::<T>::Socket(agent_socket)
    &&& events[3] == CheckpointEventView::<T>::Containers(listed)
}

/// What holds of a checkpoint after any events.
spec fn trace_inv<T>(
    sid: Seq<char>,
    output_path: Seq<char>,
    share_path: Seq<char>,
    events: Seq<CheckpointEventView<T>>,
) -> bool {
    let n = events.len();
    let (state, action) = checkpoint_trace(sid, output_path, share_path, events);
    &&& !(state is Ended) ==> forall|i: int| 0 <= i < n ==> !((#[trigger] events[i]) is Failed)
    &&& !(state is Ended) ==> forall|i: int|
        0 <= i < n ==> !((#[trigger] action_at(
            sid,
            output_path,
            share_path,
            events,
            i,
        )) is WriteMetadata)
    &&& action is WriteMetadata <==> state is WritingMetadata
    &&& match state {
        CheckpointStateView::SavingVm { output_path: o, share_path: s } => n == 0 && o
            == output_path && s == share_path,
        CheckpointStateView::CopyingPassthrough { output_path: o } => n == 1 && o == output_path
            && events[0] is Done,
        CheckpointStateView::GettingSocket { output_path: o } => n == 2 && o == output_path
            && events[0] is Done && events[1] is Done,
        CheckpointStateView::Listing { output_path: o, agent_socket } => n == 3 && o == output_path
            && events[0] is Done && events[1] is Done && events[2] == CheckpointEventView::<
            T,
        >::Socket(agent_socket),
        _ => true,
    }
    &&& gathered(state) matches Some(g) ==> {
        &&& prepared(events, g.agent_socket, g.listed)
        &&& g.output_path == output_path
        &&& gathered_well(g)
        &&& forall|k: int|
            0 <= k < g.entries.len() ==> #[trigger] was_saved(
                sid,
                output_path,
                share_path,
                events,
                g.listed[k],
                g.tables[k],
            )
    }
    &&& state matches CheckpointStateView::ReadingTable(g) ==> g.entries.len() < g.listed.len()
        && g.tables.len() == g.entries.len()
    &&& state matches CheckpointStateView::SavingContainer(g, entry) ==> {
        let m = g.entries.len() as int;
        &&& m < g.listed.len()
        &&& g.tables.len() == m + 1
        &&& kept_of(g.listed[m], g.tables[m]) == Some(entry)
        &&& action == CheckpointActionView::<T>::Run(
            save_plan_of(output_path, g.listed[m], g.tables[m]),
        )
    }
    &&& state matches CheckpointStateView::WritingMetadata(g) ==> {
        &&& g.entries.len() == g.listed.len()
        &&& action == CheckpointActionView::<T>::WriteMetadata {
            path: joined(output_path, "metadata.json"@),
            metadata: metadata_of(sid, g),
        }
    }
}

/// What was done before does not depend on what happens next.
proof fn lemma_actions_before<T>(
    sid: Seq<char>,
    output_path: Seq<char>,
    share_path: Seq<char>,
    events: Seq<CheckpointEventView<T>>,
    i: int,
)
    requires
        events.len() > 0,
        0 <= i < events.len(),
    ensures
        action_at(sid, output_path, share_path, events, i) == action_at(
            sid,
            output_path,
            share_path,
            events.drop_last(),
            i,
        ),
{
    assert(events.take(i) =~= events.drop_last().take(i));
}

/// A container that was saved stays saved.
proof fn lemma_stays_saved<T>(
    sid: Seq<char>,
    output_path: Seq<char>,
    share_path: Seq<char>,
    events: Seq<CheckpointEventView<T>>,
    container: ContainerView<T>,
    table: Seq<char>,
)
    requires
        events.len() > 0,
        was_saved(sid, output_path, share_path, events.drop_last(), container, table),
    ensures
        was_saved(sid, output_path, share_path, events, container, table),
{
    let before = events.drop_last();
    let i = choose|i: int|
        0 <= i < before.len() && before[i] is Done && #[trigger] action_at(
            sid,
            output_path,
            share_path,
            before,
            i,
        ) == CheckpointActionView::<T>::Run(save_plan_of(output_path, container, table));
    lemma_actions_before(sid, output_path, share_path, events, i);
    assert(events[i] == before[i]);
}

/// The invariant holds after any events.
proof fn lemma_trace_inv<T>(
    sid: Seq<char>,
    output_path: Seq<char>,
    share_path: Seq<char>,
    events: Seq<CheckpointEventView<T>>,
)
    ensures
        trace_inv(sid, output_path, share_path, events),
    decreases events.len(),
{
    if events.len() > 0 {
        let before = events.drop_last();
        let n = events.len() as int;
        let event = events.last();
        lemma_trace_inv(sid, output_path, share_path, before);
        let (prior, prior_action) = checkpoint_trace(sid, output_path, share_path, before);
        let (state, action) = checkpoint_trace(sid, output_path, share_path, events);
        assert(events.take(n - 1) =~= before);
        assert(action_at(sid, output_path, share_path, events, n - 1) == prior_action);
        assert forall|i: int| 0 <= i < n - 1 implies #[trigger] events[i] == before[i] by {}
        assert forall|i: int| 0 <= i < n && !(state is Ended) implies !((
        #[trigger] action_at(sid, output_path, share_path, events, i)) is WriteMetadata) by {
            if i < n - 1 {
                lemma_actions_before(sid, output_path, share_path, events, i);
            }
        }
        assert forall|i: int| 0 <= i < n && !(state is Ended) implies !((
        #[trigger] events[i]) is Failed) by {
            if i < n - 1 {
                assert(!(before[i] is Failed));
            }
        }
        if let Some(g) = gathered(prior) {
            assert forall|k: int| 0 <= k < g.entries.len() implies #[trigger] was_saved(
                sid,
                output_path,
                share_path,
                events,
                g.listed[k],
                g.tables[k],
            ) by {
                assert(was_saved(
                    sid,
                    output_path,
                    share_path,
                    before,
                    g.listed[k],
                    g.tables[k],
                ));
                lemma_stays_saved(
                    sid,
                    output_path,
                    share_path,
                    events,
                    g.listed[k],
                    g.tables[k],
                );
            }
        }
        match (prior, event) {
            (CheckpointStateView::SavingContainer(g, entry), CheckpointEventView::Done) => {
                let m = g.entries.len() as int;
                let grown = GatheringView { entries: g.entries.push(entry), ..g };
                assert(was_saved(
                    sid,
                    output_path,
                    share_path,
                    events,
                    g.listed[m],
                    g.tables[m],
                )) by {
                    assert(events[n - 1] is Done);
                    assert(action_at(sid, output_path, share_path, events, n - 1)
                        == CheckpointActionView::<T>::Run(
                        save_plan_of(output_path, g.listed[m], g.tables[m]),
                    ));
                }
                assert forall|k: int| 0 <= k < grown.entries.len() implies kept_of(
                    grown.listed[k],
                    grown.tables[k],
                ) == Some(#[trigger] grown.entries[k]) by {
                    if k < m {
                        assert(grown.entries[k] == g.entries[k]);
                    }
                }
                lemma_next_container(sid, output_path, share_path, events, grown);
            },
            (
                CheckpointStateView::Listing { output_path: o, agent_socket },
                CheckpointEventView::Containers(listed),
            ) => {
                let start = GatheringView {
                    output_path: o,
                    agent_socket,
                    entries: Seq::<EntryView<T>>::empty(),
                    listed,
                    tables: Seq::empty(),
                };
                lemma_next_container(sid, output_path, share_path, events, start);
            },
            (CheckpointStateView::ReadingTable(g), CheckpointEventView::MountTable(table)) => {
                lemma_save_container(sid, output_path, share_path, events, g, table);
            },
            _ => {},
        }
    }
}

/// Whether what was gathered is in place, for the step to the next container.
spec fn in_place<T>(
    sid: Seq<char>,
    output_path: Seq<char>,
    share_path: Seq<char>,
    events: Seq<CheckpointEventView<T>>,
    g: GatheringView<T>,
) -> bool {
    &&& prepared(events, g.agent_socket, g.listed)
    &&& g.output_path == output_path
    &&& gathered_well(g)
    &&& g.tables.len() == g.entries.len()
    &&& forall|k: int|
        0 <= k < g.entries.len() ==> #[trigger] was_saved(
            sid,
            output_path,
            share_path,
            events,
            g.listed[k],
            g.tables[k],
        )
    &&& forall|i: int| 0 <= i < events.len() ==> !((#[trigger] events[i]) is Failed)
    &&& forall|i: int|
        0 <= i < events.len() ==> !((#[trigger] action_at(
            sid,
            output_path,
            share_path,
            events,
            i,
        )) is WriteMetadata)
}

/// Saving a container keeps the invariant.
proof fn lemma_save_container<T>(
    sid: Seq<char>,
    output_path: Seq<char>,
    share_path: Seq<char>,
    events: Seq<CheckpointEventView<T>>,
    g: GatheringView<T>,
    table: Seq<char>,
)
    requires
        checkpoint_trace(sid, output_path, share_path, events) == save_container(g, table),
        !(save_container(g, table).0 is Ended) ==> in_place(
            sid,
            output_path,
            share_path,
            events,
            g,
        ),
        g.entries.len() < g.listed.len(),
    ensures
        trace_inv(sid, output_path, share_path, events),
{
    if let CheckpointStateView::SavingContainer(next, entry) = save_container(g, table).0 {
        assert forall|k: int| 0 <= k < next.entries.len() implies kept_of(
            next.listed[k],
            next.tables[k],
        ) == Some(#[trigger] next.entries[k]) by {
            assert(g.entries[k] == next.entries[k]);
            assert(g.tables[k] == next.tables[k]);
        }
        assert forall|k: int| 0 <= k < next.entries.len() implies #[trigger] was_saved(
            sid,
            output_path,
            share_path,
            events,
            next.listed[k],
            next.tables[k],
        ) by {
            assert(was_saved(sid, output_path, share_path, events, g.listed[k], g.tables[k]));
        }
    }
}

/// Going on to the next container keeps the invariant.
proof fn lemma_next_container<T>(
    sid: Seq<char>,
    output_path: Seq<char>,
    share_path: Seq<char>,
    events: Seq<CheckpointEventView<T>>,
    g: GatheringView<T>,
)
    requires
        checkpoint_trace(sid, output_path, share_path, events) == next_container(sid, g),
        !(next_container(sid, g).0 is Ended) ==> in_place(
            sid,
            output_path,
            share_path,
            events,
            g,
        ),
        g.entries.len() <= g.listed.len(),
    ensures
        trace_inv(sid, output_path, share_path, events),
{
    if g.entries.len() < g.listed.len() && declared_layers(
        g.listed[g.entries.len() as int].rootfs_mounts,
        0,
    ) is Some {
        lemma_save_container(sid, output_path, share_path, events, g, Seq::empty());
    }
}

/// The VM is saved first, and only then.
pub proof fn law_vm_is_saved_first<T>(
    sid: Seq<char>,
    output_path: Seq<char>,
    share_path: Seq<char>,
    events: Seq<CheckpointEventView<T>>,
)
    ensures
        checkpoint_trace(sid, output_path, share_path, events).1 is SaveVm <==> events.len() == 0,
        events.len() == 0 ==> checkpoint_trace(sid, output_path, share_path, events).1
            == (CheckpointActionView::<T>::SaveVm { dir: output_path }),
{
}

/// The metadata is written once, to its file in the checkpoint, and only after
/// all else was done: the VM saved, the shared files copied, the agent's socket
/// and the containers known, and every container saved. It holds one entry for
/// each container, in order, which is what is kept of that container.
pub proof fn law_metadata_comes_last<T>(
    sid: Seq<char>,
    output_path: Seq<char>,
    share_path: Seq<char>,
    events: Seq<CheckpointEventView<T>>,
    path: Seq<char>,
    metadata: MetadataView<T>,
)
    requires
        checkpoint_trace(sid, output_path, share_path, events).1 == (
        CheckpointActionView::<T>::WriteMetadata { path, metadata }),
    ensures
        path == joined(output_path, "metadata.json"@),
        metadata.version == 1,
        metadata.sandbox_id == sid,
        events.len() >= 4,
        action_at(sid, output_path, share_path, events, 0) == (CheckpointActionView::<T>::SaveVm {
            dir: output_path,
        }),
        events[0] is Done,
        action_at(sid, output_path, share_path, events, 1) == CheckpointActionView::<T>::Run(
            passthrough_plan(output_path, share_path),
        ),
        events[1] is Done,
        action_at(sid, output_path, share_path, events, 2) is GetAgentSocket,
        events[2] == CheckpointEventView::<T>::Socket(metadata.agent_socket),
        action_at(sid, output_path, share_path, events, 3) is ListContainers,
        events[3] matches CheckpointEventView::Containers(listed) && {
            &&& metadata.containers.len() == listed.len()
            &&& forall|k: int|
                0 <= k < listed.len() ==> {
                    let entry = #[trigger] metadata.containers[k];
                    &&& entry.old_id == listed[k].id
                    &&& entry.bundle == listed[k].bundle
                    &&& entry.rootfs_mounts == listed[k].rootfs_mounts
                    &&& entry.spec == listed[k].spec
                    &&& exists|table: Seq<char>|
                        kept_of(listed[k], table) == Some(entry) && #[trigger] was_saved(
                            sid,
                            output_path,
                            share_path,
                            events,
                            listed[k],
                            table,
                        )
                }
        },
        forall|i: int| 0 <= i < events.len() ==> !((#[trigger] events[i]) is Failed),
        forall|i: int|
            0 <= i < events.len() ==> !((#[trigger] action_at(
                sid,
                output_path,
                share_path,
                events,
                i,
            )) is WriteMetadata),
{
    lemma_trace_inv(sid, output_path, share_path, events);
    let g = gathered(checkpoint_trace(sid, output_path, share_path, events).0)->0;
    lemma_first_actions(sid, output_path, share_path, events, g.agent_socket, g.listed);
    assert forall|k: int| 0 <= k < g.listed.len() implies {
        let entry = #[trigger] metadata.containers[k];
        &&& entry.old_id == g.listed[k].id
        &&& entry.bundle == g.listed[k].bundle
        &&& entry.rootfs_mounts == g.listed[k].rootfs_mounts
        &&& entry.spec == g.listed[k].spec
        &&& exists|table: Seq<char>|
            kept_of(g.listed[k], table) == Some(entry) && #[trigger] was_saved(
                sid,
                output_path,
                share_path,
                events,
                g.listed[k],
                table,
            )
    } by {
        assert(metadata.containers[k] == g.entries[k]);
        assert(kept_of(g.listed[k], g.tables[k]) == Some(g.entries[k]));
        assert(was_saved(sid, output_path, share_path, events, g.listed[k], g.tables[k]));
    }
}

/// The first four actions, when the events are those that lead to containers.
proof fn lemma_first_actions<T>(
    sid: Seq<char>,
    output_path: Seq<char>,
    share_path: Seq<char>,
    events: Seq<CheckpointEventView<T>>,
    agent_socket: Seq<char>,
    listed: Seq<ContainerView<T>>,
)
    requires
        prepared(events, agent_socket, listed),
    ensures
        action_at(sid, output_path, share_path, events, 0) == (CheckpointActionView::<T>::SaveVm {
            dir: output_path,
        }),
        action_at(sid, output_path, share_path, events, 1) == CheckpointActionView::<T>::Run(
            passthrough_plan(output_path, share_path),
        ),
        action_at(sid, output_path, share_path, events, 2) is GetAgentSocket,
        action_at(sid, output_path, share_path, events, 3) is ListContainers,
{
    let e0 = events.take(0);
    let e1 = events.take(1);
    let e2 = events.take(2);
    let e3 = events.take(3);
    assert(e1.drop_last() =~= e0);
    assert(e2.drop_last() =~= e1);
    assert(e3.drop_last() =~= e2);
    assert(e1.last() == events[0]);
    assert(e2.last() == events[1]);
    assert(e3.last() == events[2]);
    assert(checkpoint_trace(sid, output_path, share_path, e0) == checkpoint_start::<T>(
        output_path,
        share_path,
    ));
    assert(checkpoint_trace(sid, output_path, share_path, e1).0 == (
    CheckpointStateView::<T>::CopyingPassthrough { output_path }));
    assert(checkpoint_trace(sid, output_path, share_path, e2).0 == (
    CheckpointStateView::<T>::GettingSocket { output_path }));
}

/// Where any action failed, or the layers of a container were not found, there
/// is no metadata: it is not written, and the checkpoint does not succeed.
pub proof fn law_no_metadata_after_a_failure<T>(
    sid: Seq<char>,
    output_path: Seq<char>,
    share_path: Seq<char>,
    events: Seq<CheckpointEventView<T>>,
    i: int,
)
    requires
        0 <= i < events.len(),
        events[i] is Failed || action_at(sid, output_path, share_path, events, i) is FailOverlay,
    ensures
        !(checkpoint_trace(sid, output_path, share_path, events).1 is WriteMetadata),
        !(checkpoint_trace(sid, output_path, share_path, events).1 is Succeed),
{
    let before = events.drop_last();
    let n = events.len() as int;
    lemma_trace_inv(sid, output_path, share_path, before);
    let prior = checkpoint_trace(sid, output_path, share_path, before);
    if i == n - 1 {
        assert(events.take(i) =~= before);
        assert(action_at(sid, output_path, share_path, events, i) == prior.1);
    } else {
        lemma_actions_before(sid, output_path, share_path, events, i);
        assert(before[i] == events[i]);
        lemma_ended_after_failure(sid, output_path, share_path, before, i);
    }
}

/// A checkpoint that met a failure has ended.
proof fn lemma_ended_after_failure<T>(
    sid: Seq<char>,
    output_path: Seq<char>,
    share_path: Seq<char>,
    events: Seq<CheckpointEventView<T>>,
    i: int,
)
    requires
        0 <= i < events.len(),
        events[i] is Failed || action_at(sid, output_path, share_path, events, i) is FailOverlay,
    ensures
        checkpoint_trace(sid, output_path, share_path, events).0 is Ended,
    decreases events.len(),
{
    let before = events.drop_last();
    let n = events.len() as int;
    if i < n - 1 {
        lemma_actions_before(sid, output_path, share_path, events, i);
        assert(before[i] == events[i]);
        lemma_ended_after_failure(sid, output_path, share_path, before, i);
    } else {
        assert(events.take(i) =~= before);
        lemma_fail_ends(sid, output_path, share_path, before);
    }
}

/// A container without layers ends the checkpoint.
proof fn lemma_fail_ends<T>(
    sid: Seq<char>,
    output_path: Seq<char>,
    share_path: Seq<char>,
    events: Seq<CheckpointEventView<T>>,
)
    ensures
        checkpoint_trace(sid, output_path, share_path, events).1 is FailOverlay
            ==> checkpoint_trace(sid, output_path, share_path, events).0 is Ended,
{
}

/// A checkpoint succeeds only when its metadata was written.
pub proof fn law_success_means_metadata<T>(
    sid: Seq<char>,
    output_path: Seq<char>,
    share_path: Seq<char>,
    events: Seq<CheckpointEventView<T>>,
)
    requires
        checkpoint_trace(sid, output_path, share_path, events).1 is Succeed,
    ensures
        events.len() > 0,
        events.last() is Done,
        checkpoint_trace(sid, output_path, share_path, events.drop_last()).1 is WriteMetadata,
{
    lemma_trace_inv(sid, output_path, share_path, events.drop_last());
}

/// How far a checkpoint is from its end: the phases that are left, and what is
/// left to do for its containers.
pub open spec fn left_to_do<T>(state: CheckpointStateView<T>) -> (int, int) {
    match state {
        CheckpointStateView::SavingVm { output_path, share_path } => (5, 0),
        CheckpointStateView::CopyingPassthrough { output_path } => (4, 0),
        CheckpointStateView::GettingSocket { output_path } => (3, 0),
        CheckpointStateView::Listing { output_path, agent_socket } => (2, 0),
        CheckpointStateView::ReadingTable(g) => (1, 2 * waiting(g) + 1),
        CheckpointStateView::SavingContainer(g, entry) => (1, 2 * waiting(g)),
        CheckpointStateView::WritingMetadata(g) => (0, 1),
        CheckpointStateView::Ended => (0, 0),
    }
}

/// How many containers have no entry yet.
pub open spec fn waiting<T>(g: GatheringView<T>) -> int {
    if g.entries.len() < g.listed.len() {
        g.listed.len() - g.entries.len()
    } else {
        0
    }
}

/// Every checkpoint ends: whatever comes of an action, less is left to do
/// afterwards, or the checkpoint has ended and nothing is done.
pub proof fn law_every_checkpoint_ends<T>(
    sid: Seq<char>,
    state: CheckpointStateView<T>,
    event: CheckpointEventView<T>,
)
    ensures
        ({
            let (next, action) = checkpoint_step(sid, state, event);
            let (phases, steps) = left_to_do(state);
            let (next_phases, next_steps) = left_to_do(next);
            &&& next_phases >= 0 && next_steps >= 0
            &&& state is Ended ==> next is Ended && action is Nothing
            &&& !(state is Ended) ==> next_phases < phases || (next_phases == phases && next_steps
                < steps)
        }),
{
}

} // verus!
