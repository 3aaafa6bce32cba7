//! Taking a checkpoint of a sandbox, step by step.
//!
//! The VM is saved first. The metadata is written last, when all that it speaks
//! of is in place. After each action the caller reports what came of it, and is
//! told what to do next.

use vstd::prelude::*;

use crate::checkpoint::{
    container_save_plan, CheckpointContainerMetadata, CheckpointMetadata, CheckpointSandboxRequest,
    VirtCheckpointRestore, VirtSandbox,
};
use crate::overlay::{declared_layers, declared_overlay, rootfs_layers, Mount, OverlayNotFound};
use crate::plan::{plan_view, push_under, under, PlannedStep, PlannedView, Step};
use crate::text::{concat2, opt_text, texts};
use crate::unix_path::{joined, path_join};

verus! {

/// A container of a sandbox, as far as a checkpoint needs it.
#[derive(Debug)]
pub struct SandboxContainer<T> {
    pub id: String,
    pub bundle: String,
    pub rootfs_mounts: Vec<Mount>,
    pub spec: T,
}

/// What a container means.
pub struct ContainerView<T> {
    pub id: Seq<char>,
    pub bundle: Seq<char>,
    pub rootfs_mounts: Seq<Mount>,
    pub spec: T,
}

impl<T> View for SandboxContainer<T> {
    type V = ContainerView<T>;

    open spec fn view(&self) -> ContainerView<T> {
        ContainerView {
            id: self.id@,
            bundle: self.bundle@,
            rootfs_mounts: self.rootfs_mounts@,
            spec: self.spec,
        }
    }
}

/// What containers mean.
pub open spec fn container_views<T>(containers: Seq<SandboxContainer<T>>) -> Seq<
    ContainerView<T>,
> {
    containers.map_values(|c: SandboxContainer<T>| c@)
}

/// What an entry of the metadata means.
pub struct EntryView<T> {
    pub old_id: Seq<char>,
    pub bundle: Seq<char>,
    pub rootfs_mounts: Seq<Mount>,
    pub lower_dirs: Seq<Seq<char>>,
    pub spec: T,
}

impl<T> View for CheckpointContainerMetadata<T> {
    type V = EntryView<T>;

    open spec fn view(&self) -> EntryView<T> {
        EntryView {
            old_id: self.old_id@,
            bundle: self.bundle@,
            rootfs_mounts: self.rootfs_mounts@,
            lower_dirs: texts(self.lower_dirs@),
            spec: self.spec,
        }
    }
}

/// What entries of the metadata mean.
pub open spec fn entry_views<T>(entries: Seq<CheckpointContainerMetadata<T>>) -> Seq<
    EntryView<T>,
> {
    entries.map_values(|e: CheckpointContainerMetadata<T>| e@)
}

/// What the metadata of a checkpoint means.
pub struct MetadataView<T> {
    pub version: u32,
    pub sandbox_id: Seq<char>,
    pub agent_socket: Seq<char>,
    pub containers: Seq<EntryView<T>>,
}

impl<T> View for CheckpointMetadata<T> {
    type V = MetadataView<T>;

    open spec fn view(&self) -> MetadataView<T> {
        MetadataView {
            version: self.version,
            sandbox_id: self.sandbox_id@,
            agent_socket: self.agent_socket@,
            containers: entry_views(self.containers@),
        }
    }
}

/// What the metadata keeps of a container, given the mount table: nothing where
/// its layers are not found.
pub open spec fn kept_of<T>(container: ContainerView<T>, table: Seq<char>) -> Option<
    EntryView<T>,
> {
    match rootfs_layers(container.bundle, container.rootfs_mounts, table) {
        Some((lowers, upper)) => Some(
            EntryView {
                old_id: container.id,
                bundle: container.bundle,
                rootfs_mounts: container.rootfs_mounts,
                lower_dirs: lowers,
                spec: container.spec,
            },
        ),
        None => None,
    }
}

/// What saves a container, given the mount table.
pub open spec fn save_plan_of<T>(
    output_path: Seq<char>,
    container: ContainerView<T>,
    table: Seq<char>,
) -> Seq<PlannedView> {
    match rootfs_layers(container.bundle, container.rootfs_mounts, table) {
        Some((lowers, upper)) => container_save_plan(output_path, container.id, upper),
        None => Seq::empty(),
    }
}

/// What a checkpoint has gathered when its containers are known.
pub struct Gathering<T> {
    pub output_path: String,
    pub agent_socket: String,
    /// What the metadata keeps of the containers that are saved.
    pub entries: Vec<CheckpointContainerMetadata<T>>,
    /// The containers that no plan was made for yet.
    pub waiting: Vec<SandboxContainer<T>>,
    /// All containers.
    pub listed: Ghost<Seq<ContainerView<T>>>,
    /// The mount table that was looked at for each container.
    pub tables: Ghost<Seq<Seq<char>>>,
}

/// What a gathering means.
pub struct GatheringView<T> {
    pub output_path: Seq<char>,
    pub agent_socket: Seq<char>,
    pub entries: Seq<EntryView<T>>,
    pub listed: Seq<ContainerView<T>>,
    pub tables: Seq<Seq<char>>,
}

impl<T> View for Gathering<T> {
    type V = GatheringView<T>;

    open spec fn view(&self) -> GatheringView<T> {
        GatheringView {
            output_path: self.output_path@,
            agent_socket: self.agent_socket@,
            entries: entry_views(self.entries@),
            listed: self.listed@,
            tables: self.tables@,
        }
    }
}

/// Whether the entries gathered so far are what is kept of the first containers,
/// one for each.
pub open spec fn gathered_well<T>(g: GatheringView<T>) -> bool {
    &&& g.entries.len() <= g.listed.len()
    &&& g.entries.len() <= g.tables.len()
    &&& forall|k: int|
        0 <= k < g.entries.len() ==> kept_of(g.listed[k], g.tables[k]) == Some(
            #[trigger] g.entries[k],
        )
}

impl<T> Gathering<T> {
    /// What holds when plans were made for `planned` containers.
    pub open spec fn wf(&self, planned: int) -> bool {
        &&& gathered_well(self@)
        &&& self.tables@.len() == planned
        &&& 0 <= planned <= self.listed@.len()
        &&& container_views(self.waiting@) == self.listed@.skip(planned)
    }
}

/// How far a checkpoint has come: what the caller is doing.
pub enum CheckpointState<T> {
    /// Saving the VM.
    SavingVm { output_path: String, share_path: String },
    /// Copying the files that are shared directly.
    CopyingPassthrough { output_path: String },
    /// Asking for the socket of the agent.
    GettingSocket { output_path: String },
    /// Listing the containers.
    Listing { output_path: String, agent_socket: String },
    /// Reading the mount table for the next container.
    ReadingTable(Gathering<T>),
    /// Saving the next container, of which the given entry is kept.
    SavingContainer(Gathering<T>, CheckpointContainerMetadata<T>),
    /// Writing the metadata of what was gathered.
    WritingMetadata(Ghost<GatheringView<T>>),
    /// Nothing more.
    Ended,
}

/// What a state means.
pub enum CheckpointStateView<T> {
    SavingVm { output_path: Seq<char>, share_path: Seq<char> },
    CopyingPassthrough { output_path: Seq<char> },
    GettingSocket { output_path: Seq<char> },
    Listing { output_path: Seq<char>, agent_socket: Seq<char> },
    ReadingTable(GatheringView<T>),
    SavingContainer(GatheringView<T>, EntryView<T>),
    WritingMetadata(GatheringView<T>),
    Ended,
}

impl<T> View for CheckpointState<T> {
    type V = CheckpointStateView<T>;

    open spec fn view(&self) -> CheckpointStateView<T> {
        match self {
            CheckpointState::SavingVm { output_path, share_path } => {
                CheckpointStateView::SavingVm {
                    output_path: output_path@,
                    share_path: share_path@,
                }
            },
            CheckpointState::CopyingPassthrough { output_path } => {
                CheckpointStateView::CopyingPassthrough { output_path: output_path@ }
            },
            CheckpointState::GettingSocket { output_path } => {
                CheckpointStateView::GettingSocket { output_path: output_path@ }
            },
            CheckpointState::Listing { output_path, agent_socket } => {
                CheckpointStateView::Listing {
                    output_path: output_path@,
                    agent_socket: agent_socket@,
                }
            },
            CheckpointState::ReadingTable(g) => CheckpointStateView::ReadingTable(g@),
            CheckpointState::SavingContainer(g, entry) => {
                CheckpointStateView::SavingContainer(g@, entry@)
            },
            CheckpointState::WritingMetadata(g) => CheckpointStateView::WritingMetadata(g@),
            CheckpointState::Ended => CheckpointStateView::Ended,
        }
    }
}

impl<T> CheckpointState<T> {
    /// What holds in every state: each entry gathered is what is kept of the
    /// container at its place, and every container is either gathered, being
    /// saved or waiting.
    pub open spec fn wf(&self) -> bool {
        match self {
            CheckpointState::ReadingTable(g) => {
                let n = g.entries@.len() as int;
                g.wf(n) && n < g.listed@.len()
            },
            CheckpointState::SavingContainer(g, entry) => {
                let n = g.entries@.len() as int;
                g.wf(n + 1) && kept_of(g.listed@[n], g.tables@[n]) == Some(entry@)
            },
            CheckpointState::WritingMetadata(g) => gathered_well(g@) && g@.entries.len()
                == g@.listed.len(),
            _ => true,
        }
    }
}

/// What came of an action.
pub enum CheckpointEvent<T> {
    /// It is done.
    Done,
    /// It failed.
    Failed,
    /// The socket of the agent.
    Socket(String),
    /// The containers of the sandbox.
    Containers(Vec<SandboxContainer<T>>),
    /// The mount table.
    MountTable(String),
}

/// What an event means.
pub enum CheckpointEventView<T> {
    Done,
    Failed,
    Socket(Seq<char>),
    Containers(Seq<ContainerView<T>>),
    MountTable(Seq<char>),
}

impl<T> View for CheckpointEvent<T> {
    type V = CheckpointEventView<T>;

    open spec fn view(&self) -> CheckpointEventView<T> {
        match self {
            CheckpointEvent::Done => CheckpointEventView::Done,
            CheckpointEvent::Failed => CheckpointEventView::Failed,
            CheckpointEvent::Socket(s) => CheckpointEventView::Socket(s@),
            CheckpointEvent::Containers(list) => {
                CheckpointEventView::Containers(container_views(list@))
            },
            CheckpointEvent::MountTable(s) => CheckpointEventView::MountTable(s@),
        }
    }
}

/// What the caller is to do.
pub enum CheckpointAction<T> {
    /// Save the VM in a directory.
    SaveVm { dir: String },
    /// Carry out a plan.
    Run(Vec<PlannedStep>),
    /// Ask the hypervisor for the socket of the agent.
    GetAgentSocket,
    /// List the containers of the sandbox.
    ListContainers,
    /// Read the mount table.
    ReadMountTable,
    /// Write the metadata to a file.
    WriteMetadata { path: String, metadata: CheckpointMetadata<T> },
    /// The checkpoint is there.
    Succeed,
    /// Report the failure of the last action.
    Fail,
    /// Report that the layers of a container were not found.
    FailOverlay(OverlayNotFound),
    /// Nothing is left to do.
    Nothing,
}

/// What an action means.
pub enum CheckpointActionView<T> {
    SaveVm { dir: Seq<char> },
    Run(Seq<PlannedView>),
    GetAgentSocket,
    ListContainers,
    ReadMountTable,
    WriteMetadata { path: Seq<char>, metadata: MetadataView<T> },
    Succeed,
    Fail,
    FailOverlay { bundle: Seq<char> },
    Nothing,
}

impl<T> View for CheckpointAction<T> {
    type V = CheckpointActionView<T>;

    open spec fn view(&self) -> CheckpointActionView<T> {
        match self {
            CheckpointAction::SaveVm { dir } => CheckpointActionView::SaveVm { dir: dir@ },
            CheckpointAction::Run(plan) => CheckpointActionView::Run(plan_view(plan@)),
            CheckpointAction::GetAgentSocket => CheckpointActionView::GetAgentSocket,
            CheckpointAction::ListContainers => CheckpointActionView::ListContainers,
            CheckpointAction::ReadMountTable => CheckpointActionView::ReadMountTable,
            CheckpointAction::WriteMetadata { path, metadata } => {
                CheckpointActionView::WriteMetadata { path: path@, metadata: metadata@ }
            },
            CheckpointAction::Succeed => CheckpointActionView::Succeed,
            CheckpointAction::Fail => CheckpointActionView::Fail,
            CheckpointAction::FailOverlay(e) => CheckpointActionView::FailOverlay {
                bundle: e.bundle@,
            },
            CheckpointAction::Nothing => CheckpointActionView::Nothing,
        }
    }
}

impl<T> CheckpointAction<T> {
    /// The context of the action's failure, if it has one. The steps of a plan
    /// have their own.
    pub fn context(&self) -> (r: Option<String>)
        ensures
            opt_text(r) == (match self@ {
                CheckpointActionView::SaveVm { dir } => Some("save VM checkpoint"@),
                CheckpointActionView::GetAgentSocket => Some("get checkpoint agent socket"@),
                CheckpointActionView::ReadMountTable => Some(
                    "read shim mountinfo for overlay snapshot"@,
                ),
                CheckpointActionView::WriteMetadata { path, metadata } => Some("write "@ + path),
                _ => None,
            }),
    {
        match self {
            CheckpointAction::SaveVm { .. } => Some("save VM checkpoint".to_owned()),
            CheckpointAction::GetAgentSocket => Some("get checkpoint agent socket".to_owned()),
            CheckpointAction::ReadMountTable => Some(
                "read shim mountinfo for overlay snapshot".to_owned(),
            ),
            CheckpointAction::WriteMetadata { path, .. } => Some(
                concat2("write ", path.as_str()),
            ),
            _ => None,
        }
    }
}

/// The context of metadata that cannot be put into bytes.
pub fn serialize_context() -> (r: String)
    ensures
        r@ == "serialize checkpoint metadata"@,
{
    "serialize checkpoint metadata".to_owned()
}

/// How a checkpoint begins: the VM is saved.
pub open spec fn checkpoint_start<T>(output_path: Seq<char>, share_path: Seq<char>) -> (
    CheckpointStateView<T>,
    CheckpointActionView<T>,
) {
    (
        CheckpointStateView::SavingVm { output_path, share_path },
        CheckpointActionView::SaveVm { dir: output_path },
    )
}

/// Copying the files that a sandbox shares directly into a checkpoint.
pub open spec fn passthrough_plan(output_path: Seq<char>, share_path: Seq<char>) -> Seq<
    PlannedView,
> {
    seq![
        under(
            Step::CopyPassthrough {
                from: joined(share_path, "passthrough"@),
                to: joined(output_path, "share-passthrough"@),
            },
            "checkpoint virtio-fs passthrough files"@,
        ),
    ]
}

/// The metadata of what was gathered.
pub open spec fn metadata_of<T>(sid: Seq<char>, g: GatheringView<T>) -> MetadataView<T> {
    MetadataView {
        version: 1,
        sandbox_id: sid,
        agent_socket: g.agent_socket,
        containers: g.entries,
    }
}

/// What follows when the mount table for the next container is there: the
/// container is saved, if its layers are found.
pub open spec fn save_container<T>(g: GatheringView<T>, table: Seq<char>) -> (
    CheckpointStateView<T>,
    CheckpointActionView<T>,
) {
    let container = g.listed[g.entries.len() as int];
    match kept_of(container, table) {
        None => (
            CheckpointStateView::Ended,
            CheckpointActionView::FailOverlay { bundle: container.bundle },
        ),
        Some(entry) => (
            CheckpointStateView::SavingContainer(
                GatheringView { tables: g.tables.push(table), ..g },
                entry,
            ),
            CheckpointActionView::Run(save_plan_of(g.output_path, container, table)),
        ),
    }
}

/// What follows when a container is gathered: the next one, for which the mount
/// table is read only if its mounts name no upper directory; or the metadata, if
/// there is none.
pub open spec fn next_container<T>(sid: Seq<char>, g: GatheringView<T>) -> (
    CheckpointStateView<T>,
    CheckpointActionView<T>,
) {
    let n = g.entries.len() as int;
    if n >= g.listed.len() {
        (
            CheckpointStateView::WritingMetadata(g),
            CheckpointActionView::WriteMetadata {
                path: joined(g.output_path, "metadata.json"@),
                metadata: metadata_of(sid, g),
            },
        )
    } else if declared_layers(g.listed[n].rootfs_mounts, 0) is Some {
        save_container(g, Seq::empty())
    } else {
        (CheckpointStateView::ReadingTable(g), CheckpointActionView::ReadMountTable)
    }
}

/// What an event leads to: the next state, and what is to be done. A failure
/// ends the checkpoint.
pub open spec fn checkpoint_step<T>(
    sid: Seq<char>,
    state: CheckpointStateView<T>,
    event: CheckpointEventView<T>,
) -> (CheckpointStateView<T>, CheckpointActionView<T>) {
    match (state, event) {
        (
            CheckpointStateView::SavingVm { output_path, share_path },
            CheckpointEventView::Done,
        ) => (
            CheckpointStateView::CopyingPassthrough { output_path },
            CheckpointActionView::Run(passthrough_plan(output_path, share_path)),
        ),
        (
            CheckpointStateView::CopyingPassthrough { output_path },
            CheckpointEventView::Done,
        ) => (
            CheckpointStateView::GettingSocket { output_path },
            CheckpointActionView::GetAgentSocket,
        ),
        (
            CheckpointStateView::GettingSocket { output_path },
            CheckpointEventView::Socket(agent_socket),
        ) => (
            CheckpointStateView::Listing { output_path, agent_socket },
            CheckpointActionView::ListContainers,
        ),
        (
            CheckpointStateView::Listing { output_path, agent_socket },
            CheckpointEventView::Containers(listed),
        ) => next_container(
            sid,
            GatheringView {
                output_path,
                agent_socket,
                entries: Seq::empty(),
                listed,
                tables: Seq::empty(),
            },
        ),
        (
            CheckpointStateView::ReadingTable(g),
            CheckpointEventView::MountTable(table),
        ) => save_container(g, table),
        (
            CheckpointStateView::SavingContainer(g, entry),
            CheckpointEventView::Done,
        ) => next_container(sid, GatheringView { entries: g.entries.push(entry), ..g }),
        (CheckpointStateView::WritingMetadata(_), CheckpointEventView::Done) => (
            CheckpointStateView::Ended,
            CheckpointActionView::Succeed,
        ),
        (CheckpointStateView::Ended, _) => (
            CheckpointStateView::Ended,
            CheckpointActionView::Nothing,
        ),
        _ => (CheckpointStateView::Ended, CheckpointActionView::Fail),
    }
}

impl<M> VirtCheckpointRestore<VirtSandbox, M> {
    /// Begins a checkpoint; `share_path` is the directory that the sandbox shares
    /// with its guest.
    pub fn checkpoint_sandbox<T>(&self, req: &CheckpointSandboxRequest, share_path: &str) -> (r: (
        CheckpointState<T>,
        CheckpointAction<T>,
    ))
        ensures
            r.0.wf(),
            (r.0@, r.1@) == checkpoint_start::<T>(req.output_path@, share_path@),
    {
        (
            CheckpointState::SavingVm {
                output_path: req.output_path.clone(),
                share_path: share_path.to_owned(),
            },
            CheckpointAction::SaveVm { dir: req.output_path.clone() },
        )
    }

    /// Goes on with a checkpoint: says what the last action's outcome leads to.
    pub fn advance_checkpoint<T>(&self, state: CheckpointState<T>, event: CheckpointEvent<T>) -> (r:
        (CheckpointState<T>, CheckpointAction<T>))
        requires
            state.wf(),
        ensures
            r.0.wf(),
            (r.0@, r.1@) == checkpoint_step(self.sandbox.sid@, state@, event@),
    {
        match (state, event) {
            (CheckpointState::SavingVm { output_path, share_path }, CheckpointEvent::Done) => {
                let mut plan: Vec<PlannedStep> = Vec::new();
                push_under(
                    &mut plan,
                    Step::CopyPassthrough {
                        from: path_join(share_path.as_str(), "passthrough"),
                        to: path_join(output_path.as_str(), "share-passthrough"),
                    },
                    "checkpoint virtio-fs passthrough files".to_owned(),
                );
                assert(plan_view(plan@) =~= passthrough_plan(output_path@, share_path@));
                (CheckpointState::CopyingPassthrough { output_path }, CheckpointAction::Run(plan))
            },
            (CheckpointState::CopyingPassthrough { output_path }, CheckpointEvent::Done) => (
                CheckpointState::GettingSocket { output_path },
                CheckpointAction::GetAgentSocket,
            ),
            (
                CheckpointState::GettingSocket { output_path },
                CheckpointEvent::Socket(agent_socket),
            ) => (
                CheckpointState::Listing { output_path, agent_socket },
                CheckpointAction::ListContainers,
            ),
            (
                CheckpointState::Listing { output_path, agent_socket },
                CheckpointEvent::Containers(waiting),
            ) => {
                let entries: Vec<CheckpointContainerMetadata<T>> = Vec::new();
                let listed = Ghost(container_views(waiting@));
                let tables = Ghost(Seq::<Seq<char>>::empty());
                assert(entry_views(entries@) =~= Seq::<EntryView<T>>::empty());
                assert(container_views(waiting@).skip(0) =~= container_views(waiting@));
                self.go_on(
                    Gathering { output_path, agent_socket, entries, waiting, listed, tables },
                )
            },
            (CheckpointState::ReadingTable(g), CheckpointEvent::MountTable(table)) => {
                self.save_next(g, table)
            },
            (CheckpointState::SavingContainer(g, entry), CheckpointEvent::Done) => {
                let ghost before = entry_views(g.entries@);
                let ghost kept = entry@;
                let mut g = g;
                g.entries.push(entry);
                assert(entry_views(g.entries@) =~= before.push(kept));
                self.go_on(g)
            },
            (CheckpointState::WritingMetadata(_), CheckpointEvent::Done) => (
                CheckpointState::Ended,
                CheckpointAction::Succeed,
            ),
            (CheckpointState::Ended, _) => (CheckpointState::Ended, CheckpointAction::Nothing),
            _ => (CheckpointState::Ended, CheckpointAction::Fail),
        }
    }

    /// Goes on to the next container, or to the metadata.
    fn go_on<T>(&self, g: Gathering<T>) -> (r: (CheckpointState<T>, CheckpointAction<T>))
        requires
            g.wf(g.entries@.len() as int),
        ensures
            r.0.wf(),
            (r.0@, r.1@) == next_container(self.sandbox.sid@, g@),
    {
        let ghost n = g.entries@.len() as int;
        proof {
            assert(entry_views(g.entries@).len() == n);
            assert(container_views(g.waiting@).len() == g.waiting@.len());
        }
        if g.waiting.len() == 0 {
            let ghost view = g@;
            let path = path_join(g.output_path.as_str(), "metadata.json");
            let mut metadata: CheckpointMetadata<T> = self.start_metadata(g.agent_socket);
            metadata.containers = g.entries;
            return (
                CheckpointState::WritingMetadata(Ghost(view)),
                CheckpointAction::WriteMetadata { path, metadata },
            );
        }
        proof {
            assert(container_views(g.waiting@)[0] == g.listed@[n]);
            assert(g.waiting@[0]@ == g.listed@[n]);
        }
        if declared_overlay(&g.waiting[0].rootfs_mounts).is_some() {
            self.save_next(g, String::new())
        } else {
            (CheckpointState::ReadingTable(g), CheckpointAction::ReadMountTable)
        }
    }

    /// Saves the next container.
    fn save_next<T>(&self, g: Gathering<T>, table: String) -> (r: (
        CheckpointState<T>,
        CheckpointAction<T>,
    ))
        requires
            g.wf(g.entries@.len() as int),
            g.entries@.len() < g.listed@.len(),
        ensures
            r.0.wf(),
            (r.0@, r.1@) == save_container(g@, table@),
    {
        let ghost n = g.entries@.len() as int;
        let ghost before = g@;
        let ghost waiting = container_views(g.waiting@);
        proof {
            assert(entry_views(g.entries@).len() == n);
            assert(waiting.len() == g.waiting@.len());
            assert(waiting[0] == g.listed@[n]);
            assert(waiting[0] == g.waiting@[0]@);
        }
        let mut g = g;
        let container = g.waiting.remove(0);
        assert(container_views(g.waiting@) =~= waiting.skip(1));
        assert(waiting.skip(1) =~= g.listed@.skip(n + 1));
        match Self::checkpoint_container(
            g.output_path.as_str(),
            container.id.as_str(),
            container.bundle,
            container.rootfs_mounts,
            table.as_str(),
            container.spec,
        ) {
            Err(e) => (CheckpointState::Ended, CheckpointAction::FailOverlay(e)),
            Ok((plan, entry)) => {
                g.tables = Ghost(before.tables.push(table@));
                (CheckpointState::SavingContainer(g, entry), CheckpointAction::Run(plan))
            },
        }
    }
}

} // verus!
