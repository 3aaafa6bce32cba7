//! Starting and stopping a VM.
//!
//! A start is a sequence of actions on the host. After each, the caller reports
//! what came of it, and is told what to do next.

use vstd::prelude::*;

use crate::hypervisor::{CloudHypervisorInner, HypervisorConfig, TemplateInfo, VmmState};
use crate::snapshot_config::{net_views, RestoredNetConfig};
use crate::text::{concat2, opt_text};
use crate::unix_path::{has_parent, joined, path_join};

verus! {

/// How the memory of a restored VM is filled.
#[derive(Debug, Clone, Copy, PartialEq, Eq, Structural)]
pub enum MemoryRestoreMode {
    /// All of it is copied first.
    Copy,
    /// Pages are filled when they are touched.
    OnDemand,
}

/// What the hypervisor is asked for to restore a VM.
#[derive(Debug, PartialEq, Eq)]
pub struct RestoreConfig {
    pub source_url: String,
    pub memory_restore_mode: MemoryRestoreMode,
    pub net_fds: Option<Vec<RestoredNetConfig>>,
}

/// What a restore request means.
pub struct RestoreView {
    pub source_url: Seq<char>,
    pub memory_restore_mode: MemoryRestoreMode,
    pub net_fds: Option<Seq<(Seq<char>, usize)>>,
}

impl View for RestoreConfig {
    type V = RestoreView;

    open spec fn view(&self) -> RestoreView {
        RestoreView {
            source_url: self.source_url@,
            memory_restore_mode: self.memory_restore_mode,
            net_fds: match self.net_fds {
                Some(nets) => Some(net_views(nets@)),
                None => None,
            },
        }
    }
}

/// A restore: the files that must be reached, in this order, and the request
/// with the descriptors that go with it.
#[derive(Debug, PartialEq, Eq)]
pub struct RestoreCall {
    pub state_file: String,
    pub config_file: String,
    pub request: RestoreConfig,
    pub fds: Vec<i32>,
}

/// What a restore means.
pub struct RestoreCallView {
    pub state_file: Seq<char>,
    pub config_file: Seq<char>,
    pub request: RestoreView,
    pub fds: Seq<i32>,
}

impl View for RestoreCall {
    type V = RestoreCallView;

    open spec fn view(&self) -> RestoreCallView {
        RestoreCallView {
            state_file: self.state_file@,
            config_file: self.config_file@,
            request: self.request@,
            fds: self.fds@,
        }
    }
}

/// The restore of a VM from a directory. Networks are mentioned only if there
/// are any.
pub open spec fn restore_call(
    dir: Seq<char>,
    mode: MemoryRestoreMode,
    nets: Seq<(Seq<char>, usize)>,
    fds: Seq<i32>,
) -> RestoreCallView {
    RestoreCallView {
        state_file: joined(dir, "state.json"@),
        config_file: joined(dir, "config.json"@),
        request: RestoreView {
            source_url: "file://"@ + dir,
            memory_restore_mode: mode,
            net_fds: if nets.len() > 0 {
                Some(nets)
            } else {
                None
            },
        },
        fds,
    }
}

/// What is done on the host while a VM starts.
#[derive(Debug)]
pub enum StartAction {
    /// Start the hypervisor.
    LaunchHypervisor,
    /// List the devices of the sandbox.
    ListDevices,
    /// Prepare the files of a checkpoint, for networks with so many descriptors.
    PrepareCheckpoint { checkpoint_dir: String, net_fd_counts: Vec<usize> },
    /// See whether the files of the template can be reached.
    CheckTemplate,
    /// Prepare the files of the template.
    PrepareTemplate,
    /// Have the hypervisor restore the VM.
    Restore(RestoreCall),
    /// Close descriptors, whatever comes of it.
    CloseFds(Vec<i32>),
    /// Have the hypervisor resume the VM.
    Resume,
    /// Boot the VM.
    Boot,
}

/// What an action means.
pub enum StartActionView {
    LaunchHypervisor,
    ListDevices,
    PrepareCheckpoint { checkpoint_dir: Seq<char>, net_fd_counts: Seq<usize> },
    CheckTemplate,
    PrepareTemplate,
    Restore(RestoreCallView),
    CloseFds(Seq<i32>),
    Resume,
    Boot,
}

impl View for StartAction {
    type V = StartActionView;

    open spec fn view(&self) -> StartActionView {
        match self {
            StartAction::LaunchHypervisor => StartActionView::LaunchHypervisor,
            StartAction::ListDevices => StartActionView::ListDevices,
            StartAction::PrepareCheckpoint { checkpoint_dir, net_fd_counts } => {
                StartActionView::PrepareCheckpoint {
                    checkpoint_dir: checkpoint_dir@,
                    net_fd_counts: net_fd_counts@,
                }
            },
            StartAction::CheckTemplate => StartActionView::CheckTemplate,
            StartAction::PrepareTemplate => StartActionView::PrepareTemplate,
            StartAction::Restore(call) => StartActionView::Restore(call@),
            StartAction::CloseFds(fds) => StartActionView::CloseFds(fds@),
            StartAction::Resume => StartActionView::Resume,
            StartAction::Boot => StartActionView::Boot,
        }
    }
}

/// How far a start has come: what the caller is doing.
#[derive(Debug)]
pub enum StartState {
    /// Starting the hypervisor.
    Launching,
    /// Listing devices, for the restore of a checkpoint.
    Listing { checkpoint_dir: String },
    /// Preparing the files of a checkpoint; the descriptors are open.
    Preparing { fds: Vec<i32> },
    /// Looking at the files of the template.
    CheckingTemplate,
    /// Preparing the files of the template.
    PreparingTemplate,
    /// Restoring the VM; the descriptors are open.
    Restoring { fds: Vec<i32> },
    /// Resuming the restored VM.
    Resuming,
    /// Booting the VM.
    Booting,
    /// Nothing: the VM runs.
    Running,
    /// Nothing: an action failed.
    Failed,
    /// Nothing: a confidential guest cannot be restored.
    Refused,
}

/// What a state means.
pub enum StartStateView {
    Launching,
    Listing { checkpoint_dir: Seq<char> },
    Preparing { fds: Seq<i32> },
    CheckingTemplate,
    PreparingTemplate,
    Restoring { fds: Seq<i32> },
    Resuming,
    Booting,
    Running,
    Failed,
    Refused,
}

impl View for StartState {
    type V = StartStateView;

    open spec fn view(&self) -> StartStateView {
        match self {
            StartState::Launching => StartStateView::Launching,
            StartState::Listing { checkpoint_dir } => StartStateView::Listing {
                checkpoint_dir: checkpoint_dir@,
            },
            StartState::Preparing { fds } => StartStateView::Preparing { fds: fds@ },
            StartState::CheckingTemplate => StartStateView::CheckingTemplate,
            StartState::PreparingTemplate => StartStateView::PreparingTemplate,
            StartState::Restoring { fds } => StartStateView::Restoring { fds: fds@ },
            StartState::Resuming => StartStateView::Resuming,
            StartState::Booting => StartStateView::Booting,
            StartState::Running => StartStateView::Running,
            StartState::Failed => StartStateView::Failed,
            StartState::Refused => StartStateView::Refused,
        }
    }
}

/// What came of an action.
#[derive(Debug)]
pub enum StartEvent {
    /// It is done.
    Done,
    /// It failed, or there is no file of the template.
    Failed,
    /// The descriptors of each network of the sandbox.
    Devices(Vec<Vec<i32>>),
    /// The networks of the prepared checkpoint.
    Prepared(Vec<RestoredNetConfig>),
}

/// What an event means.
pub enum StartEventView {
    Done,
    Failed,
    Devices(Seq<Seq<i32>>),
    Prepared(Seq<(Seq<char>, usize)>),
}

/// The descriptors of networks.
pub open spec fn fd_views(networks: Seq<Vec<i32>>) -> Seq<Seq<i32>> {
    networks.map_values(|fds: Vec<i32>| fds@)
}

impl View for StartEvent {
    type V = StartEventView;

    open spec fn view(&self) -> StartEventView {
        match self {
            StartEvent::Done => StartEventView::Done,
            StartEvent::Failed => StartEventView::Failed,
            StartEvent::Devices(networks) => StartEventView::Devices(fd_views(networks@)),
            StartEvent::Prepared(nets) => StartEventView::Prepared(net_views(nets@)),
        }
    }
}

/// What a start depends on.
pub struct StartFacts {
    pub restore_path: Option<Seq<char>>,
    pub confidential_guest: bool,
    pub boot_from_template: bool,
    pub template_has_dir: bool,
    pub vm_path: Seq<char>,
}

/// The descriptors of all networks, one network after the other.
pub open spec fn all_fds(networks: Seq<Seq<i32>>) -> Seq<i32> {
    networks.flatten()
}

/// How many descriptors each network has.
pub open spec fn fd_counts(networks: Seq<Seq<i32>>) -> Seq<usize> {
    networks.map_values(|fds: Seq<i32>| fds.len() as usize)
}

/// What is done when the hypervisor runs: a checkpoint is restored if there is
/// one to restore, a template if there is one to start from, and else the VM is
/// booted.
pub open spec fn after_launch(facts: StartFacts) -> (StartStateView, Seq<StartActionView>) {
    match facts.restore_path {
        Some(dir) => if facts.confidential_guest {
            (StartStateView::Refused, Seq::empty())
        } else {
            (
                StartStateView::Listing { checkpoint_dir: dir },
                seq![StartActionView::ListDevices],
            )
        },
        None => if facts.boot_from_template && facts.template_has_dir {
            (StartStateView::CheckingTemplate, seq![StartActionView::CheckTemplate])
        } else {
            (StartStateView::Booting, seq![StartActionView::Boot])
        },
    }
}

/// What an event leads to: the next state, and what is to be done. A failure
/// ends the start; descriptors that are open are closed first.
pub open spec fn start_step(
    facts: StartFacts,
    state: StartStateView,
    event: StartEventView,
) -> (StartStateView, Seq<StartActionView>) {
    match (state, event) {
        (StartStateView::Launching, StartEventView::Done) => after_launch(facts),
        (
            StartStateView::Listing { checkpoint_dir },
            StartEventView::Devices(networks),
        ) => (
            StartStateView::Preparing { fds: all_fds(networks) },
            seq![
                StartActionView::PrepareCheckpoint {
                    checkpoint_dir,
                    net_fd_counts: fd_counts(networks),
                },
            ],
        ),
        (StartStateView::Preparing { fds }, StartEventView::Prepared(nets)) => (
            StartStateView::Restoring { fds },
            seq![
                StartActionView::Restore(
                    restore_call(facts.vm_path, MemoryRestoreMode::OnDemand, nets, fds),
                ),
            ],
        ),
        (StartStateView::CheckingTemplate, StartEventView::Done) => (
            StartStateView::PreparingTemplate,
            seq![StartActionView::PrepareTemplate],
        ),
        (StartStateView::CheckingTemplate, StartEventView::Failed) => (
            StartStateView::Booting,
            seq![StartActionView::Boot],
        ),
        (StartStateView::PreparingTemplate, StartEventView::Done) => (
            StartStateView::Restoring { fds: Seq::empty() },
            seq![
                StartActionView::Restore(
                    restore_call(
                        facts.vm_path,
                        MemoryRestoreMode::Copy,
                        Seq::empty(),
                        Seq::empty(),
                    ),
                ),
            ],
        ),
        (StartStateView::Restoring { fds }, StartEventView::Done) => (
            StartStateView::Resuming,
            seq![StartActionView::CloseFds(fds), StartActionView::Resume],
        ),
        (StartStateView::Resuming, StartEventView::Done) => (StartStateView::Running, Seq::empty()),
        (StartStateView::Booting, StartEventView::Done) => (StartStateView::Running, Seq::empty()),
        (StartStateView::Preparing { fds }, _) => (
            StartStateView::Failed,
            seq![StartActionView::CloseFds(fds)],
        ),
        (StartStateView::Restoring { fds }, _) => (
            StartStateView::Failed,
            seq![StartActionView::CloseFds(fds)],
        ),
        _ => (StartStateView::Failed, Seq::empty()),
    }
}

/// What actions mean.
pub open spec fn action_views(actions: Seq<StartAction>) -> Seq<StartActionView> {
    actions.map_values(|a: StartAction| a@)
}

impl CloudHypervisorInner {
    /// The restore of a VM from a directory.
    pub fn restore_vm_from(
        dir: &str,
        memory_restore_mode: MemoryRestoreMode,
        nets: Vec<RestoredNetConfig>,
        fds: Vec<i32>,
    ) -> (r: RestoreCall)
        ensures
            r@ == restore_call(dir@, memory_restore_mode, net_views(nets@), fds@),
    {
        assert(net_views(nets@).len() == nets@.len());
        let net_fds = if nets.len() > 0 {
            Some(nets)
        } else {
            None
        };
        RestoreCall {
            state_file: path_join(dir, "state.json"),
            config_file: path_join(dir, "config.json"),
            request: RestoreConfig {
                source_url: concat2("file://", dir),
                memory_restore_mode,
                net_fds,
            },
            fds,
        }
    }
}

/// A copy of a list of descriptors.
fn copy_fds(fds: &Vec<i32>) -> (r: Vec<i32>)
    ensures
        r@ == fds@,
{
    let mut r: Vec<i32> = Vec::new();
    let mut i: usize = 0;
    while i < fds.len()
        invariant
            i <= fds@.len(),
            r@ == fds@.take(i as int),
        decreases fds@.len() - i,
    {
        r.push(fds[i]);
        assert(fds@.take(i + 1) == fds@.take(i as int).push(fds@[i as int]));
        i = i + 1;
    }
    assert(fds@.take(fds@.len() as int) == fds@);
    r
}

/// Takes the descriptors out of networks: how many each has, and all of them.
pub fn gather_fds(networks: &Vec<Vec<i32>>) -> (r: (Vec<usize>, Vec<i32>))
    ensures
        r.0@ == fd_counts(fd_views(networks@)),
        r.1@ == all_fds(fd_views(networks@)),
{
    let ghost views = fd_views(networks@);
    let mut counts: Vec<usize> = Vec::new();
    let mut fds: Vec<i32> = Vec::new();
    let mut i: usize = 0;
    assert(views.take(0) == Seq::<Seq<i32>>::empty());
    while i < networks.len()
        invariant
            i <= networks@.len(),
            views == fd_views(networks@),
            counts@ == fd_counts(views).take(i as int),
            fds@ == views.take(i as int).flatten(),
        decreases networks@.len() - i,
    {
        let own = &networks[i];
        assert(own@ == views[i as int]);
        counts.push(own.len());
        assert(fd_counts(views).take(i + 1) == fd_counts(views).take(i as int).push(
            fd_counts(views)[i as int],
        ));
        let mut copy = copy_fds(own);
        let ghost so_far = fds@;
        fds.append(&mut copy);
        proof {
            assert(views.take(i + 1) == views.take(i as int).push(own@));
            lemma_flatten_push(views.take(i as int), own@);
        }
        i = i + 1;
    }
    assert(views.take(networks@.len() as int) == views);
    assert(fd_counts(views).take(networks@.len() as int) == fd_counts(views));
    (counts, fds)
}

/// A further list comes last.
proof fn lemma_flatten_push(lists: Seq<Seq<i32>>, last: Seq<i32>)
    ensures
        lists.push(last).flatten() == lists.flatten() + last,
{
    lists.lemma_flatten_push(last);
}

impl CloudHypervisorInner {
    /// What a start of this VM depends on.
    pub open spec fn start_facts(&self) -> StartFacts {
        StartFacts {
            restore_path: opt_text(self.restore_path),
            confidential_guest: self.config.security_info.confidential_guest,
            boot_from_template: self.config.vm_template.boot_from_template,
            template_has_dir: has_parent(self.config.vm_template.memory_path@),
            vm_path: self.vm_path@,
        }
    }

    /// Begins to start the VM.
    pub fn start_vm(&mut self, timeout_secs: i32) -> (r: (StartState, StartAction))
        ensures
            r.0 is Launching,
            r.1 is LaunchHypervisor,
            *final(self) == (CloudHypervisorInner { timeout_secs, ..*old(self) }),
    {
        self.timeout_secs = timeout_secs;
        (StartState::Launching, StartAction::LaunchHypervisor)
    }

    /// Goes on with the start: says what the last action's outcome leads to, and
    /// keeps the state of the VM in step.
    pub fn advance_start(&mut self, state: StartState, event: StartEvent) -> (r: (
        StartState,
        Vec<StartAction>,
    ))
        ensures
            (r.0@, action_views(r.1@)) == start_step(old(self).start_facts(), state@, event@),
            final(self).state == (match (state@, event@) {
                (StartStateView::Launching, StartEventView::Done) => VmmState::VmmServerReady,
                _ => if r.0@ is Running {
                    VmmState::VmRunning
                } else {
                    old(self).state
                },
            }),
            final(self).config.vm_template.boot_from_template == (old(
                self,
            ).config.vm_template.boot_from_template && !(r.0@ is Booting)),
            old(self).same_but_start(*final(self)),
    {
        let mut actions: Vec<StartAction> = Vec::new();
        assert(action_views(actions@) =~= Seq::<StartActionView>::empty());
        let next = match (state, event) {
            (StartState::Launching, StartEvent::Done) => {
                self.state = VmmState::VmmServerReady;
                if let Some(dir) = &self.restore_path {
                    if self.config.security_info.confidential_guest {
                        StartState::Refused
                    } else {
                        let checkpoint_dir = dir.clone();
                        actions.push(StartAction::ListDevices);
                        StartState::Listing { checkpoint_dir }
                    }
                } else if self.config.vm_template.boot_from_template
                    && self.template_dir().is_some() {
                    actions.push(StartAction::CheckTemplate);
                    StartState::CheckingTemplate
                } else {
                    self.config.vm_template.boot_from_template = false;
                    actions.push(StartAction::Boot);
                    StartState::Booting
                }
            },
            (StartState::Listing { checkpoint_dir }, StartEvent::Devices(networks)) => {
                let (net_fd_counts, fds) = gather_fds(&networks);
                actions.push(StartAction::PrepareCheckpoint { checkpoint_dir, net_fd_counts });
                StartState::Preparing { fds }
            },
            (StartState::Preparing { fds }, StartEvent::Prepared(nets)) => {
                actions.push(
                    StartAction::Restore(
                        Self::restore_vm_from(
                            self.vm_path.as_str(),
                            MemoryRestoreMode::OnDemand,
                            nets,
                            copy_fds(&fds),
                        ),
                    ),
                );
                StartState::Restoring { fds }
            },
            (StartState::CheckingTemplate, StartEvent::Done) => {
                actions.push(StartAction::PrepareTemplate);
                StartState::PreparingTemplate
            },
            (StartState::CheckingTemplate, StartEvent::Failed) => {
                self.config.vm_template.boot_from_template = false;
                actions.push(StartAction::Boot);
                StartState::Booting
            },
            (StartState::PreparingTemplate, StartEvent::Done) => {
                let nets: Vec<RestoredNetConfig> = Vec::new();
                assert(net_views(nets@) =~= Seq::<(Seq<char>, usize)>::empty());
                let none: Vec<i32> = Vec::new();
                actions.push(
                    StartAction::Restore(
                        Self::restore_vm_from(
                            self.vm_path.as_str(),
                            MemoryRestoreMode::Copy,
                            nets,
                            copy_fds(&none),
                        ),
                    ),
                );
                StartState::Restoring { fds: none }
            },
            (StartState::Restoring { fds }, StartEvent::Done) => {
                actions.push(StartAction::CloseFds(fds));
                actions.push(StartAction::Resume);
                StartState::Resuming
            },
            (StartState::Resuming, StartEvent::Done) => {
                self.state = VmmState::VmRunning;
                StartState::Running
            },
            (StartState::Booting, StartEvent::Done) => {
                self.state = VmmState::VmRunning;
                StartState::Running
            },
            (StartState::Preparing { fds }, _) => {
                actions.push(StartAction::CloseFds(fds));
                StartState::Failed
            },
            (StartState::Restoring { fds }, _) => {
                actions.push(StartAction::CloseFds(fds));
                StartState::Failed
            },
            _ => StartState::Failed,
        };
        assert(action_views(actions@) =~= start_step(old(self).start_facts(), state@, event@).1);
        (next, actions)
    }

    /// Whether a VM differs from another one only in what a start changes.
    pub open spec fn same_but_start(&self, other: CloudHypervisorInner) -> bool {
        other == (CloudHypervisorInner {
            state: other.state,
            config: HypervisorConfig {
                vm_template: TemplateInfo {
                    boot_from_template: other.config.vm_template.boot_from_template,
                    ..self.config.vm_template
                },
                ..self.config
            },
            ..*self
        })
    }
}

/// The message for a confidential guest that was to be restored.
pub fn refused_message() -> (r: String)
    ensures
        r@ == "Cloud Hypervisor checkpoint restore does not support confidential guests"@,
{
    "Cloud Hypervisor checkpoint restore does not support confidential guests".to_owned()
}

/// The context of a restore whose state file is not reached.
pub fn state_file_context(path: &str) -> (r: String)
    ensures
        r@ == "access state file "@ + path@,
{
    concat2("access state file ", path)
}

/// The context of a restore whose configuration file is not reached.
pub fn config_file_context(path: &str) -> (r: String)
    ensures
        r@ == "access config file "@ + path@,
{
    concat2("access config file ", path)
}

/// The descriptors that are open in a state.
pub open spec fn held_fds(state: StartStateView) -> Seq<i32> {
    match state {
        StartStateView::Preparing { fds } => fds,
        StartStateView::Restoring { fds } => fds,
        _ => Seq::empty(),
    }
}

/// The descriptors that are handed over by an event.
pub open spec fn received_fds(state: StartStateView, event: StartEventView) -> Seq<i32> {
    match (state, event) {
        (StartStateView::Listing { .. }, StartEventView::Devices(networks)) => all_fds(networks),
        _ => Seq::empty(),
    }
}

/// The descriptors that an action closes.
pub open spec fn fds_closed_by(action: StartActionView) -> Seq<i32> {
    match action {
        StartActionView::CloseFds(fds) => fds,
        _ => Seq::empty(),
    }
}

/// The descriptors that actions close, in order.
pub open spec fn closed_fds(actions: Seq<StartActionView>) -> Seq<i32> {
    actions.map_values(|a: StartActionView| fds_closed_by(a)).flatten()
}

/// Closing by one or two actions.
proof fn lemma_closed_fds(actions: Seq<StartActionView>)
    ensures
        actions.len() == 0 ==> closed_fds(actions) == Seq::<i32>::empty(),
        actions.len() == 1 ==> closed_fds(actions) == fds_closed_by(actions[0]),
        actions.len() == 2 ==> closed_fds(actions) == fds_closed_by(actions[0]) + fds_closed_by(
            actions[1],
        ),
{
    let lists = actions.map_values(|a: StartActionView| fds_closed_by(a));
    let none = Seq::<Seq<i32>>::empty();
    assert(none.flatten() == Seq::<i32>::empty());
    if actions.len() == 0 {
        assert(lists =~= none);
    } else if actions.len() == 1 {
        assert(lists =~= none.push(lists[0]));
        lemma_flatten_push(none, lists[0]);
        assert(Seq::<i32>::empty() + lists[0] =~= lists[0]);
    } else if actions.len() == 2 {
        assert(lists =~= none.push(lists[0]).push(lists[1]));
        lemma_flatten_push(none, lists[0]);
        lemma_flatten_push(none.push(lists[0]), lists[1]);
        assert(Seq::<i32>::empty() + lists[0] =~= lists[0]);
    }
}

/// No step of a start loses a descriptor or closes one twice: what was open and
/// what was handed over is what is closed and what stays open. Where a start
/// ends, nothing is open.
pub proof fn law_descriptors_are_closed_once(
    facts: StartFacts,
    state: StartStateView,
    event: StartEventView,
)
    ensures
        ({
            let (next, actions) = start_step(facts, state, event);
            &&& held_fds(state) + received_fds(state, event) == closed_fds(actions) + held_fds(next)
            &&& next is Running || next is Failed || next is Refused ==> held_fds(next).len() == 0
        }),
{
    let (next, actions) = start_step(facts, state, event);
    lemma_closed_fds(actions);
    let before = held_fds(state) + received_fds(state, event);
    assert(before =~= closed_fds(actions) + held_fds(next));
}

/// How many steps a start can still take.
pub open spec fn steps_left(state: StartStateView) -> nat {
    match state {
        StartStateView::Launching => 5,
        StartStateView::Listing { .. } => 4,
        StartStateView::CheckingTemplate => 4,
        StartStateView::Preparing { .. } => 3,
        StartStateView::PreparingTemplate => 3,
        StartStateView::Restoring { .. } => 2,
        StartStateView::Resuming => 1,
        StartStateView::Booting => 1,
        _ => 0,
    }
}

/// Every start ends: each step leaves fewer to take, and as long as there are
/// some, there is something to do.
pub proof fn law_every_start_ends(facts: StartFacts, state: StartStateView, event: StartEventView)
    requires
        steps_left(state) > 0,
    ensures
        steps_left(start_step(facts, state, event).0) < steps_left(state),
        steps_left(start_step(facts, state, event).0) > 0 ==> start_step(
            facts,
            state,
            event,
        ).1.len() > 0,
{
}

/// A start ends in a running VM only when it was resumed or booted.
pub proof fn law_running_means_resumed_or_booted(
    facts: StartFacts,
    state: StartStateView,
    event: StartEventView,
)
    ensures
        start_step(facts, state, event).0 is Running <==> event is Done && (state is Resuming
            || state is Booting),
{
}

/// A confidential guest is never restored from a checkpoint: the start ends
/// before anything of the checkpoint is touched.
pub proof fn law_confidential_guests_are_not_restored(facts: StartFacts)
    requires
        facts.confidential_guest,
        facts.restore_path is Some,
    ensures
        start_step(facts, StartStateView::Launching, StartEventView::Done) == (
            StartStateView::Refused,
            Seq::<StartActionView>::empty(),
        ),
{
}

/// A checkpoint is restored with exactly the descriptors of its networks, page
/// by page; a template is copied, without any.
pub proof fn law_restores_get_their_descriptors(
    facts: StartFacts,
    state: StartStateView,
    event: StartEventView,
    i: int,
)
    requires
        0 <= i < start_step(facts, state, event).1.len(),
    ensures
        start_step(facts, state, event).1[i] matches StartActionView::Restore(call) ==> {
            &&& call.fds == held_fds(state)
            &&& call.request.source_url == "file://"@ + facts.vm_path
            &&& call.request.memory_restore_mode == (if state is Preparing {
                MemoryRestoreMode::OnDemand
            } else {
                MemoryRestoreMode::Copy
            })
        },
{
    if state is PreparingTemplate {
        assert(held_fds(state) =~= Seq::<i32>::empty());
    }
}

/// What stopping a VM comes to: whether the hypervisor is to be shut down, and
/// the state afterwards.
pub open spec fn stopped(state: VmmState) -> (bool, VmmState) {
    if state is VmRunning {
        (true, VmmState::NotReady)
    } else {
        (false, state)
    }
}

/// Stopping a VM that was stopped does nothing: the hypervisor is shut down at
/// most once.
pub proof fn law_second_stop_does_nothing(state: VmmState)
    ensures
        stopped(stopped(state).1) == (false, stopped(state).1),
{
}

impl CloudHypervisorInner {
    /// Stops the VM if it runs; says whether the hypervisor is to be shut down.
    pub fn stop_vm(&mut self) -> (r: bool)
        ensures
            r == stopped(old(self).state).0,
            *final(self) == (CloudHypervisorInner {
                state: stopped(old(self).state).1,
                ..*old(self)
            }),
    {
        if self.state != VmmState::VmRunning {
            return false;
        }
        self.state = VmmState::NotReady;
        true
    }

    /// What waiting for the VM gives.
    pub fn wait_vm(&self) -> (r: i32)
        ensures
            r == 0,
    {
        0
    }

    /// Gives up the connection to the hypervisor.
    pub fn disconnect(&mut self)
        ensures
            *final(self) == (CloudHypervisorInner { state: VmmState::NotReady, ..*old(self) }),
    {
        self.state = VmmState::NotReady;
    }

    /// Whether the shutdown can be requested.
    pub fn check_shutdown_channel(&self) -> (r: Result<(), String>)
        ensures
            match r {
                Ok(_) => self.shutdown_tx,
                Err(e) => !self.shutdown_tx && e@ == "no shutdown channel"@,
            },
    {
        if !self.shutdown_tx {
            return Err("no shutdown channel".to_owned());
        }
        Ok(())
    }

    /// Goes on with the shutdown, once it was requested: takes the background
    /// tasks, which are to be waited for. Says how many there are.
    pub fn cloud_hypervisor_shutdown(&mut self, requested: bool) -> (r: Result<usize, String>)
        ensures
            match r {
                Ok(n) => requested && old(self).tasks == Some(n) && *final(self) == (
                CloudHypervisorInner { tasks: None, ..*old(self) }),
                Err(e) => *final(self) == *old(self) && (if requested {
                    old(self).tasks is None && e@ == "no tasks"@
                } else {
                    e@ == "failed to request shutdown"@
                }),
            },
    {
        if !requested {
            return Err("failed to request shutdown".to_owned());
        }
        match self.tasks {
            Some(n) => {
                self.tasks = None;
                Ok(n)
            },
            None => Err("no tasks".to_owned()),
        }
    }

    /// Takes the child process, which is to be killed and waited for.
    pub fn cloud_hypervisor_wait(&mut self) -> (r: Result<u32, String>)
        ensures
            *final(self) == (CloudHypervisorInner { process: None, ..*old(self) }),
            match r {
                Ok(pid) => old(self).process matches Some(child) && child.id == Some(pid),
                Err(e) => match old(self).process {
                    None => e@ == "clh not running"@,
                    Some(child) => child.id is None && e@ == "clh missing PID"@,
                },
            },
    {
        let process = self.process;
        self.process = None;
        match process {
            None => Err("clh not running".to_owned()),
            Some(child) => match child.id {
                Some(pid) => Ok(pid),
                None => Err("clh missing PID".to_owned()),
            },
        }
    }
}

/// What waiting for background tasks comes to: the failures, as they are shown.
pub fn join_outcome(failures: &Vec<String>, shown: &str) -> (r: Result<(), String>)
    ensures
        match r {
            Ok(_) => failures@.len() == 0,
            Err(e) => failures@.len() > 0 && e@ == "wait all tasks failed: "@ + shown@,
        },
{
    if failures.len() == 0 {
        Ok(())
    } else {
        Err(concat2("wait all tasks failed: ", shown))
    }
}

/// A step of booting a VM.
#[derive(Debug, Clone, Copy, PartialEq, Eq, Structural)]
pub enum BootStep {
    /// Make the directory of the sandbox, with the given mode.
    CreateSandboxDir { mode: u32 },
    /// Have the hypervisor create the VM.
    CreateVm,
    /// Add the network of the given number, and hand over its descriptors.
    AddNetwork { index: usize },
    /// Close a descriptor that was handed over.
    CloseFd { fd: i32 },
    /// Have the hypervisor start the VM.
    StartVm,
}

/// Closing descriptors.
pub open spec fn close_steps(fds: Seq<i32>) -> Seq<BootStep> {
    fds.map_values(|fd: i32| BootStep::CloseFd { fd })
}

/// Adding the first `n` networks: the descriptors of each are closed before the
/// next one is added.
pub open spec fn network_steps(networks: Seq<Seq<i32>>, n: int) -> Seq<BootStep>
    decreases n,
{
    if n <= 0 {
        Seq::empty()
    } else {
        network_steps(networks, n - 1).push(
            BootStep::AddNetwork { index: (n - 1) as usize },
        ) + close_steps(networks[n - 1])
    }
}

/// Booting a VM with networks.
pub open spec fn boot_steps(networks: Seq<Seq<i32>>) -> Seq<BootStep> {
    (seq![BootStep::CreateSandboxDir { mode: 0o750 }, BootStep::CreateVm] + network_steps(
        networks,
        networks.len() as int,
    )).push(BootStep::StartVm)
}

impl CloudHypervisorInner {
    /// The steps that boot a VM, given the descriptors of its networks.
    pub fn boot_vm(&self, networks: &Vec<Vec<i32>>) -> (r: Vec<BootStep>)
        ensures
            r@ == boot_steps(fd_views(networks@)),
    {
        let ghost views = fd_views(networks@);
        let ghost start = seq![BootStep::CreateSandboxDir { mode: 0o750 }, BootStep::CreateVm];
        let mut r: Vec<BootStep> = Vec::new();
        r.push(BootStep::CreateSandboxDir { mode: 0o750 });
        r.push(BootStep::CreateVm);
        let mut i: usize = 0;
        assert(r@ =~= start + network_steps(views, 0));
        while i < networks.len()
            invariant
                i <= networks@.len(),
                views == fd_views(networks@),
                r@ == start + network_steps(views, i as int),
            decreases networks@.len() - i,
        {
            let fds = &networks[i];
            let ghost before = r@;
            r.push(BootStep::AddNetwork { index: i });
            let ghost added = r@;
            let mut k: usize = 0;
            while k < fds.len()
                invariant
                    k <= fds@.len(),
                    r@ == added + close_steps(fds@).take(k as int),
                decreases fds@.len() - k,
            {
                r.push(BootStep::CloseFd { fd: fds[k] });
                assert(close_steps(fds@).take(k + 1) == close_steps(fds@).take(k as int).push(
                    close_steps(fds@)[k as int],
                ));
                k = k + 1;
            }
            assert(close_steps(fds@).take(fds@.len() as int) == close_steps(fds@));
            assert(views[i as int] == fds@);
            assert(r@ =~= start + network_steps(views, i + 1));
            i = i + 1;
        }
        r.push(BootStep::StartVm);
        r
    }
}

/// The context of a step of booting, if it has one.
pub fn boot_context(step: &BootStep) -> (r: Option<String>)
    ensures
        opt_text(r) == (match step {
            BootStep::CreateSandboxDir { .. } => Some("failed to create sandbox path"@),
            BootStep::AddNetwork { .. } => Some("failed to add vm netdev with fds"@),
            BootStep::CloseFd { .. } => Some("failed to close netdev fd"@),
            _ => None,
        }),
{
    match step {
        BootStep::CreateSandboxDir { .. } => Some("failed to create sandbox path".to_owned()),
        BootStep::AddNetwork { .. } => Some("failed to add vm netdev with fds".to_owned()),
        BootStep::CloseFd { .. } => Some("failed to close netdev fd".to_owned()),
        _ => None,
    }
}

/// The descriptors that steps of booting close.
pub open spec fn boot_closes(steps: Seq<BootStep>) -> Seq<i32>
    decreases steps.len(),
{
    if steps.len() == 0 {
        Seq::empty()
    } else {
        match steps.last() {
            BootStep::CloseFd { fd } => boot_closes(steps.drop_last()).push(fd),
            _ => boot_closes(steps.drop_last()),
        }
    }
}

/// What closing steps close.
proof fn lemma_close_steps(steps: Seq<BootStep>, fds: Seq<i32>)
    ensures
        boot_closes(steps + close_steps(fds)) == boot_closes(steps) + fds,
    decreases fds.len(),
{
    let all = steps + close_steps(fds);
    if fds.len() == 0 {
        assert(all =~= steps);
        assert(boot_closes(steps) + fds =~= boot_closes(steps));
    } else {
        lemma_close_steps(steps, fds.drop_last());
        assert(all.drop_last() =~= steps + close_steps(fds.drop_last()));
        assert(all.last() == (BootStep::CloseFd { fd: fds.last() }));
        assert((boot_closes(steps) + fds.drop_last()).push(fds.last()) =~= boot_closes(steps)
            + fds);
    }
}

/// What adding networks closes.
proof fn lemma_network_closes(start: Seq<BootStep>, networks: Seq<Seq<i32>>, n: int)
    requires
        0 <= n <= networks.len(),
        boot_closes(start) == Seq::<i32>::empty(),
    ensures
        boot_closes(start + network_steps(networks, n)) == networks.take(n).flatten(),
    decreases n,
{
    if n == 0 {
        assert(start + network_steps(networks, 0) =~= start);
        assert(networks.take(0) =~= Seq::<Seq<i32>>::empty());
    } else {
        lemma_network_closes(start, networks, n - 1);
        let before = start + network_steps(networks, n - 1);
        let added = before.push(BootStep::AddNetwork { index: (n - 1) as usize });
        assert(added.drop_last() =~= before);
        assert(boot_closes(added) == boot_closes(before));
        lemma_close_steps(added, networks[n - 1]);
        assert(start + network_steps(networks, n) =~= added + close_steps(networks[n - 1]));
        assert(networks.take(n) =~= networks.take(n - 1).push(networks[n - 1]));
        lemma_flatten_push(networks.take(n - 1), networks[n - 1]);
    }
}

/// Booting closes every descriptor of every network once, and nothing else.
pub proof fn law_boot_closes_every_descriptor(networks: Seq<Seq<i32>>)
    ensures
        boot_closes(boot_steps(networks)) == all_fds(networks),
{
    let start = seq![BootStep::CreateSandboxDir { mode: 0o750 }, BootStep::CreateVm];
    assert(start.drop_last() =~= seq![BootStep::CreateSandboxDir { mode: 0o750 }]);
    assert(seq![BootStep::CreateSandboxDir { mode: 0o750 }].drop_last() =~= Seq::<
        BootStep,
    >::empty());
    reveal_with_fuel(boot_closes, 3);
    assert(boot_closes(start) == Seq::<i32>::empty());
    lemma_network_closes(start, networks, networks.len() as int);
    assert(networks.take(networks.len() as int) =~= networks);
    let all = boot_steps(networks);
    assert(all.drop_last() =~= start + network_steps(networks, networks.len() as int));
}

} // verus!
