//! Sequences of host operations, each with the context of its failure.
//!
//! A plan is carried out step by step. The first step that fails ends it; the
//! failure is reported under the contexts of the step, innermost first.

use vstd::prelude::*;

use crate::text::texts;

verus! {

/// One operation on the host.
#[derive(Debug, PartialEq, Eq)]
pub enum Step<S> {
    /// Create a directory and its parents.
    CreateDirAll { path: S },
    /// Create a directory and its parents with a mode; new directories belong
    /// to the owner of the directory that they are in.
    CreateOwnedDirAll { path: S, mode: u32 },
    /// Create a directory that must not exist yet.
    CreateDir { path: S },
    /// Check that a file can be reached, following links.
    Access { path: S },
    /// Check that there is nothing of that name, not even a dangling link.
    RefuseExisting { path: S },
    /// Remember the permissions of a file.
    ReadPermissions { path: S },
    /// Copy the contents of a file.
    CopyFile { from: S, to: S },
    /// Give a file the permissions that were remembered last.
    ApplyPermissions { path: S },
    /// Resolve a path and remember the outcome.
    Resolve { path: S },
    /// Make a link to the path that was resolved last.
    LinkToResolved { link: S },
    /// Copy the contents of a directory into another one.
    CopyTree { from: S, to: S },
    /// Mount an overlay with the given options.
    MountOverlay { target: S, options: S },
    /// Mount a directory, with all that is mounted below it, at a second place.
    Bind { source: S, target: S },
    /// Adapt the vsock socket in a configuration file.
    AdaptVsock { config: S, sandbox_id: S },
    /// Restore the block disks of a checkpoint.
    RestoreDisks { checkpoint_dir: S, config: S, vm_path: S, boot_image: S },
    /// Adapt the runtime paths in a configuration file.
    AdaptRuntimePaths { config: S, sandbox_id: S },
    /// Mark the memory in a configuration file as shared or private.
    MarkMemory { config: S, shared: bool },
    /// Have the hypervisor write a snapshot.
    Snapshot { destination_url: S },
    /// Copy the files directly in a directory into another one.
    CopyPassthrough { from: S, to: S },
}

impl View for Step<String> {
    type V = Step<Seq<char>>;

    open spec fn view(&self) -> Step<Seq<char>> {
        match self {
            Step::CreateDirAll { path } => Step::CreateDirAll { path: path@ },
            Step::CreateOwnedDirAll { path, mode } => Step::CreateOwnedDirAll {
                path: path@,
                mode: *mode,
            },
            Step::CreateDir { path } => Step::CreateDir { path: path@ },
            Step::Access { path } => Step::Access { path: path@ },
            Step::RefuseExisting { path } => Step::RefuseExisting { path: path@ },
            Step::ReadPermissions { path } => Step::ReadPermissions { path: path@ },
            Step::CopyFile { from, to } => Step::CopyFile { from: from@, to: to@ },
            Step::ApplyPermissions { path } => Step::ApplyPermissions { path: path@ },
            Step::Resolve { path } => Step::Resolve { path: path@ },
            Step::LinkToResolved { link } => Step::LinkToResolved { link: link@ },
            Step::CopyTree { from, to } => Step::CopyTree { from: from@, to: to@ },
            Step::MountOverlay { target, options } => Step::MountOverlay {
                target: target@,
                options: options@,
            },
            Step::Bind { source, target } => Step::Bind { source: source@, target: target@ },
            Step::AdaptVsock { config, sandbox_id } => Step::AdaptVsock {
                config: config@,
                sandbox_id: sandbox_id@,
            },
            Step::RestoreDisks { checkpoint_dir, config, vm_path, boot_image } => {
                Step::RestoreDisks {
                    checkpoint_dir: checkpoint_dir@,
                    config: config@,
                    vm_path: vm_path@,
                    boot_image: boot_image@,
                }
            },
            Step::AdaptRuntimePaths { config, sandbox_id } => Step::AdaptRuntimePaths {
                config: config@,
                sandbox_id: sandbox_id@,
            },
            Step::MarkMemory { config, shared } => Step::MarkMemory {
                config: config@,
                shared: *shared,
            },
            Step::Snapshot { destination_url } => Step::Snapshot {
                destination_url: destination_url@,
            },
            Step::CopyPassthrough { from, to } => Step::CopyPassthrough {
                from: from@,
                to: to@,
            },
        }
    }
}

/// A step, and the contexts of its failure, innermost first.
#[derive(Debug, PartialEq, Eq)]
pub struct PlannedStep {
    pub step: Step<String>,
    pub contexts: Vec<String>,
}

/// What a planned step means.
pub struct PlannedView {
    pub step: Step<Seq<char>>,
    pub contexts: Seq<Seq<char>>,
}

impl View for PlannedStep {
    type V = PlannedView;

    open spec fn view(&self) -> PlannedView {
        PlannedView { step: self.step@, contexts: texts(self.contexts@) }
    }
}

/// What a plan means.
pub open spec fn plan_view(plan: Seq<PlannedStep>) -> Seq<PlannedView> {
    plan.map_values(|p: PlannedStep| p@)
}

/// A step under no context.
pub open spec fn bare(step: Step<Seq<char>>) -> PlannedView {
    PlannedView { step, contexts: Seq::empty() }
}

/// A step under one context.
pub open spec fn under(step: Step<Seq<char>>, context: Seq<char>) -> PlannedView {
    PlannedView { step, contexts: seq![context] }
}

/// A step under two contexts.
pub open spec fn under2(step: Step<Seq<char>>, inner: Seq<char>, outer: Seq<char>) -> PlannedView {
    PlannedView { step, contexts: seq![inner, outer] }
}

/// An empty plan.
pub fn empty_plan() -> (r: Vec<PlannedStep>)
    ensures
        plan_view(r@) == Seq::<PlannedView>::empty(),
{
    let r: Vec<PlannedStep> = Vec::new();
    assert(plan_view(r@) =~= Seq::<PlannedView>::empty());
    r
}

/// Adds a step under no context to a plan.
pub fn push_bare(plan: &mut Vec<PlannedStep>, step: Step<String>)
    ensures
        plan_view(final(plan)@) == plan_view(old(plan)@).push(bare(step@)),
{
    let ghost before = plan_view(plan@);
    let contexts: Vec<String> = Vec::new();
    assert(texts(contexts@) =~= Seq::<Seq<char>>::empty());
    plan.push(PlannedStep { step, contexts });
    assert(plan_view(plan@) =~= before.push(bare(step@)));
}

/// Adds a step under one context to a plan.
pub fn push_under(plan: &mut Vec<PlannedStep>, step: Step<String>, context: String)
    ensures
        plan_view(final(plan)@) == plan_view(old(plan)@).push(under(step@, context@)),
{
    let ghost before = plan_view(plan@);
    let mut contexts: Vec<String> = Vec::new();
    contexts.push(context);
    assert(texts(contexts@) =~= seq![context@]);
    plan.push(PlannedStep { step, contexts });
    assert(plan_view(plan@) =~= before.push(under(step@, context@)));
}

/// Adds a step under two contexts to a plan.
pub fn push_under2(plan: &mut Vec<PlannedStep>, step: Step<String>, inner: String, outer: String)
    ensures
        plan_view(final(plan)@) == plan_view(old(plan)@).push(under2(step@, inner@, outer@)),
{
    let ghost before = plan_view(plan@);
    let mut contexts: Vec<String> = Vec::new();
    contexts.push(inner);
    contexts.push(outer);
    assert(texts(contexts@) =~= seq![inner@, outer@]);
    plan.push(PlannedStep { step, contexts });
    assert(plan_view(plan@) =~= before.push(under2(step@, inner@, outer@)));
}

/// Puts a plan behind another one.
pub fn append_plan(plan: &mut Vec<PlannedStep>, rest: Vec<PlannedStep>)
    ensures
        plan_view(final(plan)@) == plan_view(old(plan)@) + plan_view(rest@),
{
    let ghost before = plan_view(plan@);
    let ghost more = plan_view(rest@);
    let mut rest = rest;
    plan.append(&mut rest);
    assert(plan_view(plan@) =~= before + more);
}

/// The path at which a step writes, if it writes.
pub open spec fn written(step: Step<Seq<char>>) -> Option<Seq<char>> {
    match step {
        Step::CreateDirAll { path } => Some(path),
        Step::CreateOwnedDirAll { path, mode } => Some(path),
        Step::CreateDir { path } => Some(path),
        Step::CopyFile { from, to } => Some(to),
        Step::ApplyPermissions { path } => Some(path),
        Step::LinkToResolved { link } => Some(link),
        Step::CopyTree { from, to } => Some(to),
        Step::MountOverlay { target, options } => Some(target),
        Step::Bind { source, target } => Some(target),
        Step::AdaptVsock { config, sandbox_id } => Some(config),
        Step::RestoreDisks { checkpoint_dir, config, vm_path, boot_image } => Some(vm_path),
        Step::AdaptRuntimePaths { config, sandbox_id } => Some(config),
        Step::MarkMemory { config, shared } => Some(config),
        Step::CopyPassthrough { from, to } => Some(to),
        Step::Resolve { path } => None,
        Step::Access { path } => None,
        Step::RefuseExisting { path } => None,
        Step::ReadPermissions { path } => None,
        Step::Snapshot { destination_url } => None,
    }
}

} // verus!
