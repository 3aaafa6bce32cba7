//! Checkpoints of sandboxes: what is saved, and what a restore makes of it.

use vstd::prelude::*;

use crate::overlay::{
    law_options_name_the_layers, layers_of, overlay_mount_options, overlay_options, rootfs_layers,
    rootfs_overlay_paths, Mount, OverlayNotFound,
};
use crate::plan::{
    bare, empty_plan, plan_view, push_bare, push_under, under, written, PlannedStep, PlannedView,
    Step,
};
use crate::text::{concat2, same_text, split_on, texts};
use crate::unix_path::{components, is_name, joined, lemma_joined_name, path_join};

verus! {

/// A sandbox.
#[derive(Debug)]
pub struct VirtSandbox {
    pub sid: String,
}

/// Checkpoint and restore of a sandbox with its containers.
#[derive(Debug)]
pub struct VirtCheckpointRestore<S, M> {
    pub sandbox: S,
    pub container_manager: M,
}

impl<S, M> VirtCheckpointRestore<S, M> {
    /// Checkpoint and restore of the given sandbox and containers.
    pub fn new(sandbox: S, container_manager: M) -> (r: Self)
        ensures
            r.sandbox == sandbox,
            r.container_manager == container_manager,
    {
        VirtCheckpointRestore { sandbox, container_manager }
    }
}

/// A request for a checkpoint.
#[derive(Debug)]
pub struct CheckpointSandboxRequest {
    pub sandbox_id: String,
    pub output_path: String,
}

/// What a checkpoint says of a container; `T` is what its configuration is
/// kept as.
#[derive(Debug)]
pub struct CheckpointContainerMetadata<T> {
    pub old_id: String,
    pub bundle: String,
    pub rootfs_mounts: Vec<Mount>,
    pub lower_dirs: Vec<String>,
    pub spec: T,
}

/// What a checkpoint says of a sandbox.
#[derive(Debug)]
pub struct CheckpointMetadata<T> {
    pub version: u32,
    pub sandbox_id: String,
    pub agent_socket: String,
    pub containers: Vec<CheckpointContainerMetadata<T>>,
}

/// An entry of a directory.
#[derive(Debug)]
pub struct DirEntry {
    pub name: String,
    pub is_file: bool,
    pub is_symlink: bool,
}

/// Whether an entry is copied: files and links are, directories are rebuilt
/// from their layers.
pub open spec fn is_passthrough(entry: DirEntry) -> bool {
    entry.is_file || entry.is_symlink
}

/// Copying the first `n` entries of a directory.
pub open spec fn passthrough_copies(
    source: Seq<char>,
    destination: Seq<char>,
    entries: Seq<DirEntry>,
    n: int,
) -> Seq<PlannedView>
    decreases n,
{
    if n <= 0 {
        Seq::empty()
    } else {
        let before = passthrough_copies(source, destination, entries, n - 1);
        if is_passthrough(entries[n - 1]) {
            let from = joined(source, entries[n - 1].name@);
            let to = joined(destination, entries[n - 1].name@);
            before.push(
                under(
                    Step::CopyFile { from, to },
                    "copy virtio-fs passthrough file "@ + from + " to "@ + to,
                ),
            )
        } else {
            before
        }
    }
}

/// Plans to copy the files that stand directly in a directory.
pub fn copy_passthrough_files(source: &str, destination: &str, entries: &Vec<DirEntry>) -> (r: Vec<
    PlannedStep,
>)
    ensures
        plan_view(r@) == passthrough_copies(
            source@,
            destination@,
            entries@,
            entries@.len() as int,
        ),
{
    let mut plan = empty_plan();
    let mut i: usize = 0;
    while i < entries.len()
        invariant
            i <= entries@.len(),
            plan_view(plan@) == passthrough_copies(source@, destination@, entries@, i as int),
        decreases entries@.len() - i,
    {
        let entry = &entries[i];
        if entry.is_file || entry.is_symlink {
            let from = path_join(source, entry.name.as_str());
            let to = path_join(destination, entry.name.as_str());
            let mut context = concat2("copy virtio-fs passthrough file ", from.as_str());
            context.append(" to ");
            context.append(to.as_str());
            push_under(&mut plan, Step::CopyFile { from, to }, context);
        }
        i = i + 1;
    }
    plan
}

/// The context of a passthrough directory that cannot be read.
pub fn passthrough_context(source: &str) -> (r: String)
    ensures
        r@ == "read virtio-fs passthrough "@ + source@,
{
    concat2("read virtio-fs passthrough ", source)
}

/// The directory of a container in a checkpoint.
pub open spec fn container_dir(checkpoint_dir: Seq<char>, id: Seq<char>) -> Seq<char> {
    joined(joined(checkpoint_dir, "containers"@), id)
}

/// The directory in which a restored sandbox keeps a container of a checkpoint.
pub open spec fn restore_dir(checkpoint_dir: Seq<char>, id: Seq<char>, sid: Seq<char>) -> Seq<
    char,
> {
    joined(joined(container_dir(checkpoint_dir, id), "restores"@), sid)
}

/// The directory of a container in a checkpoint.
fn container_path(checkpoint_dir: &str, id: &str) -> (r: String)
    ensures
        r@ == container_dir(checkpoint_dir@, id@),
{
    let containers = path_join(checkpoint_dir, "containers");
    path_join(containers.as_str(), id)
}

/// Copying the contents of a directory.
pub open spec fn tree_copy(source: Seq<char>, destination: Seq<char>) -> Step<Seq<char>> {
    Step::CopyTree { from: joined(source, "."@), to: destination }
}

/// The arguments with which `cp` copies the contents of a directory.
pub fn copy_rw_diff(from: &str, to: &str) -> (r: Vec<String>)
    ensures
        texts(r@) == seq!["-a"@, "--reflink=auto"@, from@, to@],
{
    let mut r: Vec<String> = Vec::new();
    r.push("-a".to_owned());
    r.push("--reflink=auto".to_owned());
    r.push(from.to_owned());
    r.push(to.to_owned());
    assert(texts(r@) =~= seq!["-a"@, "--reflink=auto"@, from@, to@]);
    r
}

/// The message for a copy that failed with a status.
pub fn copy_failed_message(status: &str) -> (r: String)
    ensures
        r@ == "copy overlay upperdir failed with "@ + status@,
{
    concat2("copy overlay upperdir failed with ", status)
}

/// What rebuilds the root file system of a container: a clone of the saved upper
/// directory, an overlay on it, and a mount of the overlay where the restored
/// guest looks for it.
pub open spec fn container_restore_plan(
    checkpoint_dir: Seq<char>,
    passthrough: Seq<char>,
    sid: Seq<char>,
    old_id: Seq<char>,
    lower_dirs: Seq<Seq<char>>,
) -> Seq<PlannedView> {
    let saved = joined(container_dir(checkpoint_dir, old_id), "rw-diff"@);
    let dir = restore_dir(checkpoint_dir, old_id, sid);
    let upper = joined(dir, "rw-diff"@);
    let work = joined(dir, "rw-work"@);
    let merged = joined(dir, "merged"@);
    let destination = joined(joined(passthrough, old_id), "rootfs"@);
    seq![
        under(Step::CreateDirAll { path: upper }, "clone checkpoint overlay upperdir"@),
        under(tree_copy(saved, upper), "clone checkpoint overlay upperdir"@),
        bare(Step::CreateDirAll { path: work }),
        bare(Step::CreateDirAll { path: merged }),
        under(
            Step::MountOverlay {
                target: merged,
                options: overlay_options(lower_dirs, upper, work),
            },
            "mount restored overlay "@ + merged,
        ),
        bare(Step::CreateDirAll { path: destination }),
        under(
            Step::Bind { source: merged, target: destination },
            "bind restored rootfs "@ + merged + " to "@ + destination,
        ),
    ]
}

/// What rebuilds the root file systems of the first `n` containers.
pub open spec fn containers_restore_plan<T>(
    checkpoint_dir: Seq<char>,
    passthrough: Seq<char>,
    sid: Seq<char>,
    containers: Seq<CheckpointContainerMetadata<T>>,
    n: int,
) -> Seq<PlannedView>
    decreases n,
{
    if n <= 0 {
        Seq::empty()
    } else {
        containers_restore_plan(checkpoint_dir, passthrough, sid, containers, n - 1)
            + container_restore_plan(
            checkpoint_dir,
            passthrough,
            sid,
            containers[n - 1].old_id@,
            texts(containers[n - 1].lower_dirs@),
        )
    }
}

/// What rebuilds the file systems of a restored sandbox: the files that were
/// shared directly, and the root file systems of its containers.
pub open spec fn rootfs_restore_plan<T>(
    checkpoint_dir: Seq<char>,
    share_path: Seq<char>,
    sid: Seq<char>,
    containers: Seq<CheckpointContainerMetadata<T>>,
) -> Seq<PlannedView> {
    let passthrough = joined(share_path, "passthrough"@);
    seq![
        under(
            Step::CopyPassthrough {
                from: joined(checkpoint_dir, "share-passthrough"@),
                to: passthrough,
            },
            "restore virtio-fs passthrough files"@,
        ),
    ] + containers_restore_plan(
        checkpoint_dir,
        passthrough,
        sid,
        containers,
        containers.len() as int,
    )
}

/// Adds the steps that rebuild the root file system of a container.
fn push_container_restore(
    plan: &mut Vec<PlannedStep>,
    checkpoint_dir: &str,
    passthrough: &str,
    sid: &str,
    old_id: &str,
    lower_dirs: &Vec<String>,
)
    ensures
        plan_view(final(plan)@) == plan_view(old(plan)@) + container_restore_plan(
            checkpoint_dir@,
            passthrough@,
            sid@,
            old_id@,
            texts(lower_dirs@),
        ),
{
    let ghost before = plan_view(plan@);
    let own_dir = container_path(checkpoint_dir, old_id);
    let restores = path_join(own_dir.as_str(), "restores");
    let dir = path_join(restores.as_str(), sid);
    let saved = path_join(own_dir.as_str(), "rw-diff");
    let upper = path_join(dir.as_str(), "rw-diff");
    let work = path_join(dir.as_str(), "rw-work");
    let merged = path_join(dir.as_str(), "merged");
    let shared = path_join(passthrough, old_id);
    let destination = path_join(shared.as_str(), "rootfs");
    let options = overlay_mount_options(lower_dirs, upper.as_str(), work.as_str());
    push_under(
        plan,
        Step::CreateDirAll { path: upper.clone() },
        "clone checkpoint overlay upperdir".to_owned(),
    );
    push_under(
        plan,
        Step::CopyTree { from: path_join(saved.as_str(), "."), to: upper },
        "clone checkpoint overlay upperdir".to_owned(),
    );
    push_bare(plan, Step::CreateDirAll { path: work });
    push_bare(plan, Step::CreateDirAll { path: merged.clone() });
    push_under(
        plan,
        Step::MountOverlay { target: merged.clone(), options },
        concat2("mount restored overlay ", merged.as_str()),
    );
    push_bare(plan, Step::CreateDirAll { path: destination.clone() });
    let mut context = concat2("bind restored rootfs ", merged.as_str());
    context.append(" to ");
    context.append(destination.as_str());
    push_under(plan, Step::Bind { source: merged, target: destination }, context);
    assert(plan_view(plan@) =~= before + container_restore_plan(
        checkpoint_dir@,
        passthrough@,
        sid@,
        old_id@,
        texts(lower_dirs@),
    ));
}

impl VirtSandbox {
    /// Plans to rebuild the file systems of this sandbox from a checkpoint;
    /// `share_path` is the directory that it shares with its guest.
    pub fn prepare_restored_rootfs<T>(
        &self,
        checkpoint_dir: &str,
        share_path: &str,
        metadata: &CheckpointMetadata<T>,
    ) -> (r: Vec<PlannedStep>)
        ensures
            plan_view(r@) == rootfs_restore_plan(
                checkpoint_dir@,
                share_path@,
                self.sid@,
                metadata.containers@,
            ),
    {
        let passthrough = path_join(share_path, "passthrough");
        let mut plan = empty_plan();
        push_under(
            &mut plan,
            Step::CopyPassthrough {
                from: path_join(checkpoint_dir, "share-passthrough"),
                to: passthrough.clone(),
            },
            "restore virtio-fs passthrough files".to_owned(),
        );
        let ghost start = plan_view(plan@);
        let ghost containers = metadata.containers@;
        let mut i: usize = 0;
        assert(start =~= start + containers_restore_plan(
            checkpoint_dir@,
            passthrough@,
            self.sid@,
            containers,
            0,
        ));
        while i < metadata.containers.len()
            invariant
                i <= metadata.containers@.len(),
                containers == metadata.containers@,
                plan_view(plan@) == start + containers_restore_plan(
                    checkpoint_dir@,
                    passthrough@,
                    self.sid@,
                    containers,
                    i as int,
                ),
            decreases metadata.containers@.len() - i,
        {
            let container = &metadata.containers[i];
            push_container_restore(
                &mut plan,
                checkpoint_dir,
                passthrough.as_str(),
                self.sid.as_str(),
                container.old_id.as_str(),
                &container.lower_dirs,
            );
            assert(plan_view(plan@) =~= start + containers_restore_plan(
                checkpoint_dir@,
                passthrough@,
                self.sid@,
                containers,
                i + 1,
            ));
            i = i + 1;
        }
        assert(plan_view(plan@) =~= rootfs_restore_plan(
            checkpoint_dir@,
            share_path@,
            self.sid@,
            metadata.containers@,
        ));
        plan
    }
}

/// What saves a container: a copy of its upper directory, and the directories
/// that an overlay on it needs.
pub open spec fn container_save_plan(
    output_path: Seq<char>,
    id: Seq<char>,
    upper_dir: Seq<char>,
) -> Seq<PlannedView> {
    let dir = container_dir(output_path, id);
    let saved = joined(dir, "rw-diff"@);
    seq![
        bare(Step::CreateDirAll { path: saved }),
        bare(tree_copy(upper_dir, saved)),
        bare(Step::CreateDirAll { path: joined(dir, "rw-work"@) }),
        bare(Step::CreateDirAll { path: joined(dir, "merged"@) }),
    ]
}

impl<M> VirtCheckpointRestore<VirtSandbox, M> {
    /// Accepts a request for a checkpoint: it must name this sandbox, and where
    /// to put the checkpoint.
    pub fn validate_checkpoint_sandbox(&self, req: &CheckpointSandboxRequest) -> (r: Result<
        (),
        String,
    >)
        ensures
            match r {
                Ok(_) => req.sandbox_id@ == self.sandbox.sid@ && req.output_path@.len() > 0,
                Err(e) => if req.sandbox_id@ != self.sandbox.sid@ {
                    e@ == "checkpoint sandbox id "@ + req.sandbox_id@ + " does not match "@
                        + self.sandbox.sid@
                } else {
                    req.output_path@.len() == 0 && e@ == "checkpoint output path is empty"@
                },
            },
    {
        if !same_text(req.sandbox_id.as_str(), self.sandbox.sid.as_str()) {
            let mut e = concat2("checkpoint sandbox id ", req.sandbox_id.as_str());
            e.append(" does not match ");
            e.append(self.sandbox.sid.as_str());
            return Err(e);
        }
        if req.output_path.as_str().is_empty() {
            return Err("checkpoint output path is empty".to_owned());
        }
        Ok(())
    }

    /// The metadata of a checkpoint of this sandbox, without its containers.
    pub fn start_metadata<T>(&self, agent_socket: String) -> (r: CheckpointMetadata<T>)
        ensures
            r.version == 1,
            r.sandbox_id@ == self.sandbox.sid@,
            r.agent_socket == agent_socket,
            r.containers@.len() == 0,
    {
        CheckpointMetadata {
            version: 1,
            sandbox_id: self.sandbox.sid.clone(),
            agent_socket,
            containers: Vec::new(),
        }
    }

    /// Plans to save a container, and says what the metadata keeps of it. The
    /// mount table is looked at only where the mounts name no upper directory.
    pub fn checkpoint_container<T>(
        output_path: &str,
        container_id: &str,
        bundle: String,
        rootfs_mounts: Vec<Mount>,
        mountinfo: &str,
        spec: T,
    ) -> (r: Result<(Vec<PlannedStep>, CheckpointContainerMetadata<T>), OverlayNotFound>)
        ensures
            match (r, rootfs_layers(bundle@, rootfs_mounts@, mountinfo@)) {
                (Ok((plan, kept)), Some((lowers, upper))) => {
                    &&& plan_view(plan@) == container_save_plan(
                        output_path@,
                        container_id@,
                        upper,
                    )
                    &&& kept.old_id@ == container_id@
                    &&& kept.bundle == bundle
                    &&& kept.rootfs_mounts == rootfs_mounts
                    &&& texts(kept.lower_dirs@) == lowers
                    &&& kept.spec == spec
                },
                (Err(e), None) => e.bundle@ == bundle@,
                _ => false,
            },
    {
        let (lower_dirs, upper_dir) = match rootfs_overlay_paths(
            bundle.as_str(),
            &rootfs_mounts,
            mountinfo,
        ) {
            Ok(layers) => layers,
            Err(e) => {
                return Err(e);
            },
        };
        let dir = container_path(output_path, container_id);
        let saved = path_join(dir.as_str(), "rw-diff");
        let mut plan = empty_plan();
        push_bare(&mut plan, Step::CreateDirAll { path: saved.clone() });
        push_bare(
            &mut plan,
            Step::CopyTree { from: path_join(upper_dir.as_str(), "."), to: saved },
        );
        push_bare(&mut plan, Step::CreateDirAll { path: path_join(dir.as_str(), "rw-work") });
        push_bare(&mut plan, Step::CreateDirAll { path: path_join(dir.as_str(), "merged") });
        assert(plan_view(plan@) =~= container_save_plan(
            output_path@,
            container_id@,
            upper_dir@,
        ));
        let kept = CheckpointContainerMetadata {
            old_id: container_id.to_owned(),
            bundle,
            rootfs_mounts,
            lower_dirs,
            spec,
        };
        Ok((plan, kept))
    }

    /// Restoring a sandbox as a whole is not offered.
    pub fn restore_sandbox(&self) -> (r: Result<(), String>)
        ensures
            r matches Err(e) && e@ == "restore is not implemented yet"@,
    {
        Err("restore is not implemented yet".to_owned())
    }

    /// Preparing to restore a sandbox as a whole is not offered.
    pub fn prepare_restore_sandbox(&self) -> (r: Result<(), String>)
        ensures
            r matches Err(e) && e@ == "restore prepare is not implemented yet"@,
    {
        Err("restore prepare is not implemented yet".to_owned())
    }

    /// Completing the restore of a sandbox as a whole is not offered.
    pub fn complete_restore_sandbox(&self) -> (r: Result<(), String>)
        ensures
            r matches Err(e) && e@ == "restore complete is not implemented yet"@,
    {
        Err("restore complete is not implemented yet".to_owned())
    }

    /// Adopting tasks is not offered.
    pub fn restore_tasks(&self) -> (r: Result<(), String>)
        ensures
            r matches Err(e) && e@ == "task adoption is not implemented yet"@,
    {
        Err("task adoption is not implemented yet".to_owned())
    }
}

/// Whether a path lies at or below a directory.
pub open spec fn lies_in(dir: Seq<char>, path: Seq<char>) -> bool {
    components(dir).is_prefix_of(components(path))
}

/// What lies in a directory below another one lies in that one too.
proof fn lemma_lies_in(dir: Seq<char>, name: Seq<char>, path: Seq<char>)
    requires
        dir.len() > 0,
        is_name(name),
        lies_in(joined(dir, name), path),
    ensures
        lies_in(dir, path),
        components(path).len() > components(dir).len(),
        components(path)[components(dir).len() as int] == name,
{
    lemma_joined_name(dir, name);
    let outer = components(dir);
    let inner = outer.push(name);
    let all = components(path);
    assert(inner =~= all.subrange(0, inner.len() as int));
    assert(outer =~= all.subrange(0, outer.len() as int)) by {
        assert forall|i: int| 0 <= i < outer.len() implies outer[i] == all[i] by {
            assert(inner[i] == all.subrange(0, inner.len() as int)[i]);
        }
    }
    assert(all.subrange(0, inner.len() as int)[outer.len() as int] == name);
}

/// A directory holds what is named in it.
proof fn lemma_holds(dir: Seq<char>, name: Seq<char>)
    requires
        dir.len() > 0,
        is_name(name),
    ensures
        lies_in(dir, joined(dir, name)),
        joined(dir, name).len() > 0,
{
    lemma_joined_name(dir, name);
    let parts = components(dir);
    assert(parts.push(name).subrange(0, parts.len() as int) =~= parts);
}

/// The names in a checkpoint are names, and different ones.
proof fn lemma_names()
    ensures
        is_name("containers"@),
        is_name("restores"@),
        is_name("rw-diff"@),
        is_name("rw-work"@),
        is_name("merged"@),
        is_name("rootfs"@),
        is_name("passthrough"@),
        "restores"@ != "rw-diff"@,
{
    reveal_strlit("containers");
    reveal_strlit("restores");
    reveal_strlit("rw-diff");
    reveal_strlit("rw-work");
    reveal_strlit("merged");
    reveal_strlit("rootfs");
    reveal_strlit("passthrough");
    assert("restores"@.len() == 8 && "rw-diff"@.len() == 7);
    assert("containers"@.len() == 10 && "merged"@.len() == 6);
    assert("rw-work"@.len() == 7 && "rootfs"@.len() == 6 && "passthrough"@.len() == 11);
}

/// Rebuilding the root file system of a container writes to the directory of
/// the new sandbox and to its share only, and never to the saved upper
/// directory: the checkpoint can be restored again.
pub proof fn law_saved_overlay_is_not_written(
    checkpoint_dir: Seq<char>,
    passthrough: Seq<char>,
    sid: Seq<char>,
    old_id: Seq<char>,
    lower_dirs: Seq<Seq<char>>,
    i: int,
)
    requires
        checkpoint_dir.len() > 0,
        passthrough.len() > 0,
        is_name(sid),
        is_name(old_id),
        0 <= i < container_restore_plan(checkpoint_dir, passthrough, sid, old_id, lower_dirs).len(),
    ensures
        written(
            container_restore_plan(checkpoint_dir, passthrough, sid, old_id, lower_dirs)[i].step,
        ) matches Some(path) ==> {
            ||| lies_in(passthrough, path)
            ||| lies_in(restore_dir(checkpoint_dir, old_id, sid), path) && !lies_in(
                joined(container_dir(checkpoint_dir, old_id), "rw-diff"@),
                path,
            )
        },
{
    lemma_names();
    let containers = joined(checkpoint_dir, "containers"@);
    let own = container_dir(checkpoint_dir, old_id);
    let restores = joined(own, "restores"@);
    let dir = restore_dir(checkpoint_dir, old_id, sid);
    let shared = joined(passthrough, old_id);
    lemma_holds(checkpoint_dir, "containers"@);
    lemma_holds(containers, old_id);
    lemma_holds(own, "restores"@);
    lemma_holds(restores, sid);
    lemma_holds(dir, "rw-diff"@);
    lemma_holds(dir, "rw-work"@);
    lemma_holds(dir, "merged"@);
    lemma_holds(passthrough, old_id);
    lemma_holds(shared, "rootfs"@);
    lemma_lies_in(passthrough, old_id, joined(shared, "rootfs"@));
    if let Some(path) = written(
        container_restore_plan(checkpoint_dir, passthrough, sid, old_id, lower_dirs)[i].step,
    ) {
        if lies_in(dir, path) {
            lemma_lies_in(restores, sid, path);
            lemma_lies_in(own, "restores"@, path);
            if lies_in(joined(own, "rw-diff"@), path) {
                lemma_lies_in(own, "rw-diff"@, path);
            }
        }
    }
}

/// Two sandboxes restored from one checkpoint share no directory.
pub proof fn law_restores_do_not_share(
    checkpoint_dir: Seq<char>,
    old_id: Seq<char>,
    sid: Seq<char>,
    other_sid: Seq<char>,
    path: Seq<char>,
)
    requires
        checkpoint_dir.len() > 0,
        is_name(old_id),
        is_name(sid),
        is_name(other_sid),
        sid != other_sid,
    ensures
        !(lies_in(restore_dir(checkpoint_dir, old_id, sid), path) && lies_in(
            restore_dir(checkpoint_dir, old_id, other_sid),
            path,
        )),
{
    lemma_names();
    let containers = joined(checkpoint_dir, "containers"@);
    let own = container_dir(checkpoint_dir, old_id);
    let restores = joined(own, "restores"@);
    lemma_holds(checkpoint_dir, "containers"@);
    lemma_holds(containers, old_id);
    lemma_holds(own, "restores"@);
    if lies_in(restore_dir(checkpoint_dir, old_id, sid), path) && lies_in(
        restore_dir(checkpoint_dir, old_id, other_sid),
        path,
    ) {
        lemma_lies_in(restores, sid, path);
        lemma_lies_in(restores, other_sid, path);
    }
}

/// A restore clones what the checkpoint copied, and shows the restored guest
/// the files that were shared when the checkpoint was taken.
pub proof fn law_restore_reads_what_was_saved<T>(
    checkpoint_dir: Seq<char>,
    share_path: Seq<char>,
    sid: Seq<char>,
    upper_dir: Seq<char>,
    containers: Seq<CheckpointContainerMetadata<T>>,
    k: int,
)
    requires
        0 <= k < containers.len(),
    ensures
        ({
            let id = containers[k].old_id@;
            let saved = joined(container_dir(checkpoint_dir, id), "rw-diff"@);
            let save = container_save_plan(checkpoint_dir, id, upper_dir);
            let restore = container_restore_plan(
                checkpoint_dir,
                joined(share_path, "passthrough"@),
                sid,
                id,
                texts(containers[k].lower_dirs@),
            );
            &&& save[1].step == tree_copy(upper_dir, saved)
            &&& restore[1].step == tree_copy(
                saved,
                joined(restore_dir(checkpoint_dir, id, sid), "rw-diff"@),
            )
        }),
        rootfs_restore_plan(checkpoint_dir, share_path, sid, containers)[0].step == (
        Step::CopyPassthrough {
            from: joined(checkpoint_dir, "share-passthrough"@),
            to: joined(share_path, "passthrough"@),
        }),
{
}

/// Every step of rebuilding containers belongs to one of them.
proof fn lemma_step_of_container<T>(
    checkpoint_dir: Seq<char>,
    passthrough: Seq<char>,
    sid: Seq<char>,
    containers: Seq<CheckpointContainerMetadata<T>>,
    n: int,
    i: int,
) -> (r: (int, int))
    requires
        0 <= n <= containers.len(),
        0 <= i < containers_restore_plan(checkpoint_dir, passthrough, sid, containers, n).len(),
    ensures
        0 <= r.0 < n,
        ({
            let own = container_restore_plan(
                checkpoint_dir,
                passthrough,
                sid,
                containers[r.0].old_id@,
                texts(containers[r.0].lower_dirs@),
            );
            0 <= r.1 < own.len() && containers_restore_plan(
                checkpoint_dir,
                passthrough,
                sid,
                containers,
                n,
            )[i] == own[r.1]
        }),
    decreases n,
{
    let before = containers_restore_plan(checkpoint_dir, passthrough, sid, containers, n - 1);
    if n == 0 {
        (0, 0)
    } else if i < before.len() {
        lemma_step_of_container(checkpoint_dir, passthrough, sid, containers, n - 1, i)
    } else {
        (n - 1, i - before.len())
    }
}

/// Whether a path lies in the directory that a sandbox has for a container of a
/// checkpoint.
pub open spec fn in_own_restore<T>(
    checkpoint_dir: Seq<char>,
    sid: Seq<char>,
    containers: Seq<CheckpointContainerMetadata<T>>,
    path: Seq<char>,
) -> bool {
    exists|k: int|
        0 <= k < containers.len() && lies_in(
            restore_dir(checkpoint_dir, (#[trigger] containers[k]).old_id@, sid),
            path,
        )
}

/// What lies in the directory of a sandbox for a container lies in the saved
/// upper directory of no container, and in the directory of no other sandbox.
proof fn lemma_restore_dir_is_apart(
    checkpoint_dir: Seq<char>,
    sid: Seq<char>,
    id: Seq<char>,
    other_id: Seq<char>,
    path: Seq<char>,
)
    requires
        checkpoint_dir.len() > 0,
        is_name(sid),
        is_name(id),
        is_name(other_id),
        lies_in(restore_dir(checkpoint_dir, id, sid), path),
    ensures
        !lies_in(joined(container_dir(checkpoint_dir, other_id), "rw-diff"@), path),
        forall|other_sid: Seq<char>|
            is_name(other_sid) && other_sid != sid ==> !#[trigger] lies_in(
                restore_dir(checkpoint_dir, other_id, other_sid),
                path,
            ),
{
    lemma_names();
    let all = joined(checkpoint_dir, "containers"@);
    let own = container_dir(checkpoint_dir, id);
    let other = container_dir(checkpoint_dir, other_id);
    lemma_holds(checkpoint_dir, "containers"@);
    lemma_holds(all, id);
    lemma_holds(all, other_id);
    lemma_holds(own, "restores"@);
    lemma_holds(other, "restores"@);
    lemma_lies_in(joined(own, "restores"@), sid, path);
    lemma_lies_in(own, "restores"@, path);
    lemma_lies_in(all, id, path);
    if lies_in(joined(other, "rw-diff"@), path) {
        lemma_lies_in(other, "rw-diff"@, path);
        lemma_lies_in(all, other_id, path);
        assert(id == other_id);
    }
    assert forall|other_sid: Seq<char>|
        is_name(other_sid) && other_sid != sid implies !#[trigger] lies_in(
        restore_dir(checkpoint_dir, other_id, other_sid),
        path,
    ) by {
        if lies_in(restore_dir(checkpoint_dir, other_id, other_sid), path) {
            lemma_lies_in(joined(other, "restores"@), other_sid, path);
            lemma_lies_in(other, "restores"@, path);
            lemma_lies_in(all, other_id, path);
            assert(id == other_id);
        }
    }
}

/// All that a restore writes is kept apart under the id of the new sandbox: it
/// lies in the share of that sandbox, or in the directory that the sandbox has
/// for one of the containers.
pub proof fn law_restores_write_under_their_id<T>(
    checkpoint_dir: Seq<char>,
    share_path: Seq<char>,
    sid: Seq<char>,
    containers: Seq<CheckpointContainerMetadata<T>>,
    i: int,
)
    requires
        checkpoint_dir.len() > 0,
        share_path.len() > 0,
        is_name(sid),
        forall|k: int| 0 <= k < containers.len() ==> is_name((#[trigger] containers[k]).old_id@),
        0 <= i < rootfs_restore_plan(checkpoint_dir, share_path, sid, containers).len(),
    ensures
        written(
            rootfs_restore_plan(checkpoint_dir, share_path, sid, containers)[i].step,
        ) matches Some(path) ==> lies_in(joined(share_path, "passthrough"@), path)
            || in_own_restore(checkpoint_dir, sid, containers, path),
{
    lemma_names();
    let passthrough = joined(share_path, "passthrough"@);
    lemma_holds(share_path, "passthrough"@);
    let plan = rootfs_restore_plan(checkpoint_dir, share_path, sid, containers);
    let n = containers.len() as int;
    if i == 0 {
        let parts = components(passthrough);
        assert(parts.subrange(0, parts.len() as int) =~= parts);
    } else {
        let rest = containers_restore_plan(checkpoint_dir, passthrough, sid, containers, n);
        assert(plan[i] == rest[i - 1]);
        let (k, m) = lemma_step_of_container(
            checkpoint_dir,
            passthrough,
            sid,
            containers,
            n,
            i - 1,
        );
        assert(is_name(containers[k].old_id@));
        law_saved_overlay_is_not_written(
            checkpoint_dir,
            passthrough,
            sid,
            containers[k].old_id@,
            texts(containers[k].lower_dirs@),
            m,
        );
    }
}

/// The checkpoint stays reusable: outside the share of the new sandbox, a
/// restore writes to the saved upper directory of no container, and to nothing
/// that a restore for another sandbox has made.
pub proof fn law_checkpoint_stays_reusable<T>(
    checkpoint_dir: Seq<char>,
    share_path: Seq<char>,
    sid: Seq<char>,
    other_sid: Seq<char>,
    containers: Seq<CheckpointContainerMetadata<T>>,
    i: int,
    j: int,
)
    requires
        checkpoint_dir.len() > 0,
        share_path.len() > 0,
        is_name(sid),
        is_name(other_sid),
        sid != other_sid,
        forall|k: int| 0 <= k < containers.len() ==> is_name((#[trigger] containers[k]).old_id@),
        0 <= i < rootfs_restore_plan(checkpoint_dir, share_path, sid, containers).len(),
        0 <= j < containers.len(),
    ensures
        written(
            rootfs_restore_plan(checkpoint_dir, share_path, sid, containers)[i].step,
        ) matches Some(path) ==> {
            ||| lies_in(joined(share_path, "passthrough"@), path)
            ||| {
                &&& !lies_in(
                    joined(container_dir(checkpoint_dir, containers[j].old_id@), "rw-diff"@),
                    path,
                )
                &&& !lies_in(
                    restore_dir(checkpoint_dir, containers[j].old_id@, other_sid),
                    path,
                )
            }
        },
{
    law_restores_write_under_their_id(checkpoint_dir, share_path, sid, containers, i);
    if let Some(path) = written(
        rootfs_restore_plan(checkpoint_dir, share_path, sid, containers)[i].step,
    ) {
        if !lies_in(joined(share_path, "passthrough"@), path) {
            let k = choose|k: int|
                0 <= k < containers.len() && lies_in(
                    restore_dir(checkpoint_dir, (#[trigger] containers[k]).old_id@, sid),
                    path,
                );
            lemma_restore_dir_is_apart(
                checkpoint_dir,
                sid,
                containers[k].old_id@,
                containers[j].old_id@,
                path,
            );
        }
    }
}

/// What a restore clones is what the checkpoint saved of a container, never what
/// another restore has made of it.
pub proof fn law_restores_clone_what_was_saved<T>(
    checkpoint_dir: Seq<char>,
    share_path: Seq<char>,
    sid: Seq<char>,
    containers: Seq<CheckpointContainerMetadata<T>>,
    i: int,
)
    requires
        0 <= i < rootfs_restore_plan(checkpoint_dir, share_path, sid, containers).len(),
    ensures
        rootfs_restore_plan(checkpoint_dir, share_path, sid, containers)[i].step matches
            Step::CopyTree { from, to } ==> exists|k: int|
            0 <= k < containers.len() && from == joined(
                joined(
                    container_dir(checkpoint_dir, (#[trigger] containers[k]).old_id@),
                    "rw-diff"@,
                ),
                "."@,
            ) && to == joined(
                restore_dir(checkpoint_dir, containers[k].old_id@, sid),
                "rw-diff"@,
            ),
{
    let passthrough = joined(share_path, "passthrough"@);
    let plan = rootfs_restore_plan(checkpoint_dir, share_path, sid, containers);
    let n = containers.len() as int;
    if i > 0 {
        let rest = containers_restore_plan(checkpoint_dir, passthrough, sid, containers, n);
        assert(plan[i] == rest[i - 1]);
        let (k, m) = lemma_step_of_container(
            checkpoint_dir,
            passthrough,
            sid,
            containers,
            n,
            i - 1,
        );
        assert(containers[k] == containers[k]);
    }
}

/// The overlay of a restored container names the layers that it was rebuilt
/// from: a checkpoint of the restored sandbox finds the saved lower directories
/// and the clone of the upper one.
pub proof fn law_restored_overlay_names_its_layers(
    checkpoint_dir: Seq<char>,
    passthrough: Seq<char>,
    sid: Seq<char>,
    old_id: Seq<char>,
    lower_dirs: Seq<Seq<char>>,
)
    requires
        lower_dirs.len() > 0,
        forall|i: int|
            0 <= i < lower_dirs.len() ==> !(#[trigger] lower_dirs[i]).contains(',')
                && !lower_dirs[i].contains(':'),
        !joined(restore_dir(checkpoint_dir, old_id, sid), "rw-diff"@).contains(','),
        !joined(restore_dir(checkpoint_dir, old_id, sid), "rw-work"@).contains(','),
    ensures
        container_restore_plan(checkpoint_dir, passthrough, sid, old_id, lower_dirs)[4].step matches
            Step::MountOverlay { target, options } && layers_of(split_on(options, ',')) == Some(
            (lower_dirs, joined(restore_dir(checkpoint_dir, old_id, sid), "rw-diff"@)),
        ),
{
    law_options_name_the_layers(
        lower_dirs,
        joined(restore_dir(checkpoint_dir, old_id, sid), "rw-diff"@),
        joined(restore_dir(checkpoint_dir, old_id, sid), "rw-work"@),
    );
}

/// Copying passthrough files reads from the one directory and writes to the
/// other, under the same name.
pub proof fn law_passthrough_keeps_names(
    source: Seq<char>,
    destination: Seq<char>,
    entries: Seq<DirEntry>,
    n: int,
    i: int,
)
    requires
        0 <= n <= entries.len(),
        0 <= i < passthrough_copies(source, destination, entries, n).len(),
    ensures
        exists|k: int|
            0 <= k < n && is_passthrough(#[trigger] entries[k]) && passthrough_copies(
                source,
                destination,
                entries,
                n,
            )[i].step == (Step::CopyFile {
                from: joined(source, entries[k].name@),
                to: joined(destination, entries[k].name@),
            }),
    decreases n,
{
    let before = passthrough_copies(source, destination, entries, n - 1);
    if n > 0 {
        if i < before.len() {
            law_passthrough_keeps_names(source, destination, entries, n - 1, i);
        } else {
            assert(is_passthrough(entries[n - 1]));
        }
    }
}

} // verus!
