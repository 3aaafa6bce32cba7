//! The files of a snapshot: where they are, and how they get there.

use vstd::prelude::*;

use crate::block_disks::within;
use crate::disk_restore::{clone_path, is_disk_id, lemma_clone_name};
use crate::hypervisor::CloudHypervisorInner;
use crate::plan::{
    append_plan, bare, empty_plan, plan_view, push_bare, push_under, push_under2, under, under2,
    written, PlannedStep, PlannedView, Step,
};
use crate::text::{concat2, opt_text, texts};
use crate::unix_path::{
    components, has_parent, is_name, is_parent, joined, lemma_joined_name, parent_of, path_join,
    path_parent,
};

verus! {

/// The mode of directories that are made for a VM.
pub const VM_DIR_MODE: u32 = 0o750;

/// The mode of configuration files that are written.
pub const CONFIG_FILE_MODE: u32 = 0o600;

/// What a missing template directory is reported as.
pub open spec fn no_template_dir() -> Seq<char> {
    "template memory path has no parent directory"@
}

/// Copying a file with its permissions, under a further context.
pub open spec fn artifact_copy(from: Seq<char>, to: Seq<char>, context: Seq<char>) -> Seq<
    PlannedView,
> {
    seq![
        under2(Step::ReadPermissions { path: from }, "stat "@ + from, context),
        under2(Step::CopyFile { from, to }, "copy "@ + from + " to "@ + to, context),
        under2(Step::ApplyPermissions { path: to }, "set permissions on "@ + to, context),
    ]
}

/// Making the directory of a VM.
pub open spec fn vm_dir_step(vm_path: Seq<char>) -> PlannedView {
    under(
        Step::CreateOwnedDirAll { path: vm_path, mode: VM_DIR_MODE },
        "failed to create VM path "@ + vm_path,
    )
}

/// The files that a template must have: its memory, its state, and its
/// configuration.
pub open spec fn template_artifacts(memory_path: Seq<char>) -> Option<Seq<Seq<char>>> {
    match parent_of(memory_path) {
        None => None,
        Some(dir) => Some(
            seq![memory_path, joined(dir, "state.json"@), joined(dir, "config.json"@)],
        ),
    }
}

/// What prepares the restore from a template: copies of its configuration and
/// its state, the vsock socket of the configuration adapted.
pub open spec fn template_restore_plan(
    template_dir: Seq<char>,
    vm_path: Seq<char>,
    id: Seq<char>,
) -> Seq<PlannedView> {
    let dst_config = joined(vm_path, "config.json"@);
    seq![vm_dir_step(vm_path)] + artifact_copy(
        joined(template_dir, "config.json"@),
        dst_config,
        "copy template config"@,
    ) + artifact_copy(
        joined(template_dir, "state.json"@),
        joined(vm_path, "state.json"@),
        "copy template state"@,
    ) + seq![
        under(
            Step::AdaptVsock { config: dst_config, sandbox_id: id },
            "update restore vsock socket path"@,
        ),
    ]
}

/// Checking that an artifact of a checkpoint can be reached.
pub open spec fn artifact_access(path: Seq<char>) -> PlannedView {
    under(Step::Access { path }, "access checkpoint artifact "@ + path)
}

/// What prepares the restore of a checkpoint: copies of its configuration and
/// its state, its disks, a link to its memory, and the runtime paths of the
/// configuration adapted.
pub open spec fn checkpoint_restore_plan(
    checkpoint_dir: Seq<char>,
    vm_path: Seq<char>,
    id: Seq<char>,
    boot_image: Seq<char>,
) -> Seq<PlannedView> {
    let src_config = joined(checkpoint_dir, "config.json"@);
    let src_state = joined(checkpoint_dir, "state.json"@);
    let src_memory = joined(checkpoint_dir, "memory-ranges"@);
    let dst_config = joined(vm_path, "config.json"@);
    let dst_state = joined(vm_path, "state.json"@);
    let dst_memory = joined(vm_path, "memory-ranges"@);
    seq![
        vm_dir_step(vm_path),
        artifact_access(src_config),
        artifact_access(src_state),
        artifact_access(src_memory),
    ] + artifact_copy(src_config, dst_config, "copy checkpoint config"@) + artifact_copy(
        src_state,
        dst_state,
        "copy checkpoint state"@,
    ) + seq![
        under(
            Step::RestoreDisks { checkpoint_dir, config: dst_config, vm_path, boot_image },
            "prepare checkpoint block disks"@,
        ),
        bare(Step::RefuseExisting { path: dst_memory }),
        under(Step::Resolve { path: src_memory }, "canonicalize "@ + src_memory),
        under(
            Step::LinkToResolved { link: dst_memory },
            "link checkpoint memory "@ + src_memory + " to "@ + dst_memory,
        ),
        bare(Step::AdaptRuntimePaths { config: dst_config, sandbox_id: id }),
    ]
}

/// What writes a snapshot into a directory.
pub open spec fn snapshot_plan(dir: Seq<char>) -> Seq<PlannedView> {
    seq![
        bare(Step::Snapshot { destination_url: "file://"@ + dir }),
        under(
            Step::Access { path: joined(dir, "config.json"@) },
            "snapshot did not create "@ + joined(dir, "config.json"@),
        ),
        under(
            Step::Access { path: joined(dir, "state.json"@) },
            "snapshot did not create "@ + joined(dir, "state.json"@),
        ),
    ]
}

/// What writes a template: a snapshot whose memory is marked as private.
pub open spec fn template_save_plan(dir: Seq<char>, to_be_template: bool) -> Seq<PlannedView> {
    if to_be_template {
        snapshot_plan(dir).push(
            under(
                Step::MarkMemory { config: joined(dir, "config.json"@), shared: false },
                "patch snapshot memory sharing"@,
            ),
        )
    } else {
        snapshot_plan(dir)
    }
}

/// What writes a checkpoint: a snapshot in a directory that must be new.
pub open spec fn checkpoint_save_plan(dir: Seq<char>) -> Seq<PlannedView> {
    let parents = match parent_of(dir) {
        Some(parent) => seq![
            under(
                Step::CreateDirAll { path: parent },
                "create Cloud Hypervisor checkpoint parent "@ + parent,
            ),
        ],
        None => Seq::empty(),
    };
    parents.push(
        under(
            Step::CreateDir { path: dir },
            "create Cloud Hypervisor checkpoint directory "@ + dir,
        ),
    ) + snapshot_plan(dir).push(
        under(
            Step::Access { path: joined(dir, "memory-ranges"@) },
            "snapshot did not create "@ + joined(dir, "memory-ranges"@),
        ),
    )
}

/// `a`, `b`, `c` and `d`, one after the other.
fn concat4(a: &str, b: &str, c: &str, d: &str) -> (r: String)
    ensures
        r@ == a@ + b@ + c@ + d@,
{
    let mut r = concat2(a, b);
    r.append(c);
    r.append(d);
    r
}

/// Adds the step that makes the directory of a VM.
fn push_vm_dir(plan: &mut Vec<PlannedStep>, vm_path: &str)
    ensures
        plan_view(final(plan)@) == plan_view(old(plan)@).push(vm_dir_step(vm_path@)),
{
    push_under(
        plan,
        Step::CreateOwnedDirAll { path: vm_path.to_owned(), mode: VM_DIR_MODE },
        concat2("failed to create VM path ", vm_path),
    );
}

/// Adds the step that checks an artifact of a checkpoint.
fn push_artifact_access(plan: &mut Vec<PlannedStep>, path: &str)
    ensures
        plan_view(final(plan)@) == plan_view(old(plan)@).push(artifact_access(path@)),
{
    push_under(
        plan,
        Step::Access { path: path.to_owned() },
        concat2("access checkpoint artifact ", path),
    );
}

/// Adds the step that checks a file of a snapshot.
fn push_snapshot_file(plan: &mut Vec<PlannedStep>, dir: &str, name: &str)
    ensures
        plan_view(final(plan)@) == plan_view(old(plan)@).push(
            under(
                Step::Access { path: joined(dir@, name@) },
                "snapshot did not create "@ + joined(dir@, name@),
            ),
        ),
{
    let path = path_join(dir, name);
    let context = concat2("snapshot did not create ", path.as_str());
    push_under(plan, Step::Access { path }, context);
}

impl CloudHypervisorInner {
    /// The directory of the template: that of its memory file.
    pub fn template_dir(&self) -> (r: Option<String>)
        ensures
            opt_text(r) == parent_of(self.config.vm_template.memory_path@),
            r is Some <==> has_parent(self.config.vm_template.memory_path@),
            r matches Some(dir) ==> is_parent(self.config.vm_template.memory_path@, dir@),
    {
        path_parent(self.config.vm_template.memory_path.as_str())
    }

    /// The files that must be reached for a restore from the template.
    pub fn template_files(&self) -> (r: Option<Vec<String>>)
        ensures
            match r {
                Some(files) => template_artifacts(self.config.vm_template.memory_path@) == Some(
                    texts(files@),
                ),
                None => template_artifacts(self.config.vm_template.memory_path@) is None,
            },
    {
        match self.template_dir() {
            None => None,
            Some(dir) => {
                let mut files: Vec<String> = Vec::new();
                files.push(self.config.vm_template.memory_path.clone());
                files.push(path_join(dir.as_str(), "state.json"));
                files.push(path_join(dir.as_str(), "config.json"));
                assert(texts(files@) =~= seq![
                    self.config.vm_template.memory_path@,
                    joined(dir@, "state.json"@),
                    joined(dir@, "config.json"@),
                ]);
                Some(files)
            },
        }
    }

    /// Whether the VM is restored from its template, given which of the files
    /// of [`CloudHypervisorInner::template_files`] were reached.
    pub fn should_restore_from_template(&self, reached: &Vec<bool>) -> (r: bool)
        ensures
            r == (has_parent(self.config.vm_template.memory_path@) && reached@.len() == 3
                && forall|i: int| 0 <= i < reached@.len() ==> #[trigger] reached@[i]),
    {
        if self.template_dir().is_none() || reached.len() != 3 {
            return false;
        }
        let mut i: usize = 0;
        while i < reached.len()
            invariant
                i <= reached@.len(),
                forall|k: int| 0 <= k < i ==> #[trigger] reached@[k],
            decreases reached@.len() - i,
        {
            if !reached[i] {
                return false;
            }
            i = i + 1;
        }
        true
    }

    /// Plans to copy a file with its permissions.
    pub fn copy_template_artifact(from: &str, to: &str, context: &str) -> (r: Vec<PlannedStep>)
        ensures
            plan_view(r@) == artifact_copy(from@, to@, context@),
    {
        let mut plan = empty_plan();
        push_under2(
            &mut plan,
            Step::ReadPermissions { path: from.to_owned() },
            concat2("stat ", from),
            context.to_owned(),
        );
        push_under2(
            &mut plan,
            Step::CopyFile { from: from.to_owned(), to: to.to_owned() },
            concat4("copy ", from, " to ", to),
            context.to_owned(),
        );
        push_under2(
            &mut plan,
            Step::ApplyPermissions { path: to.to_owned() },
            concat2("set permissions on ", to),
            context.to_owned(),
        );
        assert(plan_view(plan@) =~= artifact_copy(from@, to@, context@));
        plan
    }

    /// Plans what prepares the restore from the template.
    pub fn prepare_restore_files(&self) -> (r: Result<Vec<PlannedStep>, String>)
        ensures
            match (r, parent_of(self.config.vm_template.memory_path@)) {
                (Ok(plan), Some(dir)) => plan_view(plan@) == template_restore_plan(
                    dir,
                    self.vm_path@,
                    self.id@,
                ),
                (Err(e), None) => e@ == no_template_dir(),
                _ => false,
            },
    {
        let dir = match self.template_dir() {
            Some(dir) => dir,
            None => {
                return Err("template memory path has no parent directory".to_owned());
            },
        };
        let vm_path = self.vm_path.as_str();
        let src_config = path_join(dir.as_str(), "config.json");
        let src_state = path_join(dir.as_str(), "state.json");
        let dst_config = path_join(vm_path, "config.json");
        let dst_state = path_join(vm_path, "state.json");
        let mut plan = empty_plan();
        push_vm_dir(&mut plan, vm_path);
        append_plan(
            &mut plan,
            Self::copy_template_artifact(
                src_config.as_str(),
                dst_config.as_str(),
                "copy template config",
            ),
        );
        append_plan(
            &mut plan,
            Self::copy_template_artifact(
                src_state.as_str(),
                dst_state.as_str(),
                "copy template state",
            ),
        );
        push_under(
            &mut plan,
            Step::AdaptVsock { config: dst_config, sandbox_id: self.id.clone() },
            "update restore vsock socket path".to_owned(),
        );
        assert(plan_view(plan@) =~= template_restore_plan(dir@, self.vm_path@, self.id@));
        Ok(plan)
    }

    /// Plans what prepares the restore of a checkpoint.
    pub fn prepare_checkpoint_restore_files(&self, checkpoint_dir: &str) -> (r: Vec<PlannedStep>)
        ensures
            plan_view(r@) == checkpoint_restore_plan(
                checkpoint_dir@,
                self.vm_path@,
                self.id@,
                self.config.boot_info.image@,
            ),
    {
        let vm_path = self.vm_path.as_str();
        let src_config = path_join(checkpoint_dir, "config.json");
        let src_state = path_join(checkpoint_dir, "state.json");
        let src_memory = path_join(checkpoint_dir, "memory-ranges");
        let dst_config = path_join(vm_path, "config.json");
        let dst_state = path_join(vm_path, "state.json");
        let dst_memory = path_join(vm_path, "memory-ranges");
        let mut plan = empty_plan();
        push_vm_dir(&mut plan, vm_path);
        push_artifact_access(&mut plan, src_config.as_str());
        push_artifact_access(&mut plan, src_state.as_str());
        push_artifact_access(&mut plan, src_memory.as_str());
        append_plan(
            &mut plan,
            Self::copy_template_artifact(
                src_config.as_str(),
                dst_config.as_str(),
                "copy checkpoint config",
            ),
        );
        append_plan(
            &mut plan,
            Self::copy_template_artifact(
                src_state.as_str(),
                dst_state.as_str(),
                "copy checkpoint state",
            ),
        );
        push_under(
            &mut plan,
            Step::RestoreDisks {
                checkpoint_dir: checkpoint_dir.to_owned(),
                config: dst_config.clone(),
                vm_path: vm_path.to_owned(),
                boot_image: self.config.boot_info.image.clone(),
            },
            "prepare checkpoint block disks".to_owned(),
        );
        push_bare(&mut plan, Step::RefuseExisting { path: dst_memory.clone() });
        let link_context = concat4(
            "link checkpoint memory ",
            src_memory.as_str(),
            " to ",
            dst_memory.as_str(),
        );
        let resolve_context = concat2("canonicalize ", src_memory.as_str());
        push_under(&mut plan, Step::Resolve { path: src_memory }, resolve_context);
        push_under(&mut plan, Step::LinkToResolved { link: dst_memory }, link_context);
        push_bare(
            &mut plan,
            Step::AdaptRuntimePaths { config: dst_config, sandbox_id: self.id.clone() },
        );
        assert(plan_view(plan@) =~= checkpoint_restore_plan(
            checkpoint_dir@,
            self.vm_path@,
            self.id@,
            self.config.boot_info.image@,
        ));
        plan
    }

    /// Plans to write a snapshot into a directory.
    pub fn snapshot_vm_to(dir: &str) -> (r: Vec<PlannedStep>)
        ensures
            plan_view(r@) == snapshot_plan(dir@),
    {
        let mut plan = empty_plan();
        push_bare(&mut plan, Step::Snapshot { destination_url: concat2("file://", dir) });
        push_snapshot_file(&mut plan, dir, "config.json");
        push_snapshot_file(&mut plan, dir, "state.json");
        assert(plan_view(plan@) =~= snapshot_plan(dir@));
        plan
    }

    /// Plans to write a snapshot to where the template is.
    pub fn save_vm(&self) -> (r: Result<Vec<PlannedStep>, String>)
        ensures
            match (r, parent_of(self.config.vm_template.memory_path@)) {
                (Ok(plan), Some(dir)) => plan_view(plan@) == template_save_plan(
                    dir,
                    self.config.vm_template.boot_to_be_template,
                ),
                (Err(e), None) => e@ == no_template_dir(),
                _ => false,
            },
    {
        let dir = match self.template_dir() {
            Some(dir) => dir,
            None => {
                return Err("template memory path has no parent directory".to_owned());
            },
        };
        let mut plan = Self::snapshot_vm_to(dir.as_str());
        if self.config.vm_template.boot_to_be_template {
            push_under(
                &mut plan,
                Step::MarkMemory { config: path_join(dir.as_str(), "config.json"), shared: false },
                "patch snapshot memory sharing".to_owned(),
            );
        }
        Ok(plan)
    }

    /// Plans to write a checkpoint into a new directory.
    pub fn save_vm_to(output_path: &str) -> (r: Vec<PlannedStep>)
        ensures
            plan_view(r@) == checkpoint_save_plan(output_path@),
    {
        let mut plan = empty_plan();
        if let Some(parent) = path_parent(output_path) {
            let context = concat2(
                "create Cloud Hypervisor checkpoint parent ",
                parent.as_str(),
            );
            push_under(&mut plan, Step::CreateDirAll { path: parent }, context);
        }
        push_under(
            &mut plan,
            Step::CreateDir { path: output_path.to_owned() },
            concat2("create Cloud Hypervisor checkpoint directory ", output_path),
        );
        append_plan(&mut plan, Self::snapshot_vm_to(output_path));
        push_snapshot_file(&mut plan, output_path, "memory-ranges");
        assert(plan_view(plan@) =~= checkpoint_save_plan(output_path@));
        plan
    }
}

/// A configuration file that is read, changed and written: the contexts of each
/// step, and the mode that it gets.
#[derive(Debug, PartialEq, Eq)]
pub struct ConfigFile {
    pub path: String,
    pub read_context: String,
    pub parse_context: String,
    pub write_context: String,
    pub mode: u32,
    pub mode_context: String,
}

impl CloudHypervisorInner {
    /// How a configuration file is changed; only its owner can read it afterwards.
    pub fn write_json_file(path: &str) -> (r: ConfigFile)
        ensures
            r.path@ == path@,
            r.read_context@ == "read "@ + path@,
            r.parse_context@ == "parse "@ + path@,
            r.write_context@ == "write "@ + path@,
            r.mode == CONFIG_FILE_MODE,
            r.mode_context@ == "set permissions on "@ + path@,
    {
        ConfigFile {
            path: path.to_owned(),
            read_context: concat2("read ", path),
            parse_context: concat2("parse ", path),
            write_context: concat2("write ", path),
            mode: CONFIG_FILE_MODE,
            mode_context: concat2("set permissions on ", path),
        }
    }
}

/// The message for a restore that would overwrite memory.
pub fn memory_exists_message(path: &str) -> (r: String)
    ensures
        r@ == "restore memory path already exists: "@ + path@,
{
    concat2("restore memory path already exists: ", path)
}

/// The names of snapshot files are names.
proof fn lemma_file_names()
    ensures
        is_name("config.json"@),
        is_name("state.json"@),
        is_name("memory-ranges"@),
{
    reveal_strlit("config.json");
    reveal_strlit("state.json");
    reveal_strlit("memory-ranges");
    assert("config.json"@.len() == 11 && "state.json"@.len() == 10 && "memory-ranges"@.len() == 13);
    assert(!"config.json"@.contains('/'));
    assert(!"state.json"@.contains('/'));
    assert(!"memory-ranges"@.contains('/'));
}

/// Whether everything that a plan writes lies at or below a directory.
pub open spec fn writes_within(plan: Seq<PlannedView>, dir: Seq<char>) -> bool {
    forall|i: int|
        0 <= i < plan.len() ==> (written((#[trigger] plan[i]).step) matches Some(path)
            ==> components(dir).is_prefix_of(components(path)))
}

/// A directory holds itself and what is named in it.
proof fn lemma_in_dir(dir: Seq<char>, name: Seq<char>)
    requires
        dir.len() > 0,
        is_name(name),
    ensures
        components(dir).is_prefix_of(components(dir)),
        components(dir).is_prefix_of(components(joined(dir, name))),
{
    lemma_joined_name(dir, name);
    let parts = components(dir);
    assert(parts.subrange(0, parts.len() as int) =~= parts);
    assert(parts.push(name).subrange(0, parts.len() as int) =~= parts);
}

/// Preparing a restore, from a checkpoint or a template, writes to the
/// directory of the VM only: what is restored from stays as it is.
pub proof fn law_restores_leave_their_source(
    source_dir: Seq<char>,
    vm_path: Seq<char>,
    id: Seq<char>,
    boot_image: Seq<char>,
)
    requires
        vm_path.len() > 0,
    ensures
        writes_within(checkpoint_restore_plan(source_dir, vm_path, id, boot_image), vm_path),
        writes_within(template_restore_plan(source_dir, vm_path, id), vm_path),
{
    lemma_file_names();
    lemma_in_dir(vm_path, "config.json"@);
    lemma_in_dir(vm_path, "state.json"@);
    lemma_in_dir(vm_path, "memory-ranges"@);
}

/// The memory of a checkpoint is linked, never copied.
pub proof fn law_memory_is_not_copied(
    checkpoint_dir: Seq<char>,
    vm_path: Seq<char>,
    id: Seq<char>,
    boot_image: Seq<char>,
    i: int,
)
    requires
        0 <= i < checkpoint_restore_plan(checkpoint_dir, vm_path, id, boot_image).len(),
    ensures
        checkpoint_restore_plan(checkpoint_dir, vm_path, id, boot_image)[i].step matches
            Step::CopyFile { from, to } ==> from != joined(checkpoint_dir, "memory-ranges"@),
{
    let config = "config.json"@;
    let state = "state.json"@;
    let memory = "memory-ranges"@;
    reveal_strlit("config.json");
    reveal_strlit("state.json");
    reveal_strlit("memory-ranges");
    assert(config.len() == 11 && state.len() == 10 && memory.len() == 13);
    assert(joined(checkpoint_dir, config).len() + 2 == joined(checkpoint_dir, memory).len());
    assert(joined(checkpoint_dir, state).len() + 3 == joined(checkpoint_dir, memory).len());
}

/// Which paths exist when the first `n` steps of a plan were carried out, given
/// those that existed before, as far as the plan knows; none if a step refused
/// to go on.
pub open spec fn carried_out(
    plan: Seq<PlannedView>,
    existing: Set<Seq<char>>,
    n: int,
) -> Option<Set<Seq<char>>>
    decreases n,
{
    if n <= 0 {
        Some(existing)
    } else {
        match carried_out(plan, existing, n - 1) {
            None => None,
            Some(now) => match plan[n - 1].step {
                Step::RefuseExisting { path } => if now.contains(path) {
                    None
                } else {
                    Some(now)
                },
                step => match written(step) {
                    Some(path) => Some(now.insert(path)),
                    None => Some(now),
                },
            },
        }
    }
}

/// What existed goes on to exist, and what was written exists.
proof fn lemma_paths_stay(plan: Seq<PlannedView>, existing: Set<Seq<char>>, n: int, i: int)
    requires
        n <= plan.len(),
    ensures
        carried_out(plan, existing, n) matches Some(now) ==> {
            &&& existing.subset_of(now)
            &&& 0 <= i < n ==> (written(plan[i].step) matches Some(path) ==> now.contains(path))
        },
    decreases n,
{
    if n > 0 {
        lemma_paths_stay(plan, existing, n - 1, i);
    }
}

/// A plan does not get past a path that it refuses.
proof fn lemma_refused(plan: Seq<PlannedView>, existing: Set<Seq<char>>, n: int, i: int)
    requires
        0 <= i < n <= plan.len(),
        plan[i].step matches Step::RefuseExisting { path } && existing.contains(path),
    ensures
        carried_out(plan, existing, n) is None,
    decreases n,
{
    if i < n - 1 {
        lemma_refused(plan, existing, n - 1, i);
    } else {
        lemma_paths_stay(plan, existing, n - 1, 0);
    }
}

/// A checkpoint is prepared for a VM once. The path that is refused if it exists
/// is the one at which the link to the memory is made afterwards, and no other
/// step writes there. So when a preparation came to its end, every further one
/// is refused, as long as the link is there; and up to where it is refused it
/// leaves the link as it is.
pub proof fn law_second_preparation_is_refused(
    checkpoint_dir: Seq<char>,
    vm_path: Seq<char>,
    id: Seq<char>,
    boot_image: Seq<char>,
    existing: Set<Seq<char>>,
    later: Set<Seq<char>>,
)
    ensures
        ({
            let plan = checkpoint_restore_plan(checkpoint_dir, vm_path, id, boot_image);
            let memory = joined(vm_path, "memory-ranges"@);
            let all = plan.len() as int;
            &&& exists|i: int, j: int|
                0 <= i < j < plan.len() && (#[trigger] plan[i]).step == (Step::RefuseExisting {
                    path: memory,
                }) && (#[trigger] plan[j]).step == (Step::LinkToResolved { link: memory })
            &&& forall|k: int|
                0 <= k < plan.len() && written((#[trigger] plan[k]).step) == Some(memory)
                    ==> plan[k].step == (Step::LinkToResolved { link: memory })
            &&& forall|i: int, j: int|
                0 <= i < plan.len() && 0 <= j < plan.len() && (#[trigger] plan[i]).step == (
                Step::RefuseExisting { path: memory }) && written((#[trigger] plan[j]).step)
                    == Some(memory) ==> i < j
            &&& carried_out(plan, existing, all) matches Some(now) ==> !existing.contains(memory)
                && now.contains(memory) && carried_out(plan, now, all) is None
            &&& later.contains(memory) ==> carried_out(plan, later, all) is None
        }),
{
    let plan = checkpoint_restore_plan(checkpoint_dir, vm_path, id, boot_image);
    let memory = joined(vm_path, "memory-ranges"@);
    let all = plan.len() as int;
    let refusal = 11int;
    let link = 13int;
    assert(plan[refusal].step == (Step::RefuseExisting { path: memory }));
    assert(plan[link].step == (Step::LinkToResolved { link: memory }));
    reveal_strlit("config.json");
    reveal_strlit("state.json");
    reveal_strlit("memory-ranges");
    assert("config.json"@.len() == 11 && "state.json"@.len() == 10 && "memory-ranges"@.len() == 13);
    assert(joined(vm_path, "config.json"@).len() + 2 == memory.len());
    assert(joined(vm_path, "state.json"@).len() + 3 == memory.len());
    assert(vm_path.len() < memory.len());
    lemma_paths_stay(plan, existing, all, link);
    if existing.contains(memory) {
        lemma_refused(plan, existing, all, refusal);
    }
    if let Some(now) = carried_out(plan, existing, all) {
        lemma_refused(plan, now, all, refusal);
    }
    if later.contains(memory) {
        lemma_refused(plan, later, all, refusal);
    }
}

/// Whether a path is one that the restore of a checkpoint makes in the directory
/// of a VM: its configuration, its state, its memory, or the directory of its
/// own disks and what is in it.
pub open spec fn is_restored_file(vm_path: Seq<char>, path: Seq<char>) -> bool {
    ||| components(path) == components(joined(vm_path, "config.json"@))
    ||| components(path) == components(joined(vm_path, "state.json"@))
    ||| components(path) == components(joined(vm_path, "memory-ranges"@))
    ||| components(joined(vm_path, "checkpoint-disks"@)).is_prefix_of(components(path))
}

/// Preparing a checkpoint writes nothing at or below its directory, if the VM's
/// directory is outside of it, and it is not itself among what the restore
/// makes. The clones of disks lie outside of it, too, and none of them is the
/// memory.
pub proof fn law_preparing_leaves_the_checkpoint(
    checkpoint_dir: Seq<char>,
    vm_path: Seq<char>,
    id: Seq<char>,
    boot_image: Seq<char>,
    disk_id: Seq<char>,
)
    requires
        vm_path.len() > 0,
        !within(checkpoint_dir, vm_path),
        !is_restored_file(vm_path, checkpoint_dir),
        is_disk_id(disk_id),
    ensures
        ({
            let plan = checkpoint_restore_plan(checkpoint_dir, vm_path, id, boot_image);
            let clone = clone_path(joined(vm_path, "checkpoint-disks"@), disk_id);
            &&& forall|k: int|
                0 <= k < plan.len() ==> (written((#[trigger] plan[k]).step) matches Some(path)
                    ==> !within(checkpoint_dir, path))
            &&& !within(checkpoint_dir, joined(vm_path, "checkpoint-disks"@))
            &&& !within(checkpoint_dir, clone)
            &&& components(clone) != components(joined(vm_path, "memory-ranges"@))
        }),
{
    let disks = joined(vm_path, "checkpoint-disks"@);
    lemma_file_names();
    reveal_strlit("checkpoint-disks");
    assert("checkpoint-disks"@.len() == 16);
    assert(!"checkpoint-disks"@.contains('/'));
    lemma_outside(checkpoint_dir, vm_path, "config.json"@);
    lemma_outside(checkpoint_dir, vm_path, "state.json"@);
    lemma_outside(checkpoint_dir, vm_path, "memory-ranges"@);
    lemma_joined_name(vm_path, "checkpoint-disks"@);
    assert(components(disks).is_prefix_of(components(disks)));
    lemma_outside(checkpoint_dir, vm_path, "checkpoint-disks"@);
    lemma_clone_name(disk_id);
    let name = disk_id + ".ext4"@;
    lemma_joined_name(disks, name);
    assert(components(disks).is_prefix_of(components(joined(disks, name)))) by {
        assert(components(disks).push(name).subrange(0, components(disks).len() as int)
            =~= components(disks));
    }
    lemma_outside(checkpoint_dir, disks, name);
    lemma_joined_name(vm_path, "memory-ranges"@);
    assert(components(joined(disks, name)).len() == components(vm_path).len() + 2);
    assert(components(joined(vm_path, "memory-ranges"@)).len() == components(vm_path).len() + 1);
}

/// What is named in a directory outside of another one is outside of it, unless
/// it is that other one.
proof fn lemma_outside(other: Seq<char>, dir: Seq<char>, name: Seq<char>)
    requires
        dir.len() > 0,
        is_name(name),
        !within(other, dir),
        components(other) != components(joined(dir, name)),
    ensures
        !within(other, joined(dir, name)),
{
    lemma_joined_name(dir, name);
    let o = components(other);
    let d = components(dir);
    if o.is_prefix_of(d.push(name)) {
        if o.len() <= d.len() {
            assert(o =~= d.subrange(0, o.len() as int)) by {
                assert(d.push(name).subrange(0, o.len() as int) =~= d.subrange(0, o.len() as int));
            }
        } else {
            assert(o =~= d.push(name));
        }
    }
}

} // verus!
