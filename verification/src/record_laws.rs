//! What records mean, and what is said of them: every field counts.

use vstd::prelude::*;

use crate::block_disks::{debug_text, disk_error_text, disk_views, CheckpointStorageDisk, DiskError};
use crate::checkpoint::{CheckpointContainerMetadata, CheckpointMetadata};
use crate::checkpoint_run::{
    CheckpointAction, CheckpointActionView, CheckpointEvent, CheckpointEventView, SandboxContainer,
};
use crate::hypervisor::{memory_error_text, CloudHypervisorInner, MemoryError};
use crate::json::{json_bytes, json_read, json_written, lemma_first_entry, Json, JsonView};
use crate::launch::{params_view, KernelParams, CH_POLL_TIME_MS};
use crate::lifecycle::{
    action_views, fd_views, RestoreCall, StartAction, StartActionView, StartEvent, StartEventView,
    StartState, StartStateView,
};
use crate::log_output::{
    thread_views, CloudHypervisorLogLevel, OutputEvent, OutputStep, OutputStream,
};
use crate::metadata_file::MetadataInspect;
use crate::overlay::layers_view;
use crate::pause::{PauseAction, PauseError, PauseState};
use crate::plan::{plan_view, PlannedStep, Step};
use crate::protection::{protection_error_text, GuestProtection, GuestProtectionError};
use crate::restore_files::CONFIG_FILE_MODE;
use crate::shim_ctl::{
    command_view, AddressSource, CheckpointCommand, CHECKPOINT_TIMEOUT_NANOS,
};
use crate::snapshot_config::{
    fault_text, fs_views, net_views, result_text, rewritten, ConfigError, ConfigFault, FsConfig,
    RestoredNetConfig,
};
use crate::text::{decimal, opt_text, opt_texts, texts};
use crate::unix_path::joined;

verus! {

/// A disk is all that is said of it.
pub proof fn law_disks_are_what_is_said_of_them(
    disk: CheckpointStorageDisk<String>,
    disks: Seq<CheckpointStorageDisk<String>>,
    i: int,
)
    ensures
        disk@.id == disk.id@,
        disk@.role == disk.role@,
        disk@.path == disk.path@,
        disk@.readonly == disk.readonly,
        disk@.size == disk.size,
        disk@.num_queues == disk.num_queues,
        disk@.queue_size == disk.queue_size,
        disk_views(disks).len() == disks.len(),
        0 <= i < disks.len() ==> disk_views(disks)[i] == disks[i]@,
{
}

/// A container, its entry in the metadata and the metadata are all that they
/// hold.
pub proof fn law_metadata_is_what_it_holds<T>(
    container: SandboxContainer<T>,
    entry: CheckpointContainerMetadata<T>,
    metadata: CheckpointMetadata<T>,
    i: int,
)
    ensures
        container@.id == container.id@,
        container@.bundle == container.bundle@,
        container@.rootfs_mounts == container.rootfs_mounts@,
        container@.spec == container.spec,
        entry@.old_id == entry.old_id@,
        entry@.bundle == entry.bundle@,
        entry@.rootfs_mounts == entry.rootfs_mounts@,
        entry@.lower_dirs == texts(entry.lower_dirs@),
        entry@.spec == entry.spec,
        metadata@.version == metadata.version,
        metadata@.sandbox_id == metadata.sandbox_id@,
        metadata@.agent_socket == metadata.agent_socket@,
        metadata@.containers.len() == metadata.containers@.len(),
        0 <= i < metadata.containers@.len() ==> metadata@.containers[i]
            == metadata.containers@[i]@,
{
}

/// Lists are what their items are.
pub proof fn law_lists_are_their_items(
    list: Seq<String>,
    nets: Seq<RestoredNetConfig>,
    devices: Seq<FsConfig>,
    networks: Seq<Vec<i32>>,
    i: int,
)
    ensures
        texts(list).len() == list.len(),
        0 <= i < list.len() ==> texts(list)[i] == list[i]@,
        net_views(nets).len() == nets.len(),
        0 <= i < nets.len() ==> net_views(nets)[i] == (nets[i].id@, nets[i].num_fds),
        fs_views(devices).len() == devices.len(),
        0 <= i < devices.len() ==> fs_views(devices)[i] == (devices[i].tag@, devices[i].socket@),
        fd_views(networks).len() == networks.len(),
        0 <= i < networks.len() ==> fd_views(networks)[i] == networks[i]@,
{
}

/// What may be missing is missing, or what it is.
pub proof fn law_options_are_what_they_hold(text: String, list: Vec<String>)
    ensures
        opt_text(Some(text)) == Some(text@),
        opt_text(None) is None,
        opt_texts(Some(list)) == Some(texts(list@)),
        opt_texts(None) is None,
{
}

/// Further lists are what their items are, and what may have failed is what it
/// came to.
pub proof fn law_outcomes_are_what_they_hold(
    params: Seq<KernelParams<String>>,
    actions: Seq<StartAction>,
    threads: Seq<(u32, String)>,
    lowers: Vec<String>,
    text: String,
    command: CheckpointCommand<String>,
    usage: &str,
    i: int,
)
    ensures
        params_view(params).len() == params.len(),
        0 <= i < params.len() ==> params_view(params)[i] == params[i]@,
        action_views(actions).len() == actions.len(),
        0 <= i < actions.len() ==> action_views(actions)[i] == actions[i]@,
        thread_views(threads).len() == threads.len(),
        0 <= i < threads.len() ==> thread_views(threads)[i] == (threads[i].0, threads[i].1@),
        layers_view(Some((lowers, text))) == Some((texts(lowers@), text@)),
        layers_view(None) is None,
        result_text(Ok(text)) == Ok::<_, Seq<char>>(text@),
        result_text(Err(text)) == Err::<Seq<char>, _>(text@),
        command_view(Ok(command)) == Some(command@),
        command_view(Err(usage)) is None,
{
}

/// A planned step is its step and its contexts, and a plan is its steps.
pub proof fn law_plans_are_their_steps(plan: Seq<PlannedStep>, i: int)
    ensures
        plan_view(plan).len() == plan.len(),
        0 <= i < plan.len() ==> plan_view(plan)[i].step == plan[i].step@ && plan_view(
            plan,
        )[i].contexts == texts(plan[i].contexts@),
{
}

/// A step does what it says, to the paths that it names.
pub proof fn law_steps_are_what_they_name(a: String, b: String, c: String, d: String, mode: u32)
    ensures
        (Step::CreateDirAll { path: a })@ == (Step::CreateDirAll { path: a@ }),
        (Step::CreateOwnedDirAll { path: a, mode })@ == (Step::CreateOwnedDirAll {
            path: a@,
            mode,
        }),
        (Step::CreateDir { path: a })@ == (Step::CreateDir { path: a@ }),
        (Step::Access { path: a })@ == (Step::Access { path: a@ }),
        (Step::RefuseExisting { path: a })@ == (Step::RefuseExisting { path: a@ }),
        (Step::ReadPermissions { path: a })@ == (Step::ReadPermissions { path: a@ }),
        (Step::CopyFile { from: a, to: b })@ == (Step::CopyFile { from: a@, to: b@ }),
        (Step::ApplyPermissions { path: a })@ == (Step::ApplyPermissions { path: a@ }),
        (Step::Resolve { path: a })@ == (Step::Resolve { path: a@ }),
        (Step::LinkToResolved { link: a })@ == (Step::LinkToResolved { link: a@ }),
        (Step::CopyTree { from: a, to: b })@ == (Step::CopyTree { from: a@, to: b@ }),
        (Step::MountOverlay { target: a, options: b })@ == (Step::MountOverlay {
            target: a@,
            options: b@,
        }),
        (Step::Bind { source: a, target: b })@ == (Step::Bind { source: a@, target: b@ }),
        (Step::AdaptVsock { config: a, sandbox_id: b })@ == (Step::AdaptVsock {
            config: a@,
            sandbox_id: b@,
        }),
        (Step::RestoreDisks { checkpoint_dir: a, config: b, vm_path: c, boot_image: d })@ == (
        Step::RestoreDisks { checkpoint_dir: a@, config: b@, vm_path: c@, boot_image: d@ }),
        (Step::AdaptRuntimePaths { config: a, sandbox_id: b })@ == (Step::AdaptRuntimePaths {
            config: a@,
            sandbox_id: b@,
        }),
        (Step::MarkMemory { config: a, shared: true })@ == (Step::MarkMemory {
            config: a@,
            shared: true,
        }),
        (Step::MarkMemory { config: a, shared: false })@ == (Step::MarkMemory {
            config: a@,
            shared: false,
        }),
        (Step::Snapshot { destination_url: a })@ == (Step::Snapshot { destination_url: a@ }),
        (Step::CopyPassthrough { from: a, to: b })@ == (Step::CopyPassthrough {
            from: a@,
            to: b@,
        }),
{
}

/// An action of a start is all that it names, and so is a restore.
pub proof fn law_starts_are_what_they_name(
    call: RestoreCall,
    dir: String,
    counts: Vec<usize>,
    fds: Vec<i32>,
)
    ensures
        call@.state_file == call.state_file@,
        call@.config_file == call.config_file@,
        call@.fds == call.fds@,
        call@.request.source_url == call.request.source_url@,
        call@.request.memory_restore_mode == call.request.memory_restore_mode,
        call.request.net_fds matches Some(nets) ==> call@.request.net_fds == Some(
            net_views(nets@),
        ),
        call.request.net_fds is None ==> call@.request.net_fds is None,
        (StartAction::PrepareCheckpoint { checkpoint_dir: dir, net_fd_counts: counts })@ == (
        StartActionView::PrepareCheckpoint { checkpoint_dir: dir@, net_fd_counts: counts@ }),
        StartAction::Restore(call)@ == StartActionView::Restore(call@),
        StartAction::CloseFds(fds)@ == StartActionView::CloseFds(fds@),
        StartAction::LaunchHypervisor@ == StartActionView::LaunchHypervisor,
        StartAction::ListDevices@ == StartActionView::ListDevices,
        StartAction::CheckTemplate@ == StartActionView::CheckTemplate,
        StartAction::PrepareTemplate@ == StartActionView::PrepareTemplate,
        StartAction::Resume@ == StartActionView::Resume,
        StartAction::Boot@ == StartActionView::Boot,
{
}

/// An action of a checkpoint is all that it names.
pub proof fn law_checkpoint_actions_are_what_they_name<T>(
    dir: String,
    plan: Vec<PlannedStep>,
    path: String,
    metadata: CheckpointMetadata<T>,
)
    ensures
        (CheckpointAction::<T>::SaveVm { dir })@ == (CheckpointActionView::<T>::SaveVm {
            dir: dir@,
        }),
        CheckpointAction::<T>::Run(plan)@ == CheckpointActionView::<T>::Run(plan_view(plan@)),
        CheckpointAction::<T>::GetAgentSocket@ == CheckpointActionView::<T>::GetAgentSocket,
        CheckpointAction::<T>::ListContainers@ == CheckpointActionView::<T>::ListContainers,
        CheckpointAction::<T>::ReadMountTable@ == CheckpointActionView::<T>::ReadMountTable,
        (CheckpointAction::WriteMetadata { path, metadata })@ == (
        CheckpointActionView::WriteMetadata { path: path@, metadata: metadata@ }),
        CheckpointAction::<T>::Succeed@ == CheckpointActionView::<T>::Succeed,
        CheckpointAction::<T>::Fail@ == CheckpointActionView::<T>::Fail,
        CheckpointAction::<T>::Nothing@ == CheckpointActionView::<T>::Nothing,
{
}

/// A command is all that it names.
pub proof fn law_commands_are_what_they_name(command: CheckpointCommand<String>, text: String)
    ensures
        command@.sandbox_id == command.sandbox_id@,
        command@.output_path == command.output_path@,
        command@.address == command.address@,
        AddressSource::Given(text)@ == AddressSource::Given(text@),
        AddressSource::File(text)@ == AddressSource::File(text@),
{
}

/// A document is what it holds; of two entries with one key the first counts.
pub proof fn law_documents_are_what_they_hold(
    truth: bool,
    number: i128,
    text: String,
    items: Vec<Json>,
    pairs: Vec<(String, Json)>,
    i: int,
)
    ensures
        Json::Null@ == JsonView::Null,
        Json::Bool(truth)@ == JsonView::Bool(truth),
        Json::Integer(number)@ == JsonView::Integer(number as int),
        Json::Text(text)@ == JsonView::Text(text@),
        Json::Array(items)@ matches JsonView::Array(views) && views.len() == items@.len() && (0 <= i
            < items@.len() ==> views[i] == items@[i]@),
        Json::Object(pairs)@ is Object,
        0 <= i < pairs@.len() && (forall|j: int|
            0 <= j < i ==> (#[trigger] pairs@[j]).0@ != pairs@[i].0@) ==> Json::Object(
            pairs,
        )@->Object_0.contains_key(pairs@[i].0@) && Json::Object(pairs)@->Object_0[pairs@[i].0@]
            == pairs@[i].1@,
{
    if 0 <= i < pairs@.len() && (forall|j: int|
        0 <= j < i ==> (#[trigger] pairs@[j]).0@ != pairs@[i].0@) {
        lemma_first_entry(pairs@, pairs@[i].0@, i);
    }
}

/// Adapting a file comes to the bytes of the adapted document, and to nothing
/// else; where the file cannot be read, the document cannot be adapted or the
/// outcome cannot be written, that is reported, with the reason.
pub proof fn law_files_get_the_adapted_document(
    data: Seq<u8>,
    patched: spec_fn(JsonView) -> Result<JsonView, ConfigFault<Seq<char>>>,
    r: Result<Vec<u8>, ConfigError>,
)
    requires
        rewritten(data, patched, r),
    ensures
        r matches Ok(out) ==> (json_read(data) matches Ok(config) && (patched(
            config,
        ) matches Ok(wanted) && json_bytes(wanted) == Some(out@))),
        r matches Err(ConfigError::Fault(f)) ==> (json_read(data) matches Ok(config) && patched(
            config,
        ) == Err::<JsonView, _>(f@)),
        r matches Err(ConfigError::Unreadable(e)) ==> json_read(data) == Err::<JsonView, _>(
            e.detail@,
        ),
        r matches Err(ConfigError::Unwritable(e)) ==> (json_read(data) matches Ok(config) && (
        patched(config) matches Ok(wanted) && json_written(wanted) == Err::<Seq<u8>, _>(
            e.detail@,
        ))),
{
}

/// A start changes how far the VM has come and whether it starts from a template,
/// and nothing else.
pub proof fn law_starts_change_nothing_else(before: CloudHypervisorInner, after: CloudHypervisorInner)
    requires
        before.same_but_start(after),
    ensures
        after.id == before.id,
        after.vm_path == before.vm_path,
        after.run_dir == before.run_dir,
        after.jailer_root == before.jailer_root,
        after.pid == before.pid,
        after.process == before.process,
        after.netns == before.netns,
        after.restore_path == before.restore_path,
        after.guest_memory_block_size_mb == before.guest_memory_block_size_mb,
        after.guest_protection_to_use == before.guest_protection_to_use,
        after.ch_features == before.ch_features,
        after.extra_args == before.extra_args,
        after.timeout_secs == before.timeout_secs,
        after.tasks == before.tasks,
        after.shutdown_tx == before.shutdown_tx && after.shutdown_rx == before.shutdown_rx,
        after.exit_notify == before.exit_notify,
        after.config.path == before.config.path,
        after.config.boot_info == before.config.boot_info,
        after.config.security_info == before.config.security_info,
        after.config.vm_template.memory_path == before.config.vm_template.memory_path,
        after.config.vm_template.boot_to_be_template
            == before.config.vm_template.boot_to_be_template,
        after.config.enable_debug == before.config.enable_debug,
        after.config.disable_selinux == before.config.disable_selinux,
        after.config.default_maxvcpus == before.config.default_maxvcpus,
        after.config.default_maxmemory == before.config.default_maxmemory,
{
}

/// The metadata of a checkpoint is `metadata.json` in its directory.
pub proof fn law_metadata_has_its_place(inspect: MetadataInspect)
    requires
        inspect.wf(),
    ensures
        inspect.path@ == joined(inspect.checkpoint_dir@, "metadata.json"@),
{
}

/// Configuration files can be read and written by their owner only; what is not
/// ready is tried again after a twentieth of a second; and a checkpoint may take
/// five minutes.
pub proof fn law_fixed_values()
    ensures
        CONFIG_FILE_MODE == 0o600,
        CH_POLL_TIME_MS == 50,
        CHECKPOINT_TIMEOUT_NANOS == 5 * 60 * 1_000_000_000,
{
}

/// The messages of disk errors name the disk, the path or the reason that they
/// are about.
pub proof fn law_disk_errors_name_what_they_are_about(
    a: Seq<char>,
    b: Seq<char>,
    expected: u64,
    found: u64,
)
    ensures
        disk_error_text(DiskError::MetadataNotRegular { path: a })
            == "checkpoint metadata is not a regular file: "@ + a,
        disk_error_text(DiskError::MetadataEscapes { root: a }) == "checkpoint metadata escapes "@
            + a,
        disk_error_text(DiskError::Conflict { id: a }) == "checkpoint disk id "@ + a
            + " has conflicting metadata"@,
        disk_error_text(DiskError::ConfigUnreadable { detail: a }) == a,
        disk_error_text(DiskError::NotInMetadata { id: a }) == "checkpoint disk id "@ + a
            + " is not represented in block metadata"@,
        disk_error_text(DiskError::InvalidId { id: a }) == "invalid checkpoint disk id "@
            + debug_text(a),
        disk_error_text(DiskError::InvalidPath { path: a }) == "invalid checkpoint disk path "@
            + debug_text(a),
        disk_error_text(DiskError::NotRegular { source: a })
            == "checkpoint disk is not a regular file: "@ + a,
        disk_error_text(DiskError::Escapes { source: a, root: b }) == "checkpoint disk "@ + a
            + " escapes "@ + b,
        disk_error_text(DiskError::SizeChanged { id: a, expected, found }) == "checkpoint disk "@
            + a + " size changed: expected "@ + decimal(expected as nat) + ", got "@ + decimal(
            found as nat,
        ),
        disk_error_text(DiskError::MissingDisk { id: a }) == "checkpoint config missing disk id "@
            + a,
        disk_error_text(DiskError::Readonly { id: a }) == "checkpoint disk "@ + a
            + " readonly setting does not match"@,
        disk_error_text(DiskError::Queues { id: a }) == "checkpoint disk "@ + a
            + " queue settings do not match"@,
        disk_error_text(DiskError::CloneExists { destination: a })
            == "private checkpoint disk already exists: "@ + a,
        disk_error_text(DiskError::CloneFailed { source: a, status: b })
            == "clone checkpoint disk "@ + a + " failed with "@ + b,
        disk_error_text(DiskError::UnsupportedRole { id: a, role: b }) == "checkpoint disk "@ + a
            + " has unsupported role "@ + debug_text(b),
{
}

/// The messages of other errors name what they are about.
pub proof fn law_errors_name_what_they_are_about(
    a: Seq<char>,
    n: usize,
    m: usize,
    bytes: u64,
    block: u64,
    max_mb: u32,
    protection: GuestProtection,
)
    ensures
        fault_text(ConfigFault::VsockPath(a)) == a,
        fault_text(ConfigFault::MissingTag(a)) == "checkpoint config missing virtio-fs tag "@ + a,
        fault_text(ConfigFault::NetworkCount { snapshot: n, prepared: m }) == "checkpoint has "@
            + decimal(n as nat) + " network devices but restore prepared "@ + decimal(m as nat),
        memory_error_text(MemoryError::Alignment { bytes, block }) == "alignment of "@ + decimal(
            bytes as nat,
        ) + " B to the block size of "@ + decimal(block as nat) + " B failed"@,
        memory_error_text(MemoryError::TooMuch { bytes, max_mb }) == "requested memory ("@
            + decimal((bytes as nat / 0x10_0000) % 0x1_0000_0000)
            + " MB) is greater than maximum allowed ("@ + decimal(max_mb as nat) + " MB)"@,
        protection_error_text(GuestProtectionError::ExpectedTDXProtection(protection), a)
            == "Expected TDX protection, found "@ + a,
{
}

/// An event or a state of a start is all that it names.
pub proof fn law_start_events_are_what_they_name(
    networks: Vec<Vec<i32>>,
    nets: Vec<RestoredNetConfig>,
    dir: String,
    fds: Vec<i32>,
)
    ensures
        StartEvent::Done@ == StartEventView::Done,
        StartEvent::Failed@ == StartEventView::Failed,
        StartEvent::Devices(networks)@ == StartEventView::Devices(fd_views(networks@)),
        StartEvent::Prepared(nets)@ == StartEventView::Prepared(net_views(nets@)),
        StartState::Launching@ == StartStateView::Launching,
        (StartState::Listing { checkpoint_dir: dir })@ == (StartStateView::Listing {
            checkpoint_dir: dir@,
        }),
        (StartState::Preparing { fds })@ == (StartStateView::Preparing { fds: fds@ }),
        StartState::CheckingTemplate@ == StartStateView::CheckingTemplate,
        StartState::PreparingTemplate@ == StartStateView::PreparingTemplate,
        (StartState::Restoring { fds })@ == (StartStateView::Restoring { fds: fds@ }),
        StartState::Resuming@ == StartStateView::Resuming,
        StartState::Booting@ == StartStateView::Booting,
        StartState::Running@ == StartStateView::Running,
        StartState::Failed@ == StartStateView::Failed,
        StartState::Refused@ == StartStateView::Refused,
{
}

/// An event of a checkpoint is all that it names.
pub proof fn law_checkpoint_events_are_what_they_name<T>(
    text: String,
    containers: Vec<SandboxContainer<T>>,
    i: int,
)
    ensures
        CheckpointEvent::<T>::Done@ == CheckpointEventView::<T>::Done,
        CheckpointEvent::<T>::Failed@ == CheckpointEventView::<T>::Failed,
        CheckpointEvent::<T>::Socket(text)@ == CheckpointEventView::<T>::Socket(text@),
        CheckpointEvent::<T>::MountTable(text)@ == CheckpointEventView::<T>::MountTable(text@),
        CheckpointEvent::Containers(containers)@ matches CheckpointEventView::Containers(views)
            && views.len() == containers@.len() && (0 <= i < containers@.len() ==> views[i]
            == containers@[i]@),
{
}

/// What happens to a process, and what is done with it, is all that is named.
pub proof fn law_output_is_what_it_names(
    stream: OutputStream,
    level: CloudHypervisorLogLevel,
    line: String,
    waited: Option<Option<i32>>,
    code: i32,
)
    ensures
        OutputEvent::<String>::Shutdown@ == OutputEvent::<Seq<char>>::Shutdown,
        OutputEvent::Line(stream, Some(line))@ == OutputEvent::Line(stream, Some(line@)),
        OutputEvent::<String>::Line(stream, None)@ == OutputEvent::<Seq<char>>::Line(stream, None),
        OutputEvent::<String>::Unreadable(stream)@ == OutputEvent::<Seq<char>>::Unreadable(stream),
        OutputEvent::<String>::Killed@ == OutputEvent::<Seq<char>>::Killed,
        OutputEvent::<String>::Waited(waited)@ == OutputEvent::<Seq<char>>::Waited(waited),
        OutputEvent::<String>::Reported@ == OutputEvent::<Seq<char>>::Reported,
        OutputStep::<String>::Kill@ == OutputStep::<Seq<char>>::Kill,
        OutputStep::<String>::Wait@ == OutputStep::<Seq<char>>::Wait,
        OutputStep::<String>::Report(code)@ == OutputStep::<Seq<char>>::Report(code),
        OutputStep::<String>::Done@ == OutputStep::<Seq<char>>::Done,
        OutputStep::Log(level, stream, line)@ == OutputStep::Log(level, stream, line@),
        OutputStep::<String>::Skip@ == OutputStep::<Seq<char>>::Skip,
        OutputStep::<String>::Fail(stream)@ == OutputStep::<Seq<char>>::Fail(stream),
{
}

/// What is done to pause a VM is all that is named.
pub proof fn law_pauses_are_what_they_name(a: String, b: String, ms: u64, e: PauseError<String>)
    ensures
        PauseState::<String>::Start@ == PauseState::<Seq<char>>::Start,
        PauseState::<String>::Disconnecting@ == PauseState::<Seq<char>>::Disconnecting,
        PauseState::<String>::Sleeping@ == PauseState::<Seq<char>>::Sleeping,
        PauseState::<String>::Pausing@ == PauseState::<Seq<char>>::Pausing,
        (PauseState::Reconnecting { failure: a })@ == (PauseState::Reconnecting { failure: a@ }),
        PauseState::<String>::Ended@ == PauseState::<Seq<char>>::Ended,
        PauseAction::<String>::DisconnectAgent@ == PauseAction::<Seq<char>>::DisconnectAgent,
        (PauseAction::<String>::Sleep { ms })@ == (PauseAction::<Seq<char>>::Sleep { ms }),
        PauseAction::<String>::PauseVm@ == PauseAction::<Seq<char>>::PauseVm,
        PauseAction::<String>::ReconnectAgent@ == PauseAction::<Seq<char>>::ReconnectAgent,
        PauseAction::<String>::Succeed@ == PauseAction::<Seq<char>>::Succeed,
        PauseAction::Fail(e)@ == PauseAction::Fail(e@),
        PauseAction::<String>::Nothing@ == PauseAction::<Seq<char>>::Nothing,
        (PauseError::Disconnect { failure: a })@ == (PauseError::Disconnect { failure: a@ }),
        (PauseError::Pause { failure: a })@ == (PauseError::Pause { failure: a@ }),
        (PauseError::PauseAndReconnect { failure: a, reconnect: b })@ == (
        PauseError::PauseAndReconnect { failure: a@, reconnect: b@ }),
{
}

/// Parts of the kernel's command line are all that they name.
pub proof fn law_kernel_parts_are_what_they_name(
    text: String,
    verity_params: String,
    rootfs_type: Option<String>,
    debug: bool,
)
    ensures
        KernelParams::Text(text)@ == KernelParams::Text(text@),
        (KernelParams::<String>::Defaults { debug })@ == (KernelParams::<Seq<char>>::Defaults {
            debug,
        }),
        (KernelParams::Rootfs { verity_params, rootfs_type })@ == (KernelParams::Rootfs {
            verity_params: verity_params@,
            rootfs_type: opt_text(rootfs_type),
        }),
{
}

/// Faults and errors are all that they name.
pub proof fn law_errors_are_what_they_name(a: String, b: String, n: usize, m: usize, x: u64, y: u64)
    ensures
        ConfigFault::VsockPath(a)@ == ConfigFault::VsockPath(a@),
        ConfigFault::MissingTag(a)@ == ConfigFault::MissingTag(a@),
        (ConfigFault::<String>::NetworkCount { snapshot: n, prepared: m })@ == (ConfigFault::<
            Seq<char>,
        >::NetworkCount { snapshot: n, prepared: m }),
        ConfigFault::<String>::MissingFs@ == ConfigFault::<Seq<char>>::MissingFs,
        ConfigFault::<String>::MissingNetId@ == ConfigFault::<Seq<char>>::MissingNetId,
        ConfigFault::<String>::MissingMemory@ == ConfigFault::<Seq<char>>::MissingMemory,
        ConfigFault::<String>::MissingZones@ == ConfigFault::<Seq<char>>::MissingZones,
        ConfigFault::<String>::InvalidZone@ == ConfigFault::<Seq<char>>::InvalidZone,
        (DiskError::MetadataNotRegular { path: a })@ == (DiskError::MetadataNotRegular {
            path: a@,
        }),
        (DiskError::MetadataEscapes { root: a })@ == (DiskError::MetadataEscapes { root: a@ }),
        (DiskError::Conflict { id: a })@ == (DiskError::Conflict { id: a@ }),
        (DiskError::ConfigUnreadable { detail: a })@ == (DiskError::ConfigUnreadable {
            detail: a@,
        }),
        DiskError::<String>::MissingDisks@ == DiskError::<Seq<char>>::MissingDisks,
        DiskError::<String>::MissingPath@ == DiskError::<Seq<char>>::MissingPath,
        DiskError::<String>::MissingId@ == DiskError::<Seq<char>>::MissingId,
        (DiskError::NotInMetadata { id: a })@ == (DiskError::NotInMetadata { id: a@ }),
        (DiskError::InvalidId { id: a })@ == (DiskError::InvalidId { id: a@ }),
        (DiskError::InvalidPath { path: a })@ == (DiskError::InvalidPath { path: a@ }),
        (DiskError::NotRegular { source: a })@ == (DiskError::NotRegular { source: a@ }),
        (DiskError::Escapes { source: a, root: b })@ == (DiskError::Escapes {
            source: a@,
            root: b@,
        }),
        (DiskError::SizeChanged { id: a, expected: x, found: y })@ == (DiskError::SizeChanged {
            id: a@,
            expected: x,
            found: y,
        }),
        (DiskError::MissingDisk { id: a })@ == (DiskError::MissingDisk { id: a@ }),
        (DiskError::Readonly { id: a })@ == (DiskError::Readonly { id: a@ }),
        (DiskError::Queues { id: a })@ == (DiskError::Queues { id: a@ }),
        (DiskError::CloneExists { destination: a })@ == (DiskError::CloneExists {
            destination: a@,
        }),
        (DiskError::CloneFailed { source: a, status: b })@ == (DiskError::CloneFailed {
            source: a@,
            status: b@,
        }),
        (DiskError::UnsupportedRole { id: a, role: b })@ == (DiskError::UnsupportedRole {
            id: a@,
            role: b@,
        }),
{
}

} // verus!
