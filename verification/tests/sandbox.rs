use kata_checkpoint::checkpoint::{
    copy_failed_message, copy_passthrough_files, copy_rw_diff, passthrough_context,
    CheckpointContainerMetadata, CheckpointMetadata, CheckpointSandboxRequest, DirEntry,
    VirtCheckpointRestore, VirtSandbox,
};
use kata_checkpoint::checkpoint_run::{
    serialize_context, CheckpointAction, CheckpointEvent, CheckpointState, SandboxContainer,
};
use kata_checkpoint::overlay::{
    declared_overlay, overlay_mount_options, overlay_paths, rootfs_overlay_paths, Mount,
};
use kata_checkpoint::pause::{
    PauseAction, PauseError, PauseState, ReconnectStep, ResumeAction, ResumeState,
};
use kata_checkpoint::plan::{PlannedStep, Step};

type Restore = VirtCheckpointRestore<VirtSandbox, ()>;

fn restore(sid: &str) -> Restore {
    VirtCheckpointRestore::new(VirtSandbox { sid: sid.to_string() }, ())
}

fn strings(list: &[&str]) -> Vec<String> {
    list.iter().map(|s| s.to_string()).collect()
}

fn mount(source: &str, options: &[&str]) -> Mount {
    Mount {
        source: source.to_string(),
        destination: "/".to_string(),
        fs_type: "overlay".to_string(),
        options: strings(options),
    }
}

#[test]
fn overlay_options_name_layers() {
    let (lowers, upper) = overlay_paths(&strings(&[
        "index=off",
        "lowerdir=/a:/b",
        "upperdir=/u",
        "lowerdir=/c",
        "upperdir=/v",
    ]));
    assert_eq!(lowers, ["/a", "/b"]);
    assert_eq!(upper.as_deref(), Some("/u"));
    let (lowers, upper) = overlay_paths(&strings(&["ro", "xlowerdir=/a"]));
    assert!(lowers.is_empty() && upper.is_none());
    let (lowers, _) = overlay_paths(&strings(&["lowerdir="]));
    assert_eq!(lowers, [""]);
}

#[test]
fn mount_options_are_parsed_back() {
    let lowers = strings(&["/l1", "/l2", "/l3"]);
    let options = overlay_mount_options(&lowers, "/up", "/work");
    assert_eq!(options, "lowerdir=/l1:/l2:/l3,upperdir=/up,workdir=/work");
    let parts: Vec<String> = options.split(',').map(str::to_string).collect();
    assert_eq!(overlay_paths(&parts), (lowers, Some("/up".to_string())));
}

const TABLE: &str = "\
22 1 8:1 / / rw - ext4 /dev/sda1 rw
no separator
30 22 0:40 / /b/rootfs rw,relatime shared:7 - overlay overlay rw,lowerdir=/l1:/l2,upperdir=/u1,workdir=/w1
31 22 0:41 / /src rw,relatime shared:7 - overlay overlay rw,lowerdir=/l3,upperdir=/u2,workdir=/w2
32 22 0:42 / /ro rw,relatime shared:7 - overlay overlay ro,lowerdir=/l4
";

#[test]
fn layers_come_from_mounts_or_the_mount_table() {
    let mounts = vec![mount("/x", &["ro"]), mount("/y", &["lowerdir=/m", "upperdir=/n"])];
    let found = rootfs_overlay_paths("/b", &mounts, TABLE).unwrap();
    assert_eq!(found, (strings(&["/m"]), "/n".to_string()));
    assert_eq!(declared_overlay(&mounts), Some(found));

    let found = rootfs_overlay_paths("/b/", &vec![mount("/x", &[])], TABLE).unwrap();
    assert_eq!(found, (strings(&["/l1", "/l2"]), "/u1".to_string()));

    let found = rootfs_overlay_paths("/other", &vec![mount("//src/.", &["ro"])], TABLE).unwrap();
    assert_eq!(found, (strings(&["/l3"]), "/u2".to_string()));

    let error = rootfs_overlay_paths("/other", &vec![mount("/ro", &[])], TABLE).unwrap_err();
    assert_eq!(error.message(), "cannot locate overlay upperdir for bundle /other");
    assert!(declared_overlay(&vec![]).is_none());
}

#[test]
fn requests_are_validated() {
    let request = |sandbox_id: &str, output_path: &str| CheckpointSandboxRequest {
        sandbox_id: sandbox_id.to_string(),
        output_path: output_path.to_string(),
    };
    let restore = restore("sb");
    assert_eq!(restore.validate_checkpoint_sandbox(&request("sb", "/o")), Ok(()));
    assert_eq!(
        restore.validate_checkpoint_sandbox(&request("other", "")),
        Err("checkpoint sandbox id other does not match sb".to_string())
    );
    assert_eq!(
        restore.validate_checkpoint_sandbox(&request("sb", "")),
        Err("checkpoint output path is empty".to_string())
    );
}

fn request(output_path: &str) -> CheckpointSandboxRequest {
    CheckpointSandboxRequest {
        sandbox_id: "sb".to_string(),
        output_path: output_path.to_string(),
    }
}

fn container(id: &str, bundle: &str, mounts: Vec<Mount>, spec: u8) -> SandboxContainer<u8> {
    SandboxContainer {
        id: id.to_string(),
        bundle: bundle.to_string(),
        rootfs_mounts: mounts,
        spec,
    }
}

fn declared(id: &str, spec: u8) -> SandboxContainer<u8> {
    container(id, "/declared", vec![mount("/x", &["lowerdir=/l9", "upperdir=/u9"])], spec)
}

/// A checkpoint up to the listing of its containers.
fn until_listing(restore: &Restore) -> CheckpointState<u8> {
    let (state, action) = restore.checkpoint_sandbox(&request("/o"), "/share");
    assert!(matches!(&action, CheckpointAction::SaveVm { dir } if dir == "/o"));
    assert_eq!(action.context().as_deref(), Some("save VM checkpoint"));
    let (state, action) = restore.advance_checkpoint(state, CheckpointEvent::Done);
    assert_eq!(action.context(), None);
    match action {
        CheckpointAction::Run(plan) => assert_eq!(
            plan,
            [PlannedStep {
                step: Step::CopyPassthrough {
                    from: "/share/passthrough".to_string(),
                    to: "/o/share-passthrough".to_string(),
                },
                contexts: strings(&["checkpoint virtio-fs passthrough files"]),
            }]
        ),
        _ => panic!("the shared files are not copied"),
    }
    let (state, action) = restore.advance_checkpoint(state, CheckpointEvent::Done);
    assert!(matches!(action, CheckpointAction::GetAgentSocket));
    assert_eq!(action.context().as_deref(), Some("get checkpoint agent socket"));
    let socket = CheckpointEvent::Socket("hvsock://s".to_string());
    let (state, action) = restore.advance_checkpoint(state, socket);
    assert!(matches!(action, CheckpointAction::ListContainers));
    assert_eq!(action.context(), None);
    state
}

fn copied_to(action: &CheckpointAction<u8>) -> Option<(String, String)> {
    match action {
        CheckpointAction::Run(plan) => plan.iter().find_map(|p| match &p.step {
            Step::CopyTree { from, to } => Some((from.clone(), to.clone())),
            _ => None,
        }),
        _ => None,
    }
}

#[test]
fn checkpoint_saves_the_vm_first_and_the_metadata_last() {
    let restore = restore("sb");
    let state = until_listing(&restore);
    let listed = vec![declared("c1", 1), container("c2", "/b", vec![], 2)];
    let (state, action) = restore.advance_checkpoint(state, CheckpointEvent::Containers(listed));
    let copied = ("/u9/.".to_string(), "/o/containers/c1/rw-diff".to_string());
    assert_eq!(copied_to(&action), Some(copied));
    let (state, action) = restore.advance_checkpoint(state, CheckpointEvent::Done);
    assert!(matches!(action, CheckpointAction::ReadMountTable));
    assert_eq!(action.context().as_deref(), Some("read shim mountinfo for overlay snapshot"));
    let table = CheckpointEvent::MountTable(TABLE.to_string());
    let (state, action) = restore.advance_checkpoint(state, table);
    let copied = ("/u1/.".to_string(), "/o/containers/c2/rw-diff".to_string());
    assert_eq!(copied_to(&action), Some(copied));
    let (state, action) = restore.advance_checkpoint(state, CheckpointEvent::Done);
    assert_eq!(action.context().as_deref(), Some("write /o/metadata.json"));
    match action {
        CheckpointAction::WriteMetadata { path, metadata } => {
            assert_eq!(path, "/o/metadata.json");
            assert_eq!((metadata.version, metadata.sandbox_id.as_str()), (1, "sb"));
            assert_eq!(metadata.agent_socket, "hvsock://s");
            let kept: Vec<(&str, &str, u8)> = metadata
                .containers
                .iter()
                .map(|c| (c.old_id.as_str(), c.bundle.as_str(), c.spec))
                .collect();
            assert_eq!(kept, [("c1", "/declared", 1), ("c2", "/b", 2)]);
            assert_eq!(metadata.containers[0].lower_dirs, ["/l9"]);
            assert_eq!(metadata.containers[1].lower_dirs, ["/l1", "/l2"]);
            assert_eq!(metadata.containers[0].rootfs_mounts.len(), 1);
            assert!(metadata.containers[1].rootfs_mounts.is_empty());
        }
        _ => panic!("the metadata is not written"),
    }
    let (state, action) = restore.advance_checkpoint(state, CheckpointEvent::Done);
    assert!(matches!(action, CheckpointAction::Succeed));
    let (_, action) = restore.advance_checkpoint(state, CheckpointEvent::Done);
    assert!(matches!(action, CheckpointAction::Nothing));
    assert_eq!(serialize_context(), "serialize checkpoint metadata");
}

#[test]
fn checkpoint_without_containers_writes_its_metadata() {
    let restore = restore("sb");
    let state = until_listing(&restore);
    let (state, action) = restore.advance_checkpoint(state, CheckpointEvent::Containers(vec![]));
    assert!(matches!(
        &action,
        CheckpointAction::WriteMetadata { metadata, .. } if metadata.containers.is_empty()
    ));
    let (_, action) = restore.advance_checkpoint(state, CheckpointEvent::Failed);
    assert!(matches!(action, CheckpointAction::Fail));
}

#[test]
fn failed_checkpoint_writes_no_metadata() {
    let restore = restore("sb");
    let (state, _) = restore.checkpoint_sandbox::<u8>(&request("/o"), "/share");
    let (state, action) = restore.advance_checkpoint(state, CheckpointEvent::Failed);
    assert!(matches!(action, CheckpointAction::Fail));
    let (_, action) = restore.advance_checkpoint(state, CheckpointEvent::Done);
    assert!(matches!(action, CheckpointAction::Nothing));

    let state = until_listing(&restore);
    let listed = vec![declared("c1", 1), declared("c2", 2)];
    let (state, _) = restore.advance_checkpoint(state, CheckpointEvent::Containers(listed));
    let (state, action) = restore.advance_checkpoint(state, CheckpointEvent::Failed);
    assert!(matches!(action, CheckpointAction::Fail));
    let (_, action) = restore.advance_checkpoint(state, CheckpointEvent::Done);
    assert!(matches!(action, CheckpointAction::Nothing));

    let state = until_listing(&restore);
    let listed = vec![container("c3", "/nowhere", vec![], 3), declared("c1", 1)];
    let (state, action) = restore.advance_checkpoint(state, CheckpointEvent::Containers(listed));
    assert!(matches!(action, CheckpointAction::ReadMountTable));
    let table = CheckpointEvent::MountTable(TABLE.to_string());
    let (state, action) = restore.advance_checkpoint(state, table);
    match action {
        CheckpointAction::FailOverlay(e) => {
            assert_eq!(e.message(), "cannot locate overlay upperdir for bundle /nowhere")
        }
        _ => panic!("layers were found"),
    }
    let (_, action) = restore.advance_checkpoint(state, CheckpointEvent::Done);
    assert!(matches!(action, CheckpointAction::Nothing));
}

#[test]
fn containers_are_saved_and_restored() {
    let (plan, kept) = Restore::checkpoint_container(
        "/ckpt",
        "c1",
        "/bundle".to_string(),
        vec![mount("/x", &["lowerdir=/l1:/l2", "upperdir=/u"])],
        "",
        42u8,
    )
    .unwrap();
    let steps: Vec<Step<String>> = plan.into_iter().map(|p| p.step).collect();
    assert_eq!(
        steps,
        [
            Step::CreateDirAll { path: "/ckpt/containers/c1/rw-diff".to_string() },
            Step::CopyTree {
                from: "/u/.".to_string(),
                to: "/ckpt/containers/c1/rw-diff".to_string()
            },
            Step::CreateDirAll { path: "/ckpt/containers/c1/rw-work".to_string() },
            Step::CreateDirAll { path: "/ckpt/containers/c1/merged".to_string() },
        ]
    );
    assert_eq!((kept.old_id.as_str(), kept.bundle.as_str(), kept.spec), ("c1", "/bundle", 42));
    assert_eq!(kept.lower_dirs, ["/l1", "/l2"]);
    let error = Restore::checkpoint_container("/ckpt", "c2", "/b2".to_string(), vec![], "", ());
    assert_eq!(
        error.unwrap_err().message(),
        "cannot locate overlay upperdir for bundle /b2"
    );

    let mut metadata: CheckpointMetadata<u8> = restore("old").start_metadata("hvsock://x".to_string());
    assert_eq!((metadata.version, metadata.sandbox_id.as_str()), (1, "old"));
    assert_eq!(metadata.agent_socket, "hvsock://x");
    metadata.containers.push(kept);
    let sandbox = VirtSandbox { sid: "new".to_string() };
    let plan = sandbox.prepare_restored_rootfs("/ckpt", "/share", &metadata);
    let dir = "/ckpt/containers/c1/restores/new";
    let expected = [
        (
            Step::CopyPassthrough {
                from: "/ckpt/share-passthrough".to_string(),
                to: "/share/passthrough".to_string(),
            },
            strings(&["restore virtio-fs passthrough files"]),
        ),
        (
            Step::CreateDirAll { path: format!("{dir}/rw-diff") },
            strings(&["clone checkpoint overlay upperdir"]),
        ),
        (
            Step::CopyTree {
                from: "/ckpt/containers/c1/rw-diff/.".to_string(),
                to: format!("{dir}/rw-diff"),
            },
            strings(&["clone checkpoint overlay upperdir"]),
        ),
        (Step::CreateDirAll { path: format!("{dir}/rw-work") }, vec![]),
        (Step::CreateDirAll { path: format!("{dir}/merged") }, vec![]),
        (
            Step::MountOverlay {
                target: format!("{dir}/merged"),
                options: format!("lowerdir=/l1:/l2,upperdir={dir}/rw-diff,workdir={dir}/rw-work"),
            },
            vec![format!("mount restored overlay {dir}/merged")],
        ),
        (
            Step::CreateDirAll { path: "/share/passthrough/c1/rootfs".to_string() },
            vec![],
        ),
        (
            Step::Bind {
                source: format!("{dir}/merged"),
                target: "/share/passthrough/c1/rootfs".to_string(),
            },
            vec![format!(
                "bind restored rootfs {dir}/merged to /share/passthrough/c1/rootfs"
            )],
        ),
    ];
    assert_eq!(plan.len(), expected.len());
    for (planned, (step, contexts)) in plan.into_iter().zip(expected) {
        assert_eq!(planned, PlannedStep { step, contexts });
    }
}

#[test]
fn every_container_is_restored() {
    let container = |id: &str| CheckpointContainerMetadata {
        old_id: id.to_string(),
        bundle: String::new(),
        rootfs_mounts: vec![],
        lower_dirs: strings(&["/l"]),
        spec: (),
    };
    let metadata = CheckpointMetadata {
        version: 1,
        sandbox_id: "old".to_string(),
        agent_socket: String::new(),
        containers: vec![container("pause"), container("work")],
    };
    let sandbox = VirtSandbox { sid: "new".to_string() };
    let plan = sandbox.prepare_restored_rootfs("/ckpt", "/share", &metadata);
    assert_eq!(plan.len(), 15);
    assert_eq!(
        plan[9].step,
        Step::CopyTree {
            from: "/ckpt/containers/work/rw-diff/.".to_string(),
            to: "/ckpt/containers/work/restores/new/rw-diff".to_string(),
        }
    );
}

#[test]
fn passthrough_files_are_copied_without_directories() {
    let entry = |name: &str, is_file: bool, is_symlink: bool| DirEntry {
        name: name.to_string(),
        is_file,
        is_symlink,
    };
    let entries = vec![
        entry("sandbox-hosts", true, false),
        entry("c1", false, false),
        entry("link", false, true),
    ];
    let plan = copy_passthrough_files("/from", "/to", &entries);
    assert_eq!(
        plan,
        [
            PlannedStep {
                step: Step::CopyFile {
                    from: "/from/sandbox-hosts".to_string(),
                    to: "/to/sandbox-hosts".to_string()
                },
                contexts: strings(&[
                    "copy virtio-fs passthrough file /from/sandbox-hosts to /to/sandbox-hosts"
                ]),
            },
            PlannedStep {
                step: Step::CopyFile {
                    from: "/from/link".to_string(),
                    to: "/to/link".to_string()
                },
                contexts: strings(&["copy virtio-fs passthrough file /from/link to /to/link"]),
            },
        ]
    );
    assert_eq!(passthrough_context("/from"), "read virtio-fs passthrough /from");
    assert_eq!(copy_rw_diff("/a/.", "/b"), ["-a", "--reflink=auto", "/a/.", "/b"]);
    assert_eq!(
        copy_failed_message("exit status: 1"),
        "copy overlay upperdir failed with exit status: 1"
    );
}

#[test]
fn what_is_not_offered() {
    let restore = restore("sb");
    assert_eq!(restore.restore_sandbox().unwrap_err(), "restore is not implemented yet");
    assert_eq!(
        restore.prepare_restore_sandbox().unwrap_err(),
        "restore prepare is not implemented yet"
    );
    assert_eq!(
        restore.complete_restore_sandbox().unwrap_err(),
        "restore complete is not implemented yet"
    );
    assert_eq!(
        restore.restore_tasks().unwrap_err(),
        "task adoption is not implemented yet"
    );
}

#[test]
fn pausing_disconnects_the_agent_first() {
    let restore = restore("sb");
    let (state, action) = restore.pause_checkpoint_tasks(PauseState::Start, None);
    assert_eq!(action, PauseAction::DisconnectAgent);
    let (state, action) = restore.pause_checkpoint_tasks(state, None);
    assert_eq!(action, PauseAction::Sleep { ms: 250 });
    let (state, action) = restore.pause_checkpoint_tasks(state, None);
    assert_eq!(action, PauseAction::PauseVm);
    let (state, action) = restore.pause_checkpoint_tasks(state, None);
    assert_eq!(action, PauseAction::Succeed);
    assert_eq!(
        restore.pause_checkpoint_tasks(state, None),
        (PauseState::Ended, PauseAction::Nothing)
    );
}

#[test]
fn pause_failures() {
    let restore = restore("sb");
    let why = || Some("why".to_string());
    let (_, action) = restore.pause_checkpoint_tasks(PauseState::Disconnecting, why());
    let PauseAction::Fail(error) = action else {
        panic!("{action:?}");
    };
    assert_eq!(error.chain(), ["why", "disconnect agent before checkpoint"]);

    let (state, action) = restore.pause_checkpoint_tasks(PauseState::Pausing, why());
    assert_eq!(action, PauseAction::ReconnectAgent);
    let (_, action) = restore.pause_checkpoint_tasks(state, None);
    assert_eq!(
        action,
        PauseAction::Fail(PauseError::Pause { failure: "why".to_string() })
    );
    let (state, _) = restore.pause_checkpoint_tasks(PauseState::Pausing, why());
    let (_, action) = restore.pause_checkpoint_tasks(state, Some("gone".to_string()));
    let PauseAction::Fail(error) = action else {
        panic!("{action:?}");
    };
    assert_eq!(
        error.chain(),
        ["why", "pause VM", "failed to reconnect agent after pause error: gone"]
    );
}

#[test]
fn resuming_reconnects_the_agent() {
    let restore = restore("sb");
    let (state, action) = restore.resume_checkpoint_tasks(ResumeState::Start, true);
    assert_eq!(action, ResumeAction::ResumeVm);
    assert_eq!(
        restore.resume_checkpoint_tasks(state, false),
        (ResumeState::Ended, ResumeAction::FailResume)
    );
    let (state, action) = restore.resume_checkpoint_tasks(state, true);
    assert_eq!(action, ResumeAction::ReconnectAgent);
    assert_eq!(
        restore.resume_checkpoint_tasks(state, true),
        (ResumeState::Ended, ResumeAction::Succeed)
    );
    assert_eq!(
        restore.resume_checkpoint_tasks(state, false),
        (ResumeState::Ended, ResumeAction::FailReconnect)
    );
    assert_eq!(
        restore.reconnect_agent(Ok("hvsock://x".to_string())),
        ReconnectStep::StartAgent {
            address: "hvsock://x".to_string(),
            context: "reconnect agent after checkpoint".to_string(),
        }
    );
    assert_eq!(
        restore.reconnect_agent(Err("no".to_string())),
        ReconnectStep::Fail {
            failure: "no".to_string(),
            context: "get agent socket after checkpoint".to_string(),
        }
    );
}
