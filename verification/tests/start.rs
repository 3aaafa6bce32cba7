use kata_checkpoint::hypervisor::{CloudHypervisorInner, VmmState};
use kata_checkpoint::lifecycle::{
    boot_context, config_file_context, refused_message, state_file_context, BootStep,
    MemoryRestoreMode, StartAction, StartEvent, StartState,
};
use kata_checkpoint::plan::{PlannedStep, Step};
use kata_checkpoint::restore_files::memory_exists_message;
use kata_checkpoint::snapshot_config::RestoredNetConfig;

fn launched(ch: &mut CloudHypervisorInner) -> (StartState, Vec<StartAction>) {
    let (state, action) = ch.start_vm(30);
    assert!(matches!(action, StartAction::LaunchHypervisor));
    assert_eq!(ch.timeout_secs, 30);
    let next = ch.advance_start(state, StartEvent::Done);
    assert_eq!(ch.state, VmmState::VmmServerReady);
    next
}

fn restorable() -> CloudHypervisorInner {
    let mut ch = CloudHypervisorInner::default();
    ch.vm_path = "/run/vm".to_string();
    ch.restore_path = Some("/ckpt".to_string());
    ch
}

#[test]
fn a_checkpoint_is_restored_with_its_descriptors() {
    let mut ch = restorable();
    let (state, actions) = launched(&mut ch);
    assert!(matches!(actions[..], [StartAction::ListDevices]));
    let (state, actions) = ch.advance_start(
        state,
        StartEvent::Devices(vec![vec![7, 8], vec![], vec![9]]),
    );
    let [StartAction::PrepareCheckpoint { checkpoint_dir, net_fd_counts }] = &actions[..] else {
        panic!("{actions:?}");
    };
    assert_eq!(checkpoint_dir, "/ckpt");
    assert_eq!(*net_fd_counts, [2, 0, 1]);
    let net = RestoredNetConfig { id: "_net0".to_string(), num_fds: 2 };
    let (state, actions) = ch.advance_start(state, StartEvent::Prepared(vec![net]));
    let [StartAction::Restore(call)] = &actions[..] else {
        panic!("{actions:?}");
    };
    assert_eq!(call.state_file, "/run/vm/state.json");
    assert_eq!(call.config_file, "/run/vm/config.json");
    assert_eq!(call.request.source_url, "file:///run/vm");
    assert_eq!(call.request.memory_restore_mode, MemoryRestoreMode::OnDemand);
    assert_eq!(call.request.net_fds.as_ref().unwrap().len(), 1);
    assert_eq!(call.fds, [7, 8, 9]);
    let (state, actions) = ch.advance_start(state, StartEvent::Done);
    let [StartAction::CloseFds(fds), StartAction::Resume] = &actions[..] else {
        panic!("{actions:?}");
    };
    assert_eq!(*fds, [7, 8, 9]);
    assert_eq!(ch.state, VmmState::VmmServerReady);
    let (state, actions) = ch.advance_start(state, StartEvent::Done);
    assert!(matches!(state, StartState::Running) && actions.is_empty());
    assert_eq!(ch.state, VmmState::VmRunning);
}

#[test]
fn descriptors_are_closed_when_a_restore_fails() {
    for prepared in [false, true] {
        let mut ch = restorable();
        let (state, _) = launched(&mut ch);
        let (mut state, _) = ch.advance_start(state, StartEvent::Devices(vec![vec![3], vec![4]]));
        if prepared {
            let (next, actions) = ch.advance_start(state, StartEvent::Prepared(vec![]));
            let [StartAction::Restore(call)] = &actions[..] else {
                panic!("{actions:?}");
            };
            assert_eq!(call.request.net_fds, None);
            state = next;
        }
        let (state, actions) = ch.advance_start(state, StartEvent::Failed);
        assert!(matches!(state, StartState::Failed));
        let [StartAction::CloseFds(fds)] = &actions[..] else {
            panic!("{actions:?}");
        };
        assert_eq!(*fds, [3, 4]);
        assert_eq!(ch.state, VmmState::VmmServerReady);
    }
}

#[test]
fn confidential_guests_are_refused() {
    let mut ch = restorable();
    ch.config.security_info.confidential_guest = true;
    let (state, actions) = launched(&mut ch);
    assert!(matches!(state, StartState::Refused) && actions.is_empty());
    assert_eq!(
        refused_message(),
        "Cloud Hypervisor checkpoint restore does not support confidential guests"
    );
}

#[test]
fn a_failed_launch_ends_the_start() {
    let mut ch = restorable();
    let (state, _) = ch.start_vm(1);
    let (state, actions) = ch.advance_start(state, StartEvent::Failed);
    assert!(matches!(state, StartState::Failed) && actions.is_empty());
    assert_eq!(ch.state, VmmState::NotReady);
}

#[test]
fn a_template_is_restored_by_copying() {
    let mut ch = CloudHypervisorInner::default();
    ch.vm_path = "/run/vm".to_string();
    ch.config.vm_template.boot_from_template = true;
    ch.config.vm_template.memory_path = "/tpl/memory".to_string();
    assert_eq!(
        ch.template_files().unwrap(),
        ["/tpl/memory", "/tpl/state.json", "/tpl/config.json"]
    );
    assert!(ch.should_restore_from_template(&vec![true, true, true]));
    assert!(!ch.should_restore_from_template(&vec![true, false, true]));
    assert!(!ch.should_restore_from_template(&vec![]));
    let (state, actions) = launched(&mut ch);
    assert!(matches!(actions[..], [StartAction::CheckTemplate]));
    let (state, actions) = ch.advance_start(state, StartEvent::Done);
    assert!(matches!(actions[..], [StartAction::PrepareTemplate]));
    let (state, actions) = ch.advance_start(state, StartEvent::Done);
    let [StartAction::Restore(call)] = &actions[..] else {
        panic!("{actions:?}");
    };
    assert_eq!(call.request.memory_restore_mode, MemoryRestoreMode::Copy);
    assert!(call.fds.is_empty() && call.request.net_fds.is_none());
    let (state, actions) = ch.advance_start(state, StartEvent::Done);
    assert!(matches!(&actions[..], [StartAction::CloseFds(fds), StartAction::Resume] if fds.is_empty()));
    let (state, _) = ch.advance_start(state, StartEvent::Done);
    assert!(matches!(state, StartState::Running));
    assert!(ch.config.vm_template.boot_from_template);
}

#[test]
fn without_template_files_the_vm_boots() {
    let mut ch = CloudHypervisorInner::default();
    ch.config.vm_template.boot_from_template = true;
    ch.config.vm_template.memory_path = "/tpl/memory".to_string();
    let (state, _) = launched(&mut ch);
    let (state, actions) = ch.advance_start(state, StartEvent::Failed);
    assert!(matches!(actions[..], [StartAction::Boot]));
    assert!(!ch.config.vm_template.boot_from_template);
    let (state, _) = ch.advance_start(state, StartEvent::Done);
    assert!(matches!(state, StartState::Running));

    let mut ch = CloudHypervisorInner::default();
    ch.config.vm_template.boot_from_template = true;
    ch.config.vm_template.memory_path = "/".to_string();
    assert!(ch.template_dir().is_none() && ch.template_files().is_none());
    assert!(!ch.should_restore_from_template(&vec![true, true, true]));
    let (_, actions) = launched(&mut ch);
    assert!(matches!(actions[..], [StartAction::Boot]));
    assert!(!ch.config.vm_template.boot_from_template);
}

#[test]
fn a_vm_is_stopped_once() {
    let mut ch = CloudHypervisorInner::default();
    assert!(!ch.stop_vm());
    ch.state = VmmState::VmRunning;
    assert!(ch.stop_vm());
    assert_eq!(ch.state, VmmState::NotReady);
    assert!(!ch.stop_vm());
    ch.state = VmmState::VmmServerReady;
    assert!(!ch.stop_vm());
    assert_eq!(ch.state, VmmState::VmmServerReady);
    ch.disconnect();
    assert_eq!(ch.state, VmmState::NotReady);
}

#[test]
fn booting_closes_the_descriptors_of_each_network() {
    let ch = CloudHypervisorInner::default();
    assert_eq!(
        ch.boot_vm(&vec![vec![5, 6], vec![], vec![7]]),
        [
            BootStep::CreateSandboxDir { mode: 0o750 },
            BootStep::CreateVm,
            BootStep::AddNetwork { index: 0 },
            BootStep::CloseFd { fd: 5 },
            BootStep::CloseFd { fd: 6 },
            BootStep::AddNetwork { index: 1 },
            BootStep::AddNetwork { index: 2 },
            BootStep::CloseFd { fd: 7 },
            BootStep::StartVm,
        ]
    );
    assert_eq!(
        boot_context(&BootStep::AddNetwork { index: 0 }).as_deref(),
        Some("failed to add vm netdev with fds")
    );
    assert_eq!(
        boot_context(&BootStep::CloseFd { fd: 1 }).as_deref(),
        Some("failed to close netdev fd")
    );
    assert_eq!(
        boot_context(&BootStep::CreateSandboxDir { mode: 0 }).as_deref(),
        Some("failed to create sandbox path")
    );
    assert_eq!(boot_context(&BootStep::StartVm), None);
}

fn step(step: Step<String>, contexts: &[&str]) -> PlannedStep {
    PlannedStep {
        step,
        contexts: contexts.iter().map(|c| c.to_string()).collect(),
    }
}

#[test]
fn template_files_are_copied() {
    let mut ch = CloudHypervisorInner::default();
    ch.id = "sb".to_string();
    ch.vm_path = "/vm".to_string();
    assert_eq!(
        ch.prepare_restore_files(),
        Err("template memory path has no parent directory".to_string())
    );
    assert_eq!(
        ch.save_vm(),
        Err("template memory path has no parent directory".to_string())
    );
    ch.config.vm_template.memory_path = "/tpl/memory".to_string();
    let plan = ch.prepare_restore_files().unwrap();
    assert_eq!(plan.len(), 8);
    assert_eq!(
        plan[0],
        step(
            Step::CreateOwnedDirAll { path: "/vm".to_string(), mode: 0o750 },
            &["failed to create VM path /vm"]
        )
    );
    assert_eq!(
        plan[1],
        step(
            Step::ReadPermissions { path: "/tpl/config.json".to_string() },
            &["stat /tpl/config.json", "copy template config"]
        )
    );
    assert_eq!(
        plan[5],
        step(
            Step::CopyFile {
                from: "/tpl/state.json".to_string(),
                to: "/vm/state.json".to_string()
            },
            &["copy /tpl/state.json to /vm/state.json", "copy template state"]
        )
    );
    assert_eq!(
        plan[6],
        step(
            Step::ApplyPermissions { path: "/vm/state.json".to_string() },
            &["set permissions on /vm/state.json", "copy template state"]
        )
    );
    assert_eq!(
        plan[7],
        step(
            Step::AdaptVsock {
                config: "/vm/config.json".to_string(),
                sandbox_id: "sb".to_string()
            },
            &["update restore vsock socket path"]
        )
    );
}

#[test]
fn snapshots_are_checked() {
    let mut ch = CloudHypervisorInner::default();
    ch.config.vm_template.memory_path = "tpl/memory".to_string();
    let plan = ch.save_vm().unwrap();
    assert_eq!(
        plan,
        [
            step(Step::Snapshot { destination_url: "file://tpl".to_string() }, &[]),
            step(
                Step::Access { path: "tpl/config.json".to_string() },
                &["snapshot did not create tpl/config.json"]
            ),
            step(
                Step::Access { path: "tpl/state.json".to_string() },
                &["snapshot did not create tpl/state.json"]
            ),
        ]
    );
    ch.config.vm_template.boot_to_be_template = true;
    assert_eq!(
        *ch.save_vm().unwrap().last().unwrap(),
        step(
            Step::MarkMemory { config: "tpl/config.json".to_string(), shared: false },
            &["patch snapshot memory sharing"]
        )
    );
    let plan = CloudHypervisorInner::save_vm_to("/out/c1");
    assert_eq!(plan.len(), 6);
    assert_eq!(
        plan[0],
        step(
            Step::CreateDirAll { path: "/out".to_string() },
            &["create Cloud Hypervisor checkpoint parent /out"]
        )
    );
    assert_eq!(
        plan[1],
        step(
            Step::CreateDir { path: "/out/c1".to_string() },
            &["create Cloud Hypervisor checkpoint directory /out/c1"]
        )
    );
    assert_eq!(
        plan[5],
        step(
            Step::Access { path: "/out/c1/memory-ranges".to_string() },
            &["snapshot did not create /out/c1/memory-ranges"]
        )
    );
    assert_eq!(
        CloudHypervisorInner::save_vm_to("/")[0],
        step(
            Step::CreateDir { path: "/".to_string() },
            &["create Cloud Hypervisor checkpoint directory /"]
        )
    );
}

#[test]
fn checkpoint_files_are_prepared_in_order() {
    let mut ch = CloudHypervisorInner::default();
    ch.id = "sb".to_string();
    ch.vm_path = "/vm".to_string();
    ch.config.boot_info.image = "/img".to_string();
    let plan = ch.prepare_checkpoint_restore_files("/c");
    assert_eq!(plan.len(), 15);
    assert_eq!(
        plan[3],
        step(
            Step::Access { path: "/c/memory-ranges".to_string() },
            &["access checkpoint artifact /c/memory-ranges"]
        )
    );
    assert_eq!(
        plan[10],
        step(
            Step::RestoreDisks {
                checkpoint_dir: "/c".to_string(),
                config: "/vm/config.json".to_string(),
                vm_path: "/vm".to_string(),
                boot_image: "/img".to_string(),
            },
            &["prepare checkpoint block disks"]
        )
    );
    assert_eq!(plan[11], step(Step::RefuseExisting { path: "/vm/memory-ranges".to_string() }, &[]));
    assert_eq!(
        plan[12],
        step(
            Step::Resolve { path: "/c/memory-ranges".to_string() },
            &["canonicalize /c/memory-ranges"]
        )
    );
    assert_eq!(
        plan[13],
        step(
            Step::LinkToResolved { link: "/vm/memory-ranges".to_string() },
            &["link checkpoint memory /c/memory-ranges to /vm/memory-ranges"]
        )
    );
    assert_eq!(
        plan[14],
        step(
            Step::AdaptRuntimePaths {
                config: "/vm/config.json".to_string(),
                sandbox_id: "sb".to_string()
            },
            &[]
        )
    );
    assert_eq!(
        memory_exists_message("/vm/memory-ranges"),
        "restore memory path already exists: /vm/memory-ranges"
    );
}

#[test]
fn second_preparation_is_refused() {
    let mut ch = CloudHypervisorInner::default();
    ch.vm_path = "/vm".to_string();
    let mut links: Vec<String> = Vec::new();
    let mut prepare = || {
        for planned in ch.prepare_checkpoint_restore_files("/c") {
            match planned.step {
                Step::RefuseExisting { path } if links.contains(&path) => {
                    return Err(memory_exists_message(&path))
                }
                Step::LinkToResolved { link } => links.push(link),
                _ => {}
            }
        }
        Ok(())
    };
    assert_eq!(prepare(), Ok(()));
    let refused = Err("restore memory path already exists: /vm/memory-ranges".to_string());
    assert_eq!(prepare(), refused);
    assert_eq!(prepare(), refused);
    assert_eq!(links, ["/vm/memory-ranges"]);
}

#[test]
fn configuration_files_are_private() {
    let file = CloudHypervisorInner::write_json_file("/vm/config.json");
    assert_eq!(file.mode, 0o600);
    assert_eq!(file.read_context, "read /vm/config.json");
    assert_eq!(file.parse_context, "parse /vm/config.json");
    assert_eq!(file.write_context, "write /vm/config.json");
    assert_eq!(file.mode_context, "set permissions on /vm/config.json");
    assert_eq!(state_file_context("/s"), "access state file /s");
    assert_eq!(config_file_context("/c"), "access config file /c");
}

#[test]
fn preparing_a_vm() {
    let mut ch = CloudHypervisorInner::default();
    ch.state = VmmState::VmRunning;
    let pair = |k: &str, v: &str| (k.to_string(), v.to_string());
    let dir = pair("io.katacontainers.vm.checkpoint_dir", "/ckpt");
    ch.prepare_vm("sb", &vec![dir.clone(), pair("io.katacontainers.vm.restore", "true")]);
    assert_eq!(ch.id, "sb");
    assert_eq!(ch.state, VmmState::NotReady);
    assert_eq!(ch.restore_path.as_deref(), Some("/ckpt"));
    ch.prepare_vm("sb", &vec![dir.clone(), pair("io.katacontainers.vm.restore", "True")]);
    assert_eq!(ch.restore_path, None);
    ch.prepare_vm("sb", &vec![pair("io.katacontainers.vm.restore", "true")]);
    assert_eq!(ch.restore_path, None);
    ch.prepare_vm("sb", &vec![dir]);
    assert_eq!(ch.restore_path, None);

    let environment = ch.setup_environment("/run/sb");
    assert_eq!((ch.run_dir.as_str(), ch.vm_path.as_str()), ("/run/sb", "/run/sb"));
    assert_eq!(
        environment.sandbox,
        step(
            Step::CreateOwnedDirAll { path: "/run/sb".to_string(), mode: 0o750 },
            &["failed to create sandbox directory /run/sb"]
        )
    );
    assert_eq!(environment.jailer, None);
    ch.jailer_root = "/jail".to_string();
    assert_eq!(
        ch.setup_environment("/run/sb").jailer,
        Some(Step::CreateOwnedDirAll { path: "/jail".to_string(), mode: 0o750 })
    );
    assert_eq!(ch.jailer_dir_message("Os"), "Failed to create dir /jail err : Os");

    assert_eq!(ch.finish_prepare(Some("/ns".to_string()), None), None);
    assert_eq!(ch.netns.as_deref(), Some("/ns"));
    assert_eq!(
        ch.finish_prepare(None, Some("l".to_string())),
        Some("l".to_string())
    );
    assert_eq!(ch.config.security_info.selinux_label.as_deref(), Some("l"));
    ch.config.disable_selinux = true;
    assert_eq!(ch.finish_prepare(None, Some("m".to_string())), None);
    assert_eq!(ch.config.security_info.selinux_label.as_deref(), Some("l"));
}
