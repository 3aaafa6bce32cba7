use kata_checkpoint::hypervisor::{CloudHypervisorInner, Process};
use kata_checkpoint::launch::{
    no_list_message, stage_context, FeaturesError, HypervisorStage, PingStep,
};
use kata_checkpoint::lifecycle::join_outcome;
use kata_checkpoint::log_output::{
    check_streams, cloud_hypervisor_log_output, collect_vcpu_tids, exit_report, get_ch_vcpu_tids,
    missing_line_message, parse_ch_log_level, CloudHypervisorLogLevel, OutputEvent, OutputStep,
    OutputStream,
};
use kata_checkpoint::plan::Step;
use kata_checkpoint::protection::GuestProtection;
use kata_checkpoint::queries::Removal;
use std::collections::HashMap;

#[test]
fn test_parse_ch_log_level() {
    let tests = [
        // Default level with various values
        ("", CloudHypervisorLogLevel::Info),
        ("foo", CloudHypervisorLogLevel::Info),
        ("info:", CloudHypervisorLogLevel::Info),
        // Levels are case sensitive
        ("foo trce: bar", CloudHypervisorLogLevel::Info),
        ("foo debg: bar", CloudHypervisorLogLevel::Info),
        ("foo info: bar", CloudHypervisorLogLevel::Info),
        ("foo warn: bar", CloudHypervisorLogLevel::Info),
        ("foo erro: bar", CloudHypervisorLogLevel::Info),
        ("foo INFO: bar", CloudHypervisorLogLevel::Info),
        ("foo DEBUG: bar", CloudHypervisorLogLevel::Info),
        ("foo DEBG: bar", CloudHypervisorLogLevel::Debug),
        ("foo WARN:bar", CloudHypervisorLogLevel::Warn),
        ("foo ERROR: bar", CloudHypervisorLogLevel::Info),
        ("foo ERRO: bar", CloudHypervisorLogLevel::Error),
        ("foo TRACE: bar", CloudHypervisorLogLevel::Info),
        ("foo TRCE: bar", CloudHypervisorLogLevel::Trace),
        // First match wins
        ("TRCE:ERRO:WARN:DEBG:INFO:", CloudHypervisorLogLevel::Trace),
        ("ERRO:WARN:DEBG:INFO:TRCE", CloudHypervisorLogLevel::Error),
        ("WARN:DEBG:INFO:TRCE:ERRO:", CloudHypervisorLogLevel::Warn),
        ("DEBG:INFO:TRCE:ERRO:WARN:", CloudHypervisorLogLevel::Debug),
        ("INFO:TRCE:ERRO:WARN:DEBG:", CloudHypervisorLogLevel::Info),
    ];
    for (i, (line, level)) in tests.into_iter().enumerate() {
        assert_eq!(level, parse_ch_log_level(line), "test[{i}]: {line}");
    }
}

#[test]
fn output_is_logged_until_the_shutdown() {
    let line = |stream, s: &str| OutputEvent::Line(stream, Some(s.to_string()));
    assert!(matches!(
        cloud_hypervisor_log_output(line(OutputStream::Stderr, "\u{e9} WARN: x")),
        OutputStep::Log(CloudHypervisorLogLevel::Warn, OutputStream::Stderr, s) if s == "\u{e9} WARN: x"
    ));
    assert!(matches!(
        cloud_hypervisor_log_output(line(OutputStream::Stdout, "")),
        OutputStep::Log(CloudHypervisorLogLevel::Info, OutputStream::Stdout, s) if s.is_empty()
    ));
    assert!(matches!(
        cloud_hypervisor_log_output(OutputEvent::Unreadable(OutputStream::Stdout)),
        OutputStep::Skip
    ));
    assert!(matches!(
        cloud_hypervisor_log_output(OutputEvent::Line(OutputStream::Stderr, None)),
        OutputStep::Fail(OutputStream::Stderr)
    ));
    assert_eq!(missing_line_message(OutputStream::Stderr), "missing stderr line");
    assert_eq!(missing_line_message(OutputStream::Stdout), "missing stdout line");
}

#[test]
fn process_is_killed_waited_for_and_reported() {
    let steps = |waited| {
        let mut steps = Vec::new();
        let mut event = OutputEvent::Shutdown;
        loop {
            let step = cloud_hypervisor_log_output(event);
            steps.push(format!("{step:?}"));
            event = match step {
                OutputStep::Kill => OutputEvent::Killed,
                OutputStep::Wait => OutputEvent::Waited(waited),
                OutputStep::Report(_) => OutputEvent::Reported,
                _ => return steps,
            };
        }
    };
    assert_eq!(steps(Some(Some(3))), ["Kill", "Wait", "Report(3)", "Done"]);
    assert_eq!(steps(Some(None)), ["Kill", "Wait", "Report(0)", "Done"]);
    assert_eq!(steps(None), ["Kill", "Wait", "Done"]);
}

#[test]
fn streams_and_exit_codes() {
    assert_eq!(check_streams(true, true), Ok(()));
    assert_eq!(
        check_streams(false, false),
        Err("failed to get child stdout".to_string())
    );
    assert_eq!(
        check_streams(true, false),
        Err("failed to get child stderr".to_string())
    );
    assert_eq!(exit_report(None), None);
    assert_eq!(exit_report(Some(None)), Some(0));
    assert_eq!(exit_report(Some(Some(3))), Some(3));
}

#[test]
fn test_get_thread_ids() {
    let tests = [
        (
            Err("Invalid proc path: /tmp/proc: No such file or directory (os error 2)".to_string()),
            "Invalid proc path: /tmp/proc: No such file or directory (os error 2)",
        ),
        (
            Err("Not a directory (os error 20)".to_string()),
            "Not a directory (os error 20)",
        ),
        (Ok(HashMap::new()), "The contents of proc path are not available."),
    ];
    for (scan, expected) in tests {
        assert_eq!(get_ch_vcpu_tids(scan).unwrap_err(), expected);
    }
}

#[test]
fn test_get_ch_vcpu_tids_mapping() {
    let threads = vec![
        // Non-vcpu thread, should be skipped.
        (1000, "main_thread\n".to_string()),
        (2001, "vcpu0\n".to_string()),
        (2002, "vcpu1\n".to_string()),
        (2003, "vcpu2\n".to_string()),
    ];
    let vcpus = get_ch_vcpu_tids(Ok(collect_vcpu_tids(&threads))).unwrap();

    // The mapping must be vcpu_id -> tid.
    assert_eq!(vcpus.len(), 3, "non-vcpu threads should be excluded");
    assert_eq!(vcpus[&0], 2001, "vcpu 0 should map to tid 2001");
    assert_eq!(vcpus[&1], 2002, "vcpu 1 should map to tid 2002");
    assert_eq!(vcpus[&2], 2003, "vcpu 2 should map to tid 2003");
    assert!(
        !vcpus.contains_key(&1000),
        "non-vcpu thread should not be in the map"
    );
}

#[test]
fn threads_without_vcpu_number_are_skipped() {
    let threads = vec![
        (1, "vcpu".to_string()),
        (2, "vcpux".to_string()),
        (3, "vcpu4294967296".to_string()),
        (4, "vcpu4294967295".to_string()),
        (5, "xvcpu1".to_string()),
        (6, "vcpu012\n".to_string()),
    ];
    let vcpus = collect_vcpu_tids(&threads);
    assert_eq!(vcpus.len(), 2);
    assert_eq!(vcpus[&4294967295], 4);
    assert_eq!(vcpus[&12], 6);
}

#[test]
fn hypervisor_stages() {
    let mut ch = CloudHypervisorInner::default();
    assert_eq!(ch.start_hypervisor(None), Ok(Some(HypervisorStage::Launch)));
    assert_eq!(
        ch.start_hypervisor(Some(HypervisorStage::Launch)),
        Ok(Some(HypervisorStage::SetupComms))
    );
    assert_eq!(
        ch.start_hypervisor(Some(HypervisorStage::SetupComms)),
        Ok(Some(HypervisorStage::CheckRunning))
    );
    let last = Some(HypervisorStage::CheckRunning);
    assert_eq!(ch.start_hypervisor(last), Ok(None));
    ch.guest_protection_to_use = GuestProtection::Tdx;
    assert_eq!(ch.start_hypervisor(last), Ok(None));
    ch.ch_features = Some(vec!["kvm".to_string()]);
    assert_eq!(
        ch.start_hypervisor(last),
        Err("Cloud Hypervisor is not built with TDX support".to_string())
    );
    ch.ch_features = Some(vec!["kvm".to_string(), "tdx".to_string()]);
    assert_eq!(ch.start_hypervisor(last), Ok(None));
    assert_eq!(stage_context(HypervisorStage::Launch), "launch failed");
    assert_eq!(stage_context(HypervisorStage::SetupComms), "comms setup failed");
    assert_eq!(
        stage_context(HypervisorStage::CheckRunning),
        "hypervisor running check failed"
    );
}

#[test]
fn launch_commands() {
    let mut ch = CloudHypervisorInner::default();
    ch.config.path = "/usr/bin/clh".to_string();
    let command = ch.cloud_hypervisor_launch("/run/api.sock", false).unwrap();
    assert_eq!(command.program, "/usr/bin/clh");
    assert_eq!(command.args, ["--api-socket", "/run/api.sock"]);
    assert_eq!((command.env_name.as_str(), command.env_value.as_str()), ("RUST_BACKTRACE", "full"));
    assert!(command.netns.is_none() && command.selinux_label.is_none());
    assert!(!command.as_rootless_user);

    ch.extra_args = Some(vec!["--log-file".to_string(), "/l".to_string()]);
    ch.config.enable_debug = true;
    ch.config.security_info.disable_seccomp = true;
    ch.config.security_info.selinux_label = Some("label".to_string());
    ch.netns = Some("/ns".to_string());
    assert_eq!(
        ch.cloud_hypervisor_launch("/s", true).unwrap_err(),
        "rootless user must be specified for rootless cloud-hypervisor"
    );
    ch.config.security_info.rootless_user = true;
    let command = ch.cloud_hypervisor_launch("/s", true).unwrap();
    assert_eq!(
        command.args,
        ["--api-socket", "/s", "--log-file", "/l", "-v", "--seccomp", "false"]
    );
    assert_eq!(command.netns.as_deref(), Some("/ns"));
    assert_eq!(command.selinux_label.as_deref(), Some("label"));
    assert!(command.as_rootless_user);

    ch.process = Some(Process { id: Some(77) });
    assert_eq!(
        ch.cloud_hypervisor_launch("/s", true).unwrap_err(),
        "clh already running with PID 77"
    );
    ch.process = Some(Process { id: None });
    assert_eq!(
        ch.cloud_hypervisor_ensure_not_launched().unwrap_err(),
        "clh already running with PID 0"
    );
}

#[test]
fn launched_processes_are_noted() {
    let mut ch = CloudHypervisorInner::default();
    assert_eq!(ch.launched(Some(5)), Err("no receiver channel".to_string()));
    assert_eq!(ch.pid, Some(5));
    ch.shutdown_rx = true;
    assert_eq!(ch.launched(Some(6)), Err("no exit notify".to_string()));
    ch.exit_notify = true;
    assert_eq!(ch.launched(Some(7)), Ok(()));
    assert_eq!((ch.pid, ch.tasks, ch.exit_notify), (Some(7), Some(1), false));
    assert_eq!(ch.launched(Some(8)), Err("no exit notify".to_string()));
}

#[test]
fn waiting_for_an_answer() {
    let mut ch = CloudHypervisorInner::default();
    ch.timeout_secs = 10;
    assert_eq!(ch.timeout_message(), "API socket connect timed out after 10 seconds");
    assert_eq!(ch.timeout_duration_secs(), 10);
    ch.timeout_secs = -1;
    assert_eq!(ch.timeout_message(), "API socket connect timed out after -1 seconds");
    assert_eq!(ch.timeout_duration_secs(), -1i32 as u64);
    ch.timeout_secs = i32::MIN;
    assert_eq!(ch.timeout_duration_secs(), i32::MIN as u64);
    assert_eq!(
        ch.timeout_message(),
        "API socket connect timed out after -2147483648 seconds"
    );
    assert_eq!(ch.cloud_hypervisor_setup_comms(true), PingStep::Ready);
    assert_eq!(ch.cloud_hypervisor_setup_comms(false), PingStep::RetryAfter { ms: 50 });
}

#[test]
fn features_are_read_from_the_answer() {
    let mut ch = CloudHypervisorInner::default();
    assert!(matches!(
        ch.cloud_hypervisor_ping_until_ready(Err("refused".to_string())),
        Ok(PingStep::RetryAfter { ms: 50 })
    ));
    assert!(matches!(
        ch.cloud_hypervisor_ping_until_ready(Ok(None)),
        Ok(PingStep::Ready)
    ));
    let mut ping = |answer: &str| ch.cloud_hypervisor_ping_until_ready(Ok(Some(answer.to_string())));
    assert!(matches!(
        ping(r#"{"version":"v53.0","features":["kvm","tdx",7]}"#),
        Ok(PingStep::Ready)
    ));
    assert!(matches!(ping(r#"{"version":"v53.0"}"#), Ok(PingStep::Ready)));
    assert!(matches!(ping(r#"{"features":null}"#), Ok(PingStep::Ready)));
    assert!(matches!(ping("[1]"), Ok(PingStep::Ready)));
    assert!(matches!(ping(r#"{"features":"kvm"}"#), Err(FeaturesError::NoList)));
    assert!(matches!(
        ping("nonsense"),
        Err(FeaturesError::Unreadable(e)) if e.detail == "expected ident at line 1 column 2"
    ));
    assert_eq!(
        ch.ch_features,
        Some(vec!["kvm".to_string(), "tdx".to_string(), "7".to_string()])
    );
    assert_eq!(no_list_message(), "expected CH to return array of features");
}

#[test]
fn shutdown_and_wait() {
    let mut ch = CloudHypervisorInner::default();
    assert_eq!(ch.check_shutdown_channel(), Err("no shutdown channel".to_string()));
    ch.shutdown_tx = true;
    assert_eq!(ch.check_shutdown_channel(), Ok(()));
    assert_eq!(
        ch.cloud_hypervisor_shutdown(false),
        Err("failed to request shutdown".to_string())
    );
    assert_eq!(ch.cloud_hypervisor_shutdown(true), Err("no tasks".to_string()));
    ch.tasks = Some(1);
    assert_eq!(ch.cloud_hypervisor_shutdown(true), Ok(1));
    assert_eq!(ch.tasks, None);
    assert_eq!(join_outcome(&vec![], "[]"), Ok(()));
    assert_eq!(
        join_outcome(&vec!["e".to_string()], "[e]"),
        Err("wait all tasks failed: [e]".to_string())
    );
    assert_eq!(ch.cloud_hypervisor_wait(), Err("clh not running".to_string()));
    ch.process = Some(Process { id: None });
    assert_eq!(ch.cloud_hypervisor_wait(), Err("clh missing PID".to_string()));
    ch.process = Some(Process { id: Some(9) });
    assert_eq!(ch.cloud_hypervisor_wait(), Ok(9));
    assert!(ch.process.is_none());
    assert_eq!(ch.wait_vm(), 0);
}

#[test]
fn queries() {
    let mut ch = CloudHypervisorInner::default();
    ch.vm_path = "/run/vm".to_string();
    assert_eq!(ch.get_pids(), Err("could not get vmm master tid".to_string()));
    assert_eq!(ch.get_ns_path(), Err("could not get ns path".to_string()));
    assert_eq!(ch.get_thread_ids(), Err("could not get vmm master tid".to_string()));
    ch.pid = Some(1203);
    assert_eq!(ch.get_vmm_master_tid(), Ok(1203));
    assert_eq!(ch.get_pids(), Ok(vec![1203]));
    assert_eq!(ch.get_ns_path(), Ok("/proc/1203/ns".to_string()));
    assert_eq!(ch.get_thread_ids(), Ok("/proc/1203".to_string()));
    assert_eq!(ch.get_agent_socket("/run/v.sock"), "hvsock:///run/v.sock");
    assert_eq!(
        ch.get_jailer_root("/jail"),
        Step::CreateOwnedDirAll { path: "/jail".to_string(), mode: 0o750 }
    );
    let vm_dir = || Removal::VmDir { path: "/run/vm".to_string() };
    assert_eq!(ch.cleanup(false), vec![vm_dir()]);
    assert_eq!(ch.cleanup(true), vec![Removal::SymlinkDir, vm_dir()]);
    assert!(ch.get_hypervisor_metrics().unwrap_err().ends_with("issues/8800"));
}
