use kata_checkpoint::hypervisor::CloudHypervisorInner;
use kata_checkpoint::json::{parse_json, render_json, write_json, Json};
use kata_checkpoint::lifecycle::gather_fds;
use kata_checkpoint::snapshot_config::{ConfigError, ConfigFault, FsConfig, RestoredNetConfig};
use serde_json::Value;

fn value(data: &[u8]) -> Value {
    serde_json::from_slice(data).unwrap()
}

fn fs_device(tag: &str, socket: &str) -> FsConfig {
    FsConfig {
        tag: tag.to_string(),
        socket: socket.to_string(),
    }
}

fn fault(result: Result<Vec<u8>, ConfigError>) -> ConfigFault<String> {
    match result {
        Err(ConfigError::Fault(fault)) => fault,
        other => panic!("{other:?}"),
    }
}

#[test]
fn test_patch_checkpoint_runtime_paths() {
    let config = br#"{
        "vsock": {"socket": "/old/vsock.sock"},
        "fs": [
            {"tag": "kataShared", "socket": "/old/virtiofsd.sock"}
        ],
        "net": [
            {"id": "_net0"},
            {"id": "_net1"}
        ]
    }"#;
    let fs_devices = vec![fs_device("kataShared", "/new/virtiofsd.sock")];
    let vsock_path = "/run/vc/vm/sandbox-id/clh.sock".to_string();

    let (data, restored_networks) = CloudHypervisorInner::patch_checkpoint_runtime_paths(
        config,
        &Ok(vsock_path.clone()),
        &fs_devices,
        &[2, 4],
    )
    .unwrap();

    assert_eq!(
        restored_networks,
        vec![
            RestoredNetConfig {
                id: "_net0".to_string(),
                num_fds: 2,
            },
            RestoredNetConfig {
                id: "_net1".to_string(),
                num_fds: 4,
            },
        ]
    );
    let config = value(&data);
    assert_eq!(config["vsock"]["socket"], Value::String(vsock_path));
    assert_eq!(config["fs"][0]["socket"], "/new/virtiofsd.sock");
    assert_eq!(config["fs"][0]["tag"], "kataShared");
}

#[test]
fn test_patch_checkpoint_runtime_paths_rejects_network_mismatch() {
    let err = CloudHypervisorInner::patch_checkpoint_runtime_paths(
        br#"{"net": [{"id": "_net0"}]}"#,
        &Ok("/run/vc/vm/sandbox-id/clh.sock".to_string()),
        &[],
        &[],
    )
    .unwrap_err();
    let ConfigError::Fault(fault) = err else {
        panic!("{err:?}");
    };
    assert!(fault.message().contains("checkpoint has 1 network devices"));
    assert_eq!(
        fault.message(),
        "checkpoint has 1 network devices but restore prepared 0"
    );
}

#[test]
fn runtime_paths_faults() {
    let patch = |config: &str, devices: &[FsConfig], fds: &[usize]| {
        let result = CloudHypervisorInner::patch_checkpoint_runtime_paths(
            config.as_bytes(),
            &Err("no vsock path".to_string()),
            devices,
            fds,
        );
        match result {
            Err(ConfigError::Fault(fault)) => fault.message(),
            Err(ConfigError::Unreadable(e)) => e.detail,
            other => panic!("{other:?}"),
        }
    };
    assert_eq!(
        patch("{", &[], &[]),
        "EOF while parsing an object at line 1 column 1"
    );
    assert_eq!(patch(r#"{"vsock":{}}"#, &[], &[]), "no vsock path");
    assert_eq!(
        patch("{}", &[fs_device("a", "s")], &[]),
        "checkpoint config missing virtio-fs devices"
    );
    assert_eq!(
        patch(r#"{"fs":[{"tag":"b"}]}"#, &[fs_device("a", "s")], &[]),
        "checkpoint config missing virtio-fs tag a"
    );
    assert_eq!(
        patch(r#"{"net":[{"id":"n"},{"id":7}]}"#, &[], &[1, 1]),
        "checkpoint network device is missing an id"
    );
    assert_eq!(
        patch("[]", &[], &[1, 1]),
        "checkpoint has 0 network devices but restore prepared 2"
    );
}

#[test]
fn runtime_paths_without_devices_need_no_vsock_path() {
    let (data, nets) = CloudHypervisorInner::patch_checkpoint_runtime_paths(
        br#"{"vsock": null, "size": 18446744073709551615, "ratio": 0.5, "low": -9223372036854775808}"#,
        &Err("no vsock path".to_string()),
        &[],
        &[],
    )
    .unwrap();
    assert!(nets.is_empty());
    assert_eq!(
        value(&data),
        value(br#"{"vsock": null, "size": 18446744073709551615, "ratio": 0.5, "low": -9223372036854775808}"#)
    );
}

#[test]
fn last_device_of_a_tag_wins_and_patching_twice_changes_nothing() {
    let config = br#"{"vsock":{"cid":3,"socket":"v"},"fs":[{"tag":"x"},{"tag":"a","socket":"o"},{"tag":"a"}],"net":[{"id":"n"}]}"#;
    let devices = [fs_device("a", "first"), fs_device("x", "y"), fs_device("a", "second")];
    let path = Ok("w".to_string());
    let (once, nets) =
        CloudHypervisorInner::patch_checkpoint_runtime_paths(config, &path, &devices, &[9]).unwrap();
    assert_eq!(
        value(&once),
        value(br#"{"vsock":{"cid":3,"socket":"w"},"fs":[{"tag":"x","socket":"y"},{"tag":"a","socket":"second"},{"tag":"a"}],"net":[{"id":"n"}]}"#)
    );
    let (twice, nets_again) =
        CloudHypervisorInner::patch_checkpoint_runtime_paths(&once, &path, &devices, &[9]).unwrap();
    assert_eq!(once, twice);
    assert_eq!(nets, nets_again);
}

#[test]
fn vsock_socket_path_is_updated() {
    let data = CloudHypervisorInner::update_vsock_socket_path(
        br#"{"vsock":{"cid":3,"socket":"old"},"memory":{"size":1}}"#,
        &Ok("new".to_string()),
    )
    .unwrap();
    assert_eq!(
        value(&data),
        value(br#"{"vsock":{"cid":3,"socket":"new"},"memory":{"size":1}}"#)
    );
    let data =
        CloudHypervisorInner::update_vsock_socket_path(br#"{"a":[]}"#, &Err("no".to_string()))
            .unwrap();
    assert_eq!(value(&data), value(br#"{"a":[]}"#));
    let fault = fault(CloudHypervisorInner::update_vsock_socket_path(
        br#"{"vsock":{}}"#,
        &Err("no".to_string()),
    ));
    assert_eq!(fault, ConfigFault::VsockPath("no".to_string()));
}

#[test]
fn memory_is_marked() {
    let config = br#"{"memory":{"size":5,"shared":true,"zones":[{"id":"z0","shared":true},{"id":"z1"}]},"cpus":2}"#;
    let data = CloudHypervisorInner::patch_snapshot_memory_shared(config, false).unwrap();
    assert_eq!(
        value(&data),
        value(br#"{"memory":{"size":5,"shared":false,"zones":[{"id":"z0","shared":false},{"id":"z1","shared":false}]},"cpus":2}"#)
    );
    let shared = CloudHypervisorInner::patch_snapshot_memory_shared(&data, true).unwrap();
    assert_eq!(
        shared,
        CloudHypervisorInner::patch_snapshot_memory_shared(config, true).unwrap()
    );
}

#[test]
fn last_mark_counts_in_files_with_fractions() {
    let config = br#"{"balloon":0.5,"memory":{"size":5,"zones":[{"id":"z0"}]},"scale":1.25e3}"#;
    let mark = |data: &[u8], shared| {
        CloudHypervisorInner::patch_snapshot_memory_shared(data, shared).unwrap()
    };
    let marked = mark(config, true);
    assert_eq!(
        value(&marked),
        value(br#"{"balloon":0.5,"memory":{"size":5,"shared":true,"zones":[{"id":"z0","shared":true}]},"scale":1250.0}"#)
    );
    assert_eq!(mark(&marked, false), mark(config, false));
    assert_eq!(mark(&marked, true), marked);
}

#[test]
fn networks_are_paired_with_their_descriptors() {
    let networks = vec![vec![7, 8], vec![], vec![9]];
    let (counts, fds) = gather_fds(&networks);
    let config = br#"{"net":[{"id":"a"},{"id":"b"},{"id":"c"}]}"#;
    let (_, nets) = CloudHypervisorInner::patch_checkpoint_runtime_paths(
        config,
        &Ok("/v".to_string()),
        &[],
        &counts,
    )
    .unwrap();
    let mut at = 0;
    let mut own = Vec::new();
    for net in &nets {
        own.push((net.id.as_str(), fds[at..at + net.num_fds].to_vec()));
        at += net.num_fds;
    }
    assert_eq!(own, [("a", vec![7, 8]), ("b", vec![]), ("c", vec![9])]);
    assert_eq!(at, fds.len());
}

#[test]
fn memory_faults() {
    let message = |config: &str| {
        fault(CloudHypervisorInner::patch_snapshot_memory_shared(
            config.as_bytes(),
            false,
        ))
        .message()
    };
    assert_eq!(message("{}"), "snapshot config missing memory section");
    assert_eq!(message(r#"{"memory":[]}"#), "snapshot config missing memory section");
    assert_eq!(message(r#"{"memory":{}}"#), "snapshot config missing memory zones");
    assert_eq!(
        message(r#"{"memory":{"zones":[{},1]}}"#),
        "snapshot config has invalid memory zone"
    );
}

#[test]
fn documents_survive_reading_and_writing() {
    let text = r#"{"a":[1,-2,18446744073709551615,"\u0001\"\\\u00e9",null,true],"b":{"c":{}},"d":1.25}"#;
    let document = parse_json(text.as_bytes()).unwrap();
    assert_eq!(
        document.get("a").unwrap().as_array().unwrap()[2].as_u64(),
        Some(u64::MAX)
    );
    assert_eq!(document.get("a").unwrap().as_array().unwrap()[1].as_u64(), None);
    let bytes = write_json(parse_json(text.as_bytes()).unwrap()).unwrap();
    assert_eq!(value(&bytes), value(text.as_bytes()));
    assert_eq!(parse_json(&bytes).unwrap(), document);
    assert!(matches!(document.get("d"), Some(Json::Fraction(_))));
    assert!(parse_json(b"{]").unwrap_err().detail.contains("line 1"));
}

#[test]
fn nesting_is_limited_to_what_is_read_back() {
    let nested = |depth: usize| format!("{}1{}", "[".repeat(depth), "]".repeat(depth));
    assert!(parse_json(nested(127).as_bytes()).is_ok());
    assert!(parse_json(nested(128).as_bytes()).is_err());
}

#[test]
fn rendering_quotes_text() {
    assert_eq!(render_json(Json::Text("tdx".to_string())), "\"tdx\"");
    assert_eq!(render_json(Json::Text("a\"b".to_string())), "\"a\\\"b\"");
    assert_eq!(render_json(Json::Integer(-3)), "-3");
    assert_eq!(
        render_json(Json::Object(vec![
            ("b".to_string(), Json::Null),
            ("a".to_string(), Json::Bool(true))
        ])),
        r#"{"a":true,"b":null}"#
    );
}
