use kata_checkpoint::block_disks::{
    check_metadata_file, check_metadata_within, collect_block_disks, CheckpointStorageContainer,
    CheckpointStorageDisk, CheckpointStorageMetadata, DiskError, FileFacts,
};
use kata_checkpoint::disk_restore::{DiskRestore, NextDisk, Resolved};
use kata_checkpoint::hypervisor::CloudHypervisorInner;
use kata_checkpoint::plan::Step;
use serde_json::Value;

type Disk = CheckpointStorageDisk<String>;
type Metadata = CheckpointStorageMetadata<String>;

const REGULAR: FileFacts = FileFacts {
    is_symlink: false,
    is_file: true,
    len: 5,
};

fn disk(id: &str, role: &str, path: &str, readonly: bool) -> Disk {
    CheckpointStorageDisk {
        id: id.to_string(),
        role: role.to_string(),
        path: path.to_string(),
        readonly,
        size: 5,
        num_queues: 1,
        queue_size: 128,
    }
}

fn lower() -> Disk {
    disk("lower0", "erofs-lower", "containers/c1/lower-0.erofs", true)
}

fn upper() -> Disk {
    disk("upper0", "ext4-upper", "containers/c1/upper.ext4", false)
}

fn metadata(containers: Vec<Vec<Disk>>) -> Metadata {
    CheckpointStorageMetadata {
        containers: containers
            .into_iter()
            .map(|block_disks| CheckpointStorageContainer { block_disks })
            .collect(),
    }
}

const CONFIG: &[u8] = br#"{
    "disks": [
        {"id": "lower0", "path": "/old/lower", "readonly": true, "num_queues": 1, "queue_size": 128},
        {"id": "upper0", "path": "/old/upper", "readonly": false, "num_queues": 1, "queue_size": 128}
    ]
}"#;

fn start(metadata: &Metadata, config: &[u8]) -> Result<Option<DiskRestore>, DiskError<String>> {
    let inspect =
        CloudHypervisorInner::checkpoint_metadata("/tmp/d/checkpoint", "/tmp/d/checkpoint");
    assert_eq!(inspect.path, "/tmp/d/checkpoint/metadata.json");
    let canonical = inspect.path.clone();
    let disks = inspect.inspected(REGULAR)?.resolved(canonical)?.collect(metadata)?;
    CloudHypervisorInner::patch_checkpoint_disk_paths(disks, "/tmp/d/vm", "/boot/image", config)
}

/// Places all disks, as on a host where files are what they seem and nothing is
/// in the way of clones. Gives the clones and the configuration.
fn run(mut restore: DiskRestore) -> Result<(Vec<(String, String)>, Vec<u8>), DiskError<String>> {
    let mut clones = Vec::new();
    loop {
        let inspect = match restore.next()? {
            NextDisk::Finish(finish) => return Ok((clones, finish.finish().unwrap())),
            NextDisk::Inspect(inspect) => inspect,
        };
        let source = inspect.source.clone();
        restore = match inspect.inspected(REGULAR)?.resolved(source)? {
            Resolved::Placed(restore) => restore,
            Resolved::Probe(probe) => {
                let clone = probe.probed(false)?;
                assert_eq!(
                    clone.copy_args(),
                    ["-a", "--reflink=auto", "--sparse=always", &clone.source, &clone.destination]
                );
                clones.push((clone.source.clone(), clone.destination.clone()));
                clone.cloned(None)?
            }
        };
    }
}

#[test]
fn test_prepare_checkpoint_restore_files_reuses_memory_snapshot() {
    let mut ch = CloudHypervisorInner::default();
    ch.id = "sandbox-id".to_string();
    ch.vm_path = "/tmp/d/vm".to_string();
    let plan = ch.prepare_checkpoint_restore_files("/tmp/d/checkpoint");
    let steps: Vec<&Step<String>> = plan.iter().map(|p| &p.step).collect();

    let link = steps
        .iter()
        .position(|s| matches!(s, Step::LinkToResolved { link } if link == "/tmp/d/vm/memory-ranges"))
        .unwrap();
    assert_eq!(
        *steps[link - 1],
        Step::Resolve {
            path: "/tmp/d/checkpoint/memory-ranges".to_string()
        }
    );
    assert!(steps.iter().any(|s| **s
        == Step::CopyFile {
            from: "/tmp/d/checkpoint/state.json".to_string(),
            to: "/tmp/d/vm/state.json".to_string(),
        }));
    assert!(!steps
        .iter()
        .any(|s| matches!(s, Step::CopyFile { from, .. } if from.ends_with("memory-ranges"))));

    let config = br#"{"vsock":{"socket":"/old/vsock.sock"},"disks":[]}"#;
    assert!(start(&metadata(vec![]), config).unwrap().is_none());
    let (data, nets) = CloudHypervisorInner::patch_checkpoint_runtime_paths(
        config,
        &Ok("/new/vsock.sock".to_string()),
        &[],
        &[],
    )
    .unwrap();
    assert!(nets.is_empty());
    let config: Value = serde_json::from_slice(&data).unwrap();
    assert_eq!(config["vsock"]["socket"], "/new/vsock.sock");
}

#[test]
fn test_patch_checkpoint_disk_paths_clones_writable_upper() {
    let metadata = metadata(vec![vec![lower(), upper()], vec![lower()]]);
    let restore = start(&metadata, CONFIG).unwrap().unwrap();
    assert_eq!(restore.private_dir, "/tmp/d/vm/checkpoint-disks");
    let (clones, data) = run(restore).unwrap();

    let config: Value = serde_json::from_slice(&data).unwrap();
    assert_eq!(
        config["disks"][0]["path"],
        "/tmp/d/checkpoint/containers/c1/lower-0.erofs"
    );
    let restored_upper = config["disks"][1]["path"].as_str().unwrap();
    assert!(std::path::Path::new(restored_upper).starts_with("/tmp/d/vm/checkpoint-disks"));
    assert_eq!(
        clones,
        [(
            "/tmp/d/checkpoint/containers/c1/upper.ext4".to_string(),
            restored_upper.to_string()
        )]
    );
    assert_eq!(restored_upper, "/tmp/d/vm/checkpoint-disks/upper0.ext4");
    assert_eq!(config["disks"][0]["id"], "lower0");
    assert_eq!(config["disks"][0]["queue_size"], 128);
}

#[test]
fn test_patch_checkpoint_disk_paths_rejects_symlink() {
    let metadata = metadata(vec![vec![disk("lower0", "erofs-lower", "lower.erofs", true)]]);
    let config = br#"{
        "disks": [{
            "id": "lower0",
            "path": "/old/lower",
            "readonly": true,
            "num_queues": 1,
            "queue_size": 128
        }]
    }"#;
    let restore = start(&metadata, config).unwrap().unwrap();
    let NextDisk::Inspect(inspect) = restore.next().ok().unwrap() else {
        panic!("no disk to look at");
    };
    let error = inspect
        .inspected(FileFacts {
            is_symlink: true,
            is_file: false,
            len: 5,
        })
        .err()
        .unwrap();
    assert!(error.message().contains("not a regular file"));
    assert_eq!(
        error.message(),
        "checkpoint disk is not a regular file: /tmp/d/checkpoint/lower.erofs"
    );
}

#[test]
fn metadata_must_be_a_regular_file_of_the_checkpoint() {
    assert!(check_metadata_file("/c/metadata.json", REGULAR).is_ok());
    let directory = FileFacts {
        is_symlink: false,
        is_file: false,
        len: 0,
    };
    assert_eq!(
        check_metadata_file("/c/metadata.json", directory).unwrap_err().message(),
        "checkpoint metadata is not a regular file: /c/metadata.json"
    );
    assert!(check_metadata_within("/c", "/c/metadata.json").is_ok());
    assert!(check_metadata_within("/c", "/c").is_ok());
    assert_eq!(
        check_metadata_within("/c", "/cc/metadata.json").unwrap_err().message(),
        "checkpoint metadata escapes /c"
    );
}

#[test]
fn restores_start_from_checked_metadata() {
    let inspect = || CloudHypervisorInner::checkpoint_metadata("/c/./x", "/r");
    let link = FileFacts {
        is_symlink: true,
        is_file: false,
        len: 5,
    };
    assert_eq!(
        inspect().inspected(link).err().unwrap().message(),
        "checkpoint metadata is not a regular file: /c/./x/metadata.json"
    );
    let resolve = || inspect().inspected(REGULAR).ok().unwrap();
    assert_eq!(
        resolve().resolved("/other/metadata.json".to_string()).err().unwrap().message(),
        "checkpoint metadata escapes /r"
    );
    let read = || resolve().resolved("/r/metadata.json".to_string()).ok().unwrap();
    let other = Disk { size: 9, ..lower() };
    assert_eq!(
        read().collect(&metadata(vec![vec![lower()], vec![other]])).err().unwrap().message(),
        "checkpoint disk id lower0 has conflicting metadata"
    );
    let disks = read().collect(&metadata(vec![vec![lower(), upper()]])).ok().unwrap();
    assert_eq!(disks.saved, [lower(), upper()]);
    let restore =
        CloudHypervisorInner::patch_checkpoint_disk_paths(disks, "/vm", "/boot/image", CONFIG)
            .unwrap()
            .unwrap();
    assert_eq!((restore.checkpoint_dir.as_str(), restore.root.as_str()), ("/c/./x", "/r"));
}

#[test]
fn disks_are_collected_once() {
    let found = collect_block_disks(&metadata(vec![vec![lower()], vec![upper(), lower()]])).unwrap();
    assert_eq!(found, [lower(), upper()]);
    let other = Disk {
        queue_size: 64,
        ..lower()
    };
    let error = collect_block_disks(&metadata(vec![vec![lower()], vec![], vec![upper(), other]]))
        .unwrap_err();
    assert_eq!(
        error.message(),
        "checkpoint disk id lower0 has conflicting metadata"
    );
}

#[test]
fn repeated_disks_can_be_left_out() {
    let once = metadata(vec![vec![lower(), upper()]]);
    let repeated = metadata(vec![vec![lower(), upper()], vec![lower()], vec![upper()]]);
    let expected = run(start(&once, CONFIG).unwrap().unwrap()).unwrap();
    assert_eq!(run(start(&repeated, CONFIG).unwrap().unwrap()).unwrap(), expected);
    let swapped = metadata(vec![vec![upper()], vec![lower()]]);
    assert_eq!(run(start(&swapped, CONFIG).unwrap().unwrap()).unwrap().1, expected.1);
    let conflicting = metadata(vec![vec![lower(), upper()], vec![Disk { size: 6, ..upper() }]]);
    assert_eq!(
        start(&conflicting, CONFIG).err().unwrap().message(),
        "checkpoint disk id upper0 has conflicting metadata"
    );
}

#[test]
fn configured_disks_must_be_known() {
    let known = metadata(vec![vec![lower()]]);
    let message = |config: &str| start(&known, config.as_bytes()).err().unwrap().message();
    assert_eq!(message("{}"), "checkpoint config missing block disks");
    assert_eq!(
        message(r#"{"disks":[{"id":"lower0"}]}"#),
        "checkpoint config disk is missing a path"
    );
    assert_eq!(
        message(r#"{"disks":[{"path":"/boot/image"},{"path":"/p","id":""}]}"#),
        "checkpoint config non-boot disk is missing an id"
    );
    assert_eq!(
        message(r#"{"disks":[{"path":"/p","id":"other"}]}"#),
        "checkpoint disk id other is not represented in block metadata"
    );
    let unreadable = serde_json::from_slice::<Value>(b"nonsense").unwrap_err();
    assert_eq!(message("nonsense"), unreadable.to_string());
    assert!(matches!(
        start(&known, b"nonsense"),
        Err(DiskError::ConfigUnreadable { detail }) if detail == "expected ident at line 1 column 2"
    ));
}

#[test]
fn ids_and_paths_are_checked() {
    let message = |disk: Disk| {
        let config = format!(
            r#"{{"disks":[{{"id":{:?},"path":"/p"}}]}}"#,
            if disk.id.is_empty() { "x" } else { &disk.id }
        );
        let config = if disk.id.is_empty() { r#"{"disks":[]}"#.to_string() } else { config };
        let restore = start(&metadata(vec![vec![disk]]), config.as_bytes());
        restore.ok().unwrap().unwrap().next().err().unwrap().message()
    };
    assert_eq!(
        message(disk("", "erofs-lower", "p", true)),
        "invalid checkpoint disk id \"\""
    );
    assert_eq!(
        message(disk("a/b", "erofs-lower", "p", true)),
        "invalid checkpoint disk id \"a/b\""
    );
    assert_eq!(
        message(disk("\u{e9}", "erofs-lower", "p", true)),
        "invalid checkpoint disk id \"\u{e9}\""
    );
    assert_eq!(
        message(disk("a-Z0", "erofs-lower", "/p", true)),
        "invalid checkpoint disk path \"/p\""
    );
    assert_eq!(
        message(disk("a", "erofs-lower", "p/../../q\"", true)),
        "invalid checkpoint disk path \"p/../../q\\\"\""
    );
}

#[test]
fn placements_are_checked() {
    let message = |disk: Disk, facts: FileFacts, canonical: &str, config: &str| {
        let restore = start(&metadata(vec![vec![disk]]), config.as_bytes()).unwrap().unwrap();
        let NextDisk::Inspect(inspect) = restore.next().ok().unwrap() else {
            panic!("no disk to look at");
        };
        let resolve = inspect.inspected(facts).ok().unwrap();
        resolve.resolved(canonical.to_string()).err().unwrap().message()
    };
    let entry = r#"{"disks":[{"id":"lower0","path":"/p","readonly":true,"num_queues":1,"queue_size":128}]}"#;
    let inside = "/tmp/d/checkpoint/f";
    assert_eq!(
        message(lower(), REGULAR, "/tmp/d/other/f", entry),
        "checkpoint disk /tmp/d/other/f escapes /tmp/d/checkpoint"
    );
    assert_eq!(
        message(lower(), FileFacts { len: 6, ..REGULAR }, inside, entry),
        "checkpoint disk lower0 size changed: expected 5, got 6"
    );
    assert_eq!(
        message(lower(), REGULAR, inside, r#"{"disks":[]}"#),
        "checkpoint config missing disk id lower0"
    );
    assert_eq!(
        message(lower(), REGULAR, inside, r#"{"disks":[{"id":"lower0","path":"/p"}]}"#),
        "checkpoint disk lower0 readonly setting does not match"
    );
    assert_eq!(
        message(
            lower(),
            REGULAR,
            inside,
            r#"{"disks":[{"id":"lower0","path":"/p","readonly":true,"num_queues":1}]}"#
        ),
        "checkpoint disk lower0 queue settings do not match"
    );
    assert_eq!(
        message(
            Disk { role: "swap".to_string(), ..lower() },
            REGULAR,
            inside,
            entry
        ),
        "checkpoint disk lower0 has unsupported role \"swap\""
    );
}

#[test]
fn clones_are_not_overwritten() {
    let probe = || {
        let restore = start(
            &metadata(vec![vec![upper()]]),
            br#"{"disks":[{"id":"upper0","path":"/p","num_queues":1,"queue_size":128}]}"#,
        );
        let NextDisk::Inspect(inspect) = restore.ok().unwrap().unwrap().next().ok().unwrap() else {
            panic!("no disk to look at");
        };
        let resolve = inspect.inspected(REGULAR).ok().unwrap();
        match resolve.resolved("/tmp/d/checkpoint/u".to_string()) {
            Ok(Resolved::Probe(probe)) => probe,
            _ => panic!("no clone"),
        }
    };
    assert_eq!(
        probe().probed(true).err().unwrap().message(),
        "private checkpoint disk already exists: /tmp/d/vm/checkpoint-disks/upper0.ext4"
    );
    let clone = probe().probed(false).ok().unwrap();
    assert_eq!(
        clone.cloned(Some("exit status: 1".to_string())).err().unwrap().message(),
        "clone checkpoint disk /tmp/d/checkpoint/u failed with exit status: 1"
    );
}
