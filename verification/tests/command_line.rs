use kata_checkpoint::shim_ctl::{
    address_file_context, checkpoint, clean_address, connect_context, real_main, saved_message,
    usage, AddressSource, CheckpointCommand, CHECKPOINT_TIMEOUT_NANOS,
};

fn args(list: &[&str]) -> Vec<String> {
    list.iter().map(|s| s.to_string()).collect()
}

#[test]
fn usage_names_the_arguments() {
    assert_eq!(
        usage(),
        "usage: shim-ctl checkpoint <sandbox-id> <output-path> [namespace] [address]"
    );
}

#[test]
fn arguments_are_read() {
    let command = real_main(&args(&["shim-ctl", "checkpoint", "sb", "/out"])).unwrap();
    assert_eq!(
        command,
        CheckpointCommand {
            sandbox_id: "sb".to_string(),
            output_path: "/out".to_string(),
            address: AddressSource::File(
                "/run/containerd/io.containerd.runtime.v2.task/k8s.io/sb/address".to_string()
            ),
        }
    );
    let command = real_main(&args(&["shim-ctl", "checkpoint", "sb", "/out", "moby"])).unwrap();
    assert_eq!(
        command.address,
        AddressSource::File(
            "/run/containerd/io.containerd.runtime.v2.task/moby/sb/address".to_string()
        )
    );
    let command =
        real_main(&args(&["shim-ctl", "checkpoint", "sb", "/out", "moby", "unix:///s"])).unwrap();
    assert_eq!(command.address, AddressSource::Given("unix:///s".to_string()));
}

#[test]
fn wrong_arguments_show_the_usage() {
    for list in [
        &[][..],
        &["shim-ctl"],
        &["shim-ctl", "restore", "sb", "/out"],
        &["shim-ctl", "checkpoint", "sb"],
        &["shim-ctl", "checkpoint", "a", "b", "c", "d", "e"],
    ] {
        assert_eq!(real_main(&args(list)), Err(usage()), "{list:?}");
    }
    assert_eq!(checkpoint(&args(&["a", "b", "c"])), Err(usage()));
}

#[test]
fn addresses_are_cleaned() {
    assert_eq!(clean_address("  ttrpc+unix:///s\n"), "unix:///s");
    assert_eq!(clean_address("unix:///s"), "unix:///s");
    assert_eq!(clean_address("ttrpc+ unix:///s"), " unix:///s");
    assert_eq!(clean_address("\u{3000}ttrpc+ttrpc+x\u{85}"), "ttrpc+x");
    assert_eq!(clean_address(" \n"), "");
}

#[test]
fn messages() {
    assert_eq!(saved_message("/out"), "checkpoint saved to /out");
    assert_eq!(address_file_context("/f"), "read shim address /f");
    assert_eq!(connect_context("unix:///s"), "connect to shim at unix:///s");
    assert_eq!(CHECKPOINT_TIMEOUT_NANOS, 300_000_000_000);
}
