//! The command line that asks a shim for a checkpoint.

use vstd::prelude::*;

use crate::text::{
    concat2, is_space, same_text, strip_prefix, texts, trim, trimmed, trimmed_end, trimmed_start,
    without_prefix,
};
use crate::unix_path::{joined, path_join};

verus! {

/// How long a shim may take for a checkpoint, in nanoseconds.
pub const CHECKPOINT_TIMEOUT_NANOS: i64 = 300_000_000_000;

/// How the program is called.
pub fn usage() -> (r: &'static str)
    ensures
        r@ == "usage: shim-ctl checkpoint <sandbox-id> <output-path> [namespace] [address]"@,
{
    "usage: shim-ctl checkpoint <sandbox-id> <output-path> [namespace] [address]"
}

/// Where the address of the shim stands.
#[derive(Debug, PartialEq, Eq)]
pub enum AddressSource<S> {
    /// On the command line.
    Given(S),
    /// In a file.
    File(S),
}

/// A request for a checkpoint.
#[derive(Debug, PartialEq, Eq)]
pub struct CheckpointCommand<S> {
    pub sandbox_id: S,
    pub output_path: S,
    pub address: AddressSource<S>,
}

impl View for AddressSource<String> {
    type V = AddressSource<Seq<char>>;

    open spec fn view(&self) -> AddressSource<Seq<char>> {
        match self {
            AddressSource::Given(s) => AddressSource::Given(s@),
            AddressSource::File(s) => AddressSource::File(s@),
        }
    }
}

impl View for CheckpointCommand<String> {
    type V = CheckpointCommand<Seq<char>>;

    open spec fn view(&self) -> CheckpointCommand<Seq<char>> {
        CheckpointCommand {
            sandbox_id: self.sandbox_id@,
            output_path: self.output_path@,
            address: self.address@,
        }
    }
}

/// The file in which the shim of a sandbox left its address.
pub open spec fn address_file(namespace: Seq<char>, sandbox_id: Seq<char>) -> Seq<char> {
    joined(
        joined(
            joined(
                "/run/containerd/io.containerd.runtime.v2.task"@,
                namespace,
            ),
            sandbox_id,
        ),
        "address"@,
    )
}

/// The request that arguments stand for, the program's name among them: the
/// namespace and the address may be left out.
pub open spec fn checkpoint_command(args: Seq<Seq<char>>) -> Option<CheckpointCommand<Seq<char>>> {
    if 4 <= args.len() <= 6 {
        let namespace = if args.len() > 4 {
            args[4]
        } else {
            "k8s.io"@
        };
        Some(
            CheckpointCommand {
                sandbox_id: args[2],
                output_path: args[3],
                address: if args.len() > 5 {
                    AddressSource::Given(args[5])
                } else {
                    AddressSource::File(address_file(namespace, args[2]))
                },
            },
        )
    } else {
        None
    }
}

/// The request that the arguments of the program stand for: there is only one
/// sub-command.
pub open spec fn command(args: Seq<Seq<char>>) -> Option<CheckpointCommand<Seq<char>>> {
    if args.len() > 1 && args[1] == "checkpoint"@ {
        checkpoint_command(args)
    } else {
        None
    }
}

/// The view of a request that may not be one.
pub open spec fn command_view(r: Result<CheckpointCommand<String>, &str>) -> Option<
    CheckpointCommand<Seq<char>>,
> {
    match r {
        Ok(c) => Some(c@),
        Err(_) => None,
    }
}

/// Reads the arguments of the sub-command.
pub fn checkpoint(args: &Vec<String>) -> (r: Result<CheckpointCommand<String>, &'static str>)
    ensures
        command_view(r) == checkpoint_command(texts(args@)),
        r matches Err(e) ==> e@
            == "usage: shim-ctl checkpoint <sandbox-id> <output-path> [namespace] [address]"@,
{
    if args.len() < 4 || args.len() > 6 {
        return Err(usage());
    }
    let sandbox_id = args[2].clone();
    let output_path = args[3].clone();
    let namespace = if args.len() > 4 {
        args[4].as_str()
    } else {
        "k8s.io"
    };
    let address = if args.len() > 5 {
        AddressSource::Given(args[5].clone())
    } else {
        let task_dir = path_join("/run/containerd/io.containerd.runtime.v2.task", namespace);
        let sandbox_dir = path_join(task_dir.as_str(), sandbox_id.as_str());
        AddressSource::File(path_join(sandbox_dir.as_str(), "address"))
    };
    Ok(CheckpointCommand { sandbox_id, output_path, address })
}

/// Reads the arguments of the program.
pub fn real_main(args: &Vec<String>) -> (r: Result<CheckpointCommand<String>, &'static str>)
    ensures
        command_view(r) == command(texts(args@)),
        r matches Err(e) ==> e@
            == "usage: shim-ctl checkpoint <sandbox-id> <output-path> [namespace] [address]"@,
{
    if args.len() > 1 && same_text(args[1].as_str(), "checkpoint") {
        checkpoint(args)
    } else {
        Err(usage())
    }
}

/// The address to connect to: without white space around it and without the
/// prefix that names the protocol.
pub open spec fn connect_address(text: Seq<char>) -> Seq<char> {
    match without_prefix(trimmed(text), "ttrpc+"@) {
        Some(rest) => rest,
        None => trimmed(text),
    }
}

/// The address to connect to.
pub fn clean_address(text: &str) -> (r: String)
    ensures
        r@ == connect_address(text@),
{
    let bare = trim(text);
    match strip_prefix(bare.as_str(), "ttrpc+") {
        Some(rest) => rest,
        None => bare,
    }
}

/// What is printed when the checkpoint is there.
pub fn saved_message(output_path: &str) -> (r: String)
    ensures
        r@ == "checkpoint saved to "@ + output_path@,
{
    concat2("checkpoint saved to ", output_path)
}

/// The context of a failure to read the address file.
pub fn address_file_context(path: &str) -> (r: String)
    ensures
        r@ == "read shim address "@ + path@,
{
    concat2("read shim address ", path)
}

/// The context of a failure to connect.
pub fn connect_context(address: &str) -> (r: String)
    ensures
        r@ == "connect to shim at "@ + address@,
{
    concat2("connect to shim at ", address)
}

/// Trimming the end makes nothing longer.
proof fn lemma_trimmed_end_len(s: Seq<char>)
    ensures
        trimmed_end(s).len() <= s.len(),
    decreases s.len(),
{
    if s.len() > 0 && is_space(s.last()) {
        lemma_trimmed_end_len(s.drop_last());
    }
}

/// Trimming the start makes nothing longer.
proof fn lemma_trimmed_start_len(s: Seq<char>)
    ensures
        trimmed_start(s).len() <= s.len(),
    decreases s.len(),
{
    if s.len() > 0 && is_space(s[0]) {
        lemma_trimmed_start_len(s.skip(1));
    }
}

/// Naming the protocol makes no difference to an address without white space
/// around it.
pub proof fn law_protocol_prefix_is_optional(address: Seq<char>)
    requires
        trimmed(address) == address,
        !"ttrpc+"@.is_prefix_of(address),
    ensures
        connect_address("ttrpc+"@ + address) == address,
        connect_address(address) == address,
{
    let prefix = "ttrpc+"@;
    let full = prefix + address;
    reveal_strlit("ttrpc+");
    assert(full[0] == 't');
    assert(trimmed_start(full) == full);
    if address.len() > 0 {
        assert(full.last() == address.last());
        if is_space(address.last()) {
            let start = trimmed_start(address);
            lemma_trimmed_start_len(address);
            lemma_trimmed_end_len(start);
            if address.len() > 0 && is_space(address[0]) {
                lemma_trimmed_start_len(address.skip(1));
            }
            lemma_trimmed_end_len(address.drop_last());
        }
    } else {
        assert(full.last() == '+');
    }
    assert(trimmed(full) == full);
    assert(full.subrange(0, prefix.len() as int) =~= prefix);
    assert(prefix.is_prefix_of(full));
    assert(full.skip(prefix.len() as int) =~= address);
}

} // verus!
