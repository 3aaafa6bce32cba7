//! What holds of the output and the threads of the hypervisor, and of the command
//! line that asks for a checkpoint.

use vstd::prelude::*;

use crate::log_output::{
    law_first_tag_wins, law_no_tag_is_info, level_at, level_from, output_step, vcpu_number,
    vcpu_tids, CloudHypervisorLogLevel, OutputEvent, OutputStep, OutputStream,
};
use crate::shim_ctl::{command, connect_address, AddressSource};
use crate::text::{is_space, trimmed};
use crate::text_laws::{
    all_digits, digits_value, law_digits_are_read_as_their_number, law_prefix_is_taken_off,
    law_trimming_takes_off_white_space,
};
use crate::unix_path::joined;

verus! {

/// Whether a tag stands at a position of a line.
pub open spec fn tag_at(line: Seq<char>, at: int, tag: Seq<char>) -> bool {
    0 <= at && at + tag.len() <= line.len() && line.subrange(at, at + tag.len()) == tag
}

/// Whether one of the tags stands at a position of a line.
pub open spec fn any_tag_at(line: Seq<char>, at: int) -> bool {
    tag_at(line, at, "INFO:"@) || tag_at(line, at, "DEBG:"@) || tag_at(line, at, "WARN:"@)
        || tag_at(line, at, "ERRO:"@) || tag_at(line, at, "TRCE:"@)
}

/// The tags are different, and each has five characters.
proof fn lemma_tags()
    ensures
        "INFO:"@.len() == 5,
        "DEBG:"@.len() == 5,
        "WARN:"@.len() == 5,
        "ERRO:"@.len() == 5,
        "TRCE:"@.len() == 5,
        "INFO:"@[0] == 'I',
        "DEBG:"@[0] == 'D',
        "WARN:"@[0] == 'W',
        "ERRO:"@[0] == 'E',
        "TRCE:"@[0] == 'T',
{
    reveal_strlit("INFO:");
    reveal_strlit("DEBG:");
    reveal_strlit("WARN:");
    reveal_strlit("ERRO:");
    reveal_strlit("TRCE:");
}

/// A line has the level of its first tag, and each tag has its own level; a line
/// without tag is informational.
pub proof fn law_lines_have_the_level_of_their_tag(line: Seq<char>, at: int)
    requires
        0 <= at <= line.len(),
        forall|i: int| 0 <= i < at ==> !#[trigger] any_tag_at(line, i),
    ensures
        tag_at(line, at, "INFO:"@) ==> level_from(line, 0) == CloudHypervisorLogLevel::Info,
        tag_at(line, at, "DEBG:"@) ==> level_from(line, 0) == CloudHypervisorLogLevel::Debug,
        tag_at(line, at, "WARN:"@) ==> level_from(line, 0) == CloudHypervisorLogLevel::Warn,
        tag_at(line, at, "ERRO:"@) ==> level_from(line, 0) == CloudHypervisorLogLevel::Error,
        tag_at(line, at, "TRCE:"@) ==> level_from(line, 0) == CloudHypervisorLogLevel::Trace,
        at == line.len() ==> level_from(line, 0) == CloudHypervisorLogLevel::Info,
{
    lemma_tags();
    assert forall|i: int| 0 <= i < at implies level_at(line, i) is None by {
        assert(!any_tag_at(line, i));
    }
    if at == line.len() {
        law_no_tag_is_info(line);
    }
    if any_tag_at(line, at) {
        assert(line.subrange(at, at + 5)[0] == line[at]);
        law_first_tag_wins(line, at, level_at(line, at)->0);
    }
}

/// What is done with a line: it is logged as it stands, at the level of its tag
/// and with its stream. A stream that ends before the shutdown is a failure, and
/// one that cannot be read is passed over.
pub proof fn law_lines_are_logged(stream: OutputStream, line: Seq<char>)
    ensures
        output_step(OutputEvent::Line(stream, Some(line))) == OutputStep::Log(
            level_from(line, 0),
            stream,
            line,
        ),
        output_step(OutputEvent::Line(stream, None)) == OutputStep::<Seq<char>>::Fail(stream),
        output_step(OutputEvent::Unreadable(stream)) == OutputStep::<Seq<char>>::Skip,
{
}

/// A thread runs a vCPU exactly if its name, without white space around it, is
/// `vcpu` and the number in digits.
pub proof fn law_vcpu_threads_are_named(name: Seq<char>, digits: Seq<char>, vcpu: u32)
    ensures
        trimmed(name) == "vcpu"@ + digits && all_digits(digits) && digits_value(digits) == vcpu
            ==> vcpu_number(name) == Some(vcpu),
        vcpu_number(name) == Some(vcpu) ==> exists|d: Seq<char>| #[trigger]
            all_digits(d) && digits_value(d) == vcpu && trimmed(name) == "vcpu"@ + d,
{
    let whole = trimmed(name);
    law_prefix_is_taken_off(whole, "vcpu"@, digits);
    law_digits_are_read_as_their_number(digits);
    if vcpu_number(name) == Some(vcpu) {
        let d = whole.skip("vcpu"@.len() as int);
        law_prefix_is_taken_off(whole, "vcpu"@, d);
        law_digits_are_read_as_their_number(d);
        assert(all_digits(d) && digits_value(d) == vcpu && whole == "vcpu"@ + d);
    }
}

/// The threads of vCPUs are found by the number of the vCPU, wherever they stand;
/// of two with the same number the later one counts. No other thread is among
/// them.
pub proof fn law_vcpu_threads_are_found(threads: Seq<(u32, Seq<char>)>, vcpu: u32, i: int)
    ensures
        0 <= i < threads.len() && vcpu_number(threads[i].1) == Some(vcpu) && (forall|j: int|
            i < j < threads.len() ==> vcpu_number((#[trigger] threads[j]).1) != Some(vcpu))
            ==> vcpu_tids(threads).contains_key(vcpu) && vcpu_tids(threads)[vcpu] == threads[i].0,
        (forall|j: int|
            0 <= j < threads.len() ==> vcpu_number((#[trigger] threads[j]).1) != Some(vcpu))
            ==> !vcpu_tids(threads).contains_key(vcpu),
    decreases threads.len(),
{
    if threads.len() > 0 {
        let before = threads.drop_last();
        law_vcpu_threads_are_found(before, vcpu, i);
        assert forall|j: int| 0 <= j < before.len() implies #[trigger] before[j] == threads[j] by {}
        assert(threads.last() == threads[threads.len() - 1]);
        if 0 <= i < threads.len() - 1 && vcpu_number(threads[i].1) == Some(vcpu) && (forall|j: int|
            i < j < threads.len() ==> vcpu_number((#[trigger] threads[j]).1) != Some(vcpu)) {
            assert forall|j: int| i < j < before.len() implies vcpu_number(
                (#[trigger] before[j]).1,
            ) != Some(vcpu) by {
                assert(before[j] == threads[j]);
            }
        }
        if forall|j: int|
            0 <= j < threads.len() ==> vcpu_number((#[trigger] threads[j]).1) != Some(vcpu) {
            assert forall|j: int| 0 <= j < before.len() implies vcpu_number(
                (#[trigger] before[j]).1,
            ) != Some(vcpu) by {
                assert(before[j] == threads[j]);
            }
        }
    }
}

/// A command line is accepted exactly if it asks for a checkpoint and has a
/// sandbox and a directory, and at most a namespace and an address besides; each
/// argument is taken from its place. Without address it stands in a file of the
/// sandbox, in the given namespace or else in that of Kubernetes.
pub proof fn law_command_lines(args: Seq<Seq<char>>)
    ensures
        command(args) is Some <==> 4 <= args.len() <= 6 && args[1] == "checkpoint"@,
        command(args) matches Some(c) ==> {
            let tasks = "/run/containerd/io.containerd.runtime.v2.task"@;
            &&& c.sandbox_id == args[2]
            &&& c.output_path == args[3]
            &&& args.len() == 6 ==> c.address == AddressSource::Given(args[5])
            &&& args.len() == 5 ==> c.address == AddressSource::File(
                joined(joined(joined(tasks, args[4]), args[2]), "address"@),
            )
            &&& args.len() == 4 ==> c.address == AddressSource::File(
                joined(joined(joined(tasks, "k8s.io"@), args[2]), "address"@),
            )
        },
{
}

/// The address to connect to is what is given, without the white space around it
/// and without the name of the protocol in front.
pub proof fn law_addresses_are_cleaned(before: Seq<char>, address: Seq<char>, after: Seq<char>)
    requires
        forall|i: int| 0 <= i < before.len() ==> is_space(#[trigger] before[i]),
        forall|i: int| 0 <= i < after.len() ==> is_space(#[trigger] after[i]),
        address.len() > 0,
        !is_space(address[0]),
        !is_space(address.last()),
    ensures
        connect_address(before + ("ttrpc+"@ + address) + after) == address,
        !"ttrpc+"@.is_prefix_of(address) ==> connect_address(before + address + after) == address,
{
    reveal_strlit("ttrpc+");
    let named = "ttrpc+"@ + address;
    assert(named[0] == 't');
    assert(named.last() == address.last());
    law_trimming_takes_off_white_space(before, named, after);
    law_trimming_takes_off_white_space(before, address, after);
    law_prefix_is_taken_off(named, "ttrpc+"@, address);
}

} // verus!
