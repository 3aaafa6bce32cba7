//! What is done with the output of the hypervisor process, and its threads.

use std::collections::HashMap;
use vstd::prelude::*;
use crate::text::{
    chars_of, matches_at, opt_text, stands_at, strip_prefix, trim, trimmed, without_prefix,
};

verus! {

broadcast use vstd::std_specs::hash::group_hash_axioms;

/// The level of a log line.
#[derive(Debug, Clone, Copy, PartialEq, Eq, Structural)]
pub enum CloudHypervisorLogLevel {
    Trace,
    Debug,
    Info,
    Warn,
    Error,
}

/// The level whose tag stands at position `at` of a line, if one does.
pub open spec fn level_at(line: Seq<char>, at: int) -> Option<CloudHypervisorLogLevel> {
    if stands_at(line, "INFO:"@, at) {
        Some(CloudHypervisorLogLevel::Info)
    } else if stands_at(line, "DEBG:"@, at) {
        Some(CloudHypervisorLogLevel::Debug)
    } else if stands_at(line, "WARN:"@, at) {
        Some(CloudHypervisorLogLevel::Warn)
    } else if stands_at(line, "ERRO:"@, at) {
        Some(CloudHypervisorLogLevel::Error)
    } else if stands_at(line, "TRCE:"@, at) {
        Some(CloudHypervisorLogLevel::Trace)
    } else {
        None
    }
}

/// The level of the first tag from position `from` on; a line without tag is
/// informational.
pub open spec fn level_from(line: Seq<char>, from: int) -> CloudHypervisorLogLevel
    decreases line.len() - from,
{
    if from >= line.len() {
        CloudHypervisorLogLevel::Info
    } else {
        match level_at(line, from) {
            Some(level) => level,
            None => level_from(line, from + 1),
        }
    }
}

/// The level of a log line: that of its first tag.
pub fn parse_ch_log_level(line: &str) -> (r: CloudHypervisorLogLevel)
    ensures
        r == level_from(line@, 0),
{
    let chars = chars_of(line);
    let info = chars_of("INFO:");
    let debug = chars_of("DEBG:");
    let warn = chars_of("WARN:");
    let error = chars_of("ERRO:");
    let trace = chars_of("TRCE:");
    let mut i: usize = 0;
    while i < chars.len()
        invariant
            chars@ == line@,
            info@ == "INFO:"@,
            debug@ == "DEBG:"@,
            warn@ == "WARN:"@,
            error@ == "ERRO:"@,
            trace@ == "TRCE:"@,
            i <= chars@.len(),
            level_from(line@, 0) == level_from(line@, i as int),
        decreases chars@.len() - i,
    {
        if matches_at(&chars, &info, i) {
            return CloudHypervisorLogLevel::Info;
        } else if matches_at(&chars, &debug, i) {
            return CloudHypervisorLogLevel::Debug;
        } else if matches_at(&chars, &warn, i) {
            return CloudHypervisorLogLevel::Warn;
        } else if matches_at(&chars, &error, i) {
            return CloudHypervisorLogLevel::Error;
        } else if matches_at(&chars, &trace, i) {
            return CloudHypervisorLogLevel::Trace;
        }
        i = i + 1;
    }
    CloudHypervisorLogLevel::Info
}

/// The first tag of a line decides, whatever follows it.
pub proof fn law_first_tag_wins(line: Seq<char>, at: int, level: CloudHypervisorLogLevel)
    requires
        0 <= at < line.len(),
        level_at(line, at) == Some(level),
        forall|i: int| 0 <= i < at ==> level_at(line, i) is None,
    ensures
        level_from(line, 0) == level,
{
    lemma_no_tag_before(line, 0, at);
}

/// A line without tag is informational.
pub proof fn law_no_tag_is_info(line: Seq<char>)
    requires
        forall|i: int| 0 <= i < line.len() ==> level_at(line, i) is None,
    ensures
        level_from(line, 0) is Info,
{
    lemma_no_tag_before(line, 0, line.len() as int);
}

/// A stretch without tag does not matter.
proof fn lemma_no_tag_before(line: Seq<char>, from: int, to: int)
    requires
        0 <= from <= to <= line.len(),
        forall|i: int| from <= i < to ==> level_at(line, i) is None,
    ensures
        level_from(line, from) == level_from(line, to),
    decreases to - from,
{
    if from < to {
        assert(level_at(line, from) is None);
        lemma_no_tag_before(line, from + 1, to);
    }
}

/// A stream of the hypervisor process.
#[derive(Debug, Clone, Copy, PartialEq, Eq, Structural)]
pub enum OutputStream {
    Stdout,
    Stderr,
}

/// What happens while the output is followed.
#[derive(Debug)]
pub enum OutputEvent<S> {
    /// The shutdown was requested, or can no longer be.
    Shutdown,
    /// The next line of a stream; none at its end.
    Line(OutputStream, Option<S>),
    /// A stream that could not be read.
    Unreadable(OutputStream),
    /// The process was told to end, whether or not that failed.
    Killed,
    /// The process was waited for: its exit code, if it has one; none where
    /// waiting failed.
    Waited(Option<Option<i32>>),
    /// The exit was reported, whether or not that failed.
    Reported,
}

/// What is to be done next.
#[derive(Debug)]
pub enum OutputStep<S> {
    /// Stop following, and kill the process.
    Kill,
    /// Wait for the process.
    Wait,
    /// Report the exit of the process.
    Report(i32),
    /// Nothing is left to do.
    Done,
    /// Log a line.
    Log(CloudHypervisorLogLevel, OutputStream, S),
    /// Nothing.
    Skip,
    /// Give up, leaving the process alone.
    Fail(OutputStream),
}

impl View for OutputEvent<String> {
    type V = OutputEvent<Seq<char>>;

    open spec fn view(&self) -> OutputEvent<Seq<char>> {
        match self {
            OutputEvent::Shutdown => OutputEvent::Shutdown,
            OutputEvent::Line(stream, line) => OutputEvent::Line(
                *stream,
                opt_text(*line),
            ),
            OutputEvent::Unreadable(stream) => OutputEvent::Unreadable(*stream),
            OutputEvent::Killed => OutputEvent::Killed,
            OutputEvent::Waited(code) => OutputEvent::Waited(*code),
            OutputEvent::Reported => OutputEvent::Reported,
        }
    }
}

impl View for OutputStep<String> {
    type V = OutputStep<Seq<char>>;

    open spec fn view(&self) -> OutputStep<Seq<char>> {
        match self {
            OutputStep::Kill => OutputStep::Kill,
            OutputStep::Wait => OutputStep::Wait,
            OutputStep::Report(code) => OutputStep::Report(*code),
            OutputStep::Done => OutputStep::Done,
            OutputStep::Log(level, stream, line) => OutputStep::Log(*level, *stream, line@),
            OutputStep::Skip => OutputStep::Skip,
            OutputStep::Fail(stream) => OutputStep::Fail(*stream),
        }
    }
}

/// What an event leads to.
pub open spec fn output_step(event: OutputEvent<Seq<char>>) -> OutputStep<Seq<char>> {
    match event {
        OutputEvent::Shutdown => OutputStep::Kill,
        OutputEvent::Line(stream, Some(line)) => OutputStep::Log(
            level_from(line, 0),
            stream,
            line,
        ),
        OutputEvent::Line(stream, None) => OutputStep::Fail(stream),
        OutputEvent::Unreadable(_) => OutputStep::Skip,
        OutputEvent::Killed => OutputStep::Wait,
        OutputEvent::Waited(Some(code)) => OutputStep::Report(
            match code {
                Some(code) => code,
                None => 0,
            },
        ),
        OutputEvent::Waited(None) => OutputStep::Done,
        OutputEvent::Reported => OutputStep::Done,
    }
}

/// What is done after each of the given events.
pub open spec fn output_steps(events: Seq<OutputEvent<Seq<char>>>) -> Seq<OutputStep<Seq<char>>> {
    events.map_values(|event: OutputEvent<Seq<char>>| output_step(event))
}

/// When the shutdown is requested, the process is killed, waited for and
/// reported, in this order; it is reported once if it could be waited for, and
/// not at all if it could not. A process whose shutdown was not requested is
/// neither killed nor waited for nor reported.
pub proof fn law_process_is_killed_waited_for_and_reported(
    code: Option<i32>,
    event: OutputEvent<Seq<char>>,
)
    ensures
        output_steps(
            seq![
                OutputEvent::Shutdown,
                OutputEvent::Killed,
                OutputEvent::Waited(Some(code)),
                OutputEvent::Reported,
            ],
        ) == seq![
            OutputStep::<Seq<char>>::Kill,
            OutputStep::Wait,
            OutputStep::Report(
                match code {
                    Some(code) => code,
                    None => 0,
                },
            ),
            OutputStep::Done,
        ],
        output_steps(
            seq![OutputEvent::Shutdown, OutputEvent::Killed, OutputEvent::Waited(None)],
        ) == seq![OutputStep::<Seq<char>>::Kill, OutputStep::Wait, OutputStep::Done],
        output_step(event) is Kill <==> event is Shutdown,
        output_step(event) is Wait <==> event is Killed,
        output_step(event) is Report ==> event is Waited,
        event is Reported ==> output_step(event) is Done,
{
    assert(output_steps(
        seq![
            OutputEvent::Shutdown,
            OutputEvent::Killed,
            OutputEvent::Waited(Some(code)),
            OutputEvent::Reported,
        ],
    ) =~= seq![
        OutputStep::<Seq<char>>::Kill,
        OutputStep::Wait,
        OutputStep::Report(
            match code {
                Some(code) => code,
                None => 0,
            },
        ),
        OutputStep::Done,
    ]);
    assert(output_steps(
        seq![OutputEvent::Shutdown, OutputEvent::Killed, OutputEvent::Waited(None)],
    ) =~= seq![OutputStep::<Seq<char>>::Kill, OutputStep::Wait, OutputStep::Done]);
}

/// Decides on one event of a process that is followed: lines are logged at their
/// own level until the shutdown is requested; then the process is killed, waited
/// for and reported.
pub fn cloud_hypervisor_log_output(event: OutputEvent<String>) -> (r: OutputStep<String>)
    ensures
        r@ == output_step(event@),
{
    match event {
        OutputEvent::Shutdown => OutputStep::Kill,
        OutputEvent::Line(stream, Some(line)) => {
            let level = parse_ch_log_level(line.as_str());
            OutputStep::Log(level, stream, line)
        },
        OutputEvent::Line(stream, None) => OutputStep::Fail(stream),
        OutputEvent::Unreadable(_) => OutputStep::Skip,
        OutputEvent::Killed => OutputStep::Wait,
        OutputEvent::Waited(waited) => match exit_report(waited) {
            Some(code) => OutputStep::Report(code),
            None => OutputStep::Done,
        },
        OutputEvent::Reported => OutputStep::Done,
    }
}

/// The message for a process whose stream ended before the shutdown.
pub fn missing_line_message(stream: OutputStream) -> (r: String)
    ensures
        r@ == (match stream {
            OutputStream::Stdout => "missing stdout line"@,
            OutputStream::Stderr => "missing stderr line"@,
        }),
{
    match stream {
        OutputStream::Stdout => "missing stdout line".to_owned(),
        OutputStream::Stderr => "missing stderr line".to_owned(),
    }
}

/// Whether the output of a process can be followed: it takes both streams.
pub fn check_streams(has_stdout: bool, has_stderr: bool) -> (r: Result<(), String>)
    ensures
        match r {
            Ok(_) => has_stdout && has_stderr,
            Err(e) => if has_stdout {
                !has_stderr && e@ == "failed to get child stderr"@
            } else {
                e@ == "failed to get child stdout"@
            },
        },
{
    if !has_stdout {
        return Err("failed to get child stdout".to_owned());
    }
    if !has_stderr {
        return Err("failed to get child stderr".to_owned());
    }
    Ok(())
}

/// What is reported of a process that was waited for: its exit code, or zero
/// for one that has none. Nothing is reported where waiting failed.
pub fn exit_report(waited: Option<Option<i32>>) -> (r: Option<i32>)
    ensures
        r == (match waited {
            None => None::<i32>,
            Some(None) => Some(0i32),
            Some(Some(code)) => Some(code),
        }),
{
    match waited {
        None => None,
        Some(None) => Some(0),
        Some(Some(code)) => Some(code),
    }
}

/// The number that decimal digits stand for, if they are digits only, there is
/// at least one and the number has 32 bits.
pub open spec fn number_of(digits: Seq<char>) -> Option<u32>
    decreases digits.len(),
{
    if digits.len() == 0 || !('0' <= digits.last() <= '9') {
        None
    } else {
        let low = digits.last() as int - '0' as int;
        if digits.len() == 1 {
            Some(low as u32)
        } else {
            match number_of(digits.drop_last()) {
                None => None,
                Some(high) => if high * 10 + low <= u32::MAX {
                    Some((high * 10 + low) as u32)
                } else {
                    None
                },
            }
        }
    }
}

/// The number that decimal digits stand for.
fn parse_number(digits: &str) -> (r: Option<u32>)
    ensures
        r == number_of(digits@),
{
    let chars = chars_of(digits);
    let n: usize = chars.len();
    if n == 0 {
        return None;
    }
    let mut value: u32 = 0;
    let mut i: usize = 0;
    while i < n
        invariant
            n == chars@.len(),
            0 < n,
            i <= n,
            chars@ == digits@,
            i == 0 ==> value == 0,
            i > 0 ==> number_of(chars@.take(i as int)) == Some(value),
        decreases n - i,
    {
        let c = chars[i];
        let ghost longer = chars@.take(i + 1);
        assert(longer.drop_last() == chars@.take(i as int));
        assert(longer.last() == c);
        let low: u64 = if c >= '0' && c <= '9' {
            (c as u32 - '0' as u32) as u64
        } else {
            proof {
                lemma_no_number(chars@, i + 1);
            }
            return None;
        };
        let grown: u64 = value as u64 * 10 + low;
        if grown > 0xffff_ffff {
            proof {
                lemma_no_number(chars@, i + 1);
            }
            return None;
        }
        value = grown as u32;
        i = i + 1;
    }
    assert(chars@.take(n as int) == chars@);
    Some(value)
}

/// What follows cannot make a number of a beginning that is none.
proof fn lemma_no_number(digits: Seq<char>, k: int)
    requires
        0 < k <= digits.len(),
        number_of(digits.take(k)) is None,
    ensures
        number_of(digits) is None,
    decreases digits.len(),
{
    if k == digits.len() {
        assert(digits.take(k) == digits);
    } else {
        assert(digits.drop_last().take(k) == digits.take(k));
        lemma_no_number(digits.drop_last(), k);
    }
}

/// The number of the vCPU that a thread of the given name runs, if it runs one.
pub open spec fn vcpu_number(name: Seq<char>) -> Option<u32> {
    match without_prefix(trimmed(name), "vcpu"@) {
        Some(digits) => number_of(digits),
        None => None,
    }
}

/// The thread ids of vCPUs by vCPU number; of two threads with the same name the
/// later one counts.
pub open spec fn vcpu_tids(threads: Seq<(u32, Seq<char>)>) -> Map<u32, u32>
    decreases threads.len(),
{
    if threads.len() == 0 {
        Map::empty()
    } else {
        let before = vcpu_tids(threads.drop_last());
        match vcpu_number(threads.last().1) {
            Some(vcpu) => before.insert(vcpu, threads.last().0),
            None => before,
        }
    }
}

/// The ids and names of threads.
pub open spec fn thread_views(threads: Seq<(u32, String)>) -> Seq<(u32, Seq<char>)> {
    threads.map_values(|t: (u32, String)| (t.0, t.1@))
}

/// Picks the threads that run vCPUs.
pub fn collect_vcpu_tids(threads: &Vec<(u32, String)>) -> (r: HashMap<u32, u32>)
    ensures
        r@ == vcpu_tids(thread_views(threads@)),
{
    let mut r: HashMap<u32, u32> = HashMap::new();
    let ghost views = thread_views(threads@);
    let mut i: usize = 0;
    assert(views.take(0) == Seq::<(u32, Seq<char>)>::empty());
    while i < threads.len()
        invariant
            i <= threads@.len(),
            views == thread_views(threads@),
            r@ == vcpu_tids(views.take(i as int)),
        decreases threads@.len() - i,
    {
        assert(views.take(i + 1).drop_last() == views.take(i as int));
        let tid: u32 = threads[i].0;
        let name = trim(threads[i].1.as_str());
        if let Some(digits) = strip_prefix(name.as_str(), "vcpu") {
            if let Some(vcpu) = parse_number(digits.as_str()) {
                r.insert(vcpu, tid);
            }
        }
        i = i + 1;
    }
    assert(views.take(threads@.len() as int) == views);
    r
}

/// The thread ids of the vCPUs of a process, given what its threads showed:
/// a process without vCPU threads is an error.
pub fn get_ch_vcpu_tids(scan: Result<HashMap<u32, u32>, String>) -> (r: Result<
    HashMap<u32, u32>,
    String,
>)
    ensures
        match scan {
            Err(e) => r == Err::<HashMap<u32, u32>, String>(e),
            Ok(vcpus) => if vcpus@.len() == 0 {
                r matches Err(e) && e@ == "The contents of proc path are not available."@
            } else {
                r == Ok::<HashMap<u32, u32>, String>(vcpus)
            },
        },
{
    match scan {
        Err(e) => Err(e),
        Ok(vcpus) => {
            if vcpus.len() == 0 {
                return Err("The contents of proc path are not available.".to_owned());
            }
            Ok(vcpus)
        },
    }
}

} // verus!
