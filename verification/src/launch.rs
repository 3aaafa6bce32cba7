//! Launching the hypervisor, and getting to know it.

use vstd::prelude::*;
use vstd::utf8::encode_utf8;

use crate::hypervisor::{CloudHypervisorInner, HypervisorConfig, SecurityInfo, VmmState};
use crate::json::{
    array_view, items_in, items_storable, json_parsed, json_read, json_text, member, parse_json,
    render_json, unescaped, Json, JsonError, JsonView,
};
use crate::plan::{under, PlannedStep, PlannedView, Step};
use crate::protection::GuestProtection;
use crate::text::{
    chars_of, concat2, decimal, decimal_text, opt_text, opt_texts, same_text, signed_decimal,
    signed_decimal_text, text_of, texts,
};

verus! {

/// How long to wait before something is tried again, in milliseconds.
pub const CH_POLL_TIME_MS: u64 = 50;

/// A stage of starting the hypervisor.
#[derive(Debug, Clone, Copy, PartialEq, Eq, Structural)]
pub enum HypervisorStage {
    /// Launch the process.
    Launch,
    /// Connect to its API socket.
    SetupComms,
    /// Wait until it answers.
    CheckRunning,
}

/// Whether a list of features is known and lacks the given one.
pub open spec fn lacks_feature(features: Option<Seq<Seq<char>>>, feature: Seq<char>) -> bool {
    features matches Some(list) && !list.contains(feature)
}

/// What follows a stage of starting the hypervisor: the next stage, or none at
/// the end. A TDX guest needs a hypervisor that is built for it, as far as its
/// features are known.
pub open spec fn next_stage(
    after: Option<HypervisorStage>,
    protection: GuestProtection,
    features: Option<Seq<Seq<char>>>,
) -> Result<Option<HypervisorStage>, Seq<char>> {
    match after {
        None => Ok(Some(HypervisorStage::Launch)),
        Some(HypervisorStage::Launch) => Ok(Some(HypervisorStage::SetupComms)),
        Some(HypervisorStage::SetupComms) => Ok(Some(HypervisorStage::CheckRunning)),
        Some(HypervisorStage::CheckRunning) => if protection is Tdx && lacks_feature(
            features,
            "tdx"@,
        ) {
            Err("Cloud Hypervisor is not built with TDX support"@)
        } else {
            Ok(None)
        },
    }
}

/// The context of a stage that fails.
pub fn stage_context(stage: HypervisorStage) -> (r: String)
    ensures
        r@ == (match stage {
            HypervisorStage::Launch => "launch failed"@,
            HypervisorStage::SetupComms => "comms setup failed"@,
            HypervisorStage::CheckRunning => "hypervisor running check failed"@,
        }),
{
    match stage {
        HypervisorStage::Launch => "launch failed".to_owned(),
        HypervisorStage::SetupComms => "comms setup failed".to_owned(),
        HypervisorStage::CheckRunning => "hypervisor running check failed".to_owned(),
    }
}

/// Whether a list holds a text.
fn holds_text(list: &Vec<String>, text: &str) -> (r: bool)
    ensures
        r == texts(list@).contains(text@),
{
    let mut i: usize = 0;
    while i < list.len()
        invariant
            i <= list@.len(),
            forall|k: int| 0 <= k < i ==> texts(list@)[k] != text@,
        decreases list@.len() - i,
    {
        assert(texts(list@)[i as int] == list@[i as int]@);
        if same_text(list[i].as_str(), text) {
            return true;
        }
        i = i + 1;
    }
    assert(texts(list@).len() == list@.len());
    false
}

impl CloudHypervisorInner {
    /// Says what follows a stage of starting the hypervisor.
    pub fn start_hypervisor(&self, after: Option<HypervisorStage>) -> (r: Result<
        Option<HypervisorStage>,
        String,
    >)
        ensures
            match r {
                Ok(next) => next_stage(
                    after,
                    self.guest_protection_to_use,
                    opt_texts(self.ch_features),
                ) == Ok::<_, Seq<char>>(next),
                Err(e) => next_stage(
                    after,
                    self.guest_protection_to_use,
                    opt_texts(self.ch_features),
                ) == Err::<Option<HypervisorStage>, _>(e@),
            },
    {
        match after {
            None => Ok(Some(HypervisorStage::Launch)),
            Some(HypervisorStage::Launch) => Ok(Some(HypervisorStage::SetupComms)),
            Some(HypervisorStage::SetupComms) => Ok(Some(HypervisorStage::CheckRunning)),
            Some(HypervisorStage::CheckRunning) => {
                if let GuestProtection::Tdx = self.guest_protection_to_use {
                    if let Some(features) = &self.ch_features {
                        if !holds_text(features, "tdx") {
                            return Err(
                                "Cloud Hypervisor is not built with TDX support".to_owned(),
                            );
                        }
                    }
                }
                Ok(None)
            },
        }
    }

    /// Refuses to launch a second process.
    pub fn cloud_hypervisor_ensure_not_launched(&self) -> (r: Result<(), String>)
        ensures
            match r {
                Ok(_) => self.process is None,
                Err(e) => self.process matches Some(child) && e@
                    == "clh already running with PID "@ + decimal(
                    match child.id {
                        Some(pid) => pid as nat,
                        None => 0,
                    },
                ),
            },
    {
        match &self.process {
            None => Ok(()),
            Some(child) => {
                let pid: u32 = match child.id {
                    Some(pid) => pid,
                    None => 0,
                };
                Err(
                    concat2(
                        "clh already running with PID ",
                        decimal_text(pid as u64).as_str(),
                    ),
                )
            },
        }
    }
}

/// The command that launches the hypervisor. It runs in the root directory,
/// with its output caught, and without input.
#[derive(Debug)]
pub struct LaunchCommand {
    /// The executable file, to be resolved.
    pub program: String,
    pub args: Vec<String>,
    pub env_name: String,
    pub env_value: String,
    /// The network namespace to enter first.
    pub netns: Option<String>,
    /// The SELinux label to take; a failure to take it is no reason to stop.
    pub selinux_label: Option<String>,
    /// Whether to run as the configured user.
    pub as_rootless_user: bool,
}

/// The arguments of the hypervisor: the API socket, the configured arguments,
/// and the switches for debugging and for running without seccomp.
pub open spec fn launch_args(
    api_socket_path: Seq<char>,
    extra_args: Option<Seq<Seq<char>>>,
    debug: bool,
    disable_seccomp: bool,
) -> Seq<Seq<char>> {
    let extra = match extra_args {
        Some(list) => list,
        None => Seq::empty(),
    };
    let verbose = if debug {
        seq!["-v"@]
    } else {
        Seq::empty()
    };
    let seccomp = if disable_seccomp {
        seq!["--seccomp"@, "false"@]
    } else {
        Seq::empty()
    };
    seq!["--api-socket"@, api_socket_path] + extra + verbose + seccomp
}

/// The view of an optional text is itself optional.
fn copy_opt(s: &Option<String>) -> (r: Option<String>)
    ensures
        opt_text(r) == opt_text(*s),
{
    match s {
        Some(t) => Some(t.clone()),
        None => None,
    }
}

impl CloudHypervisorInner {
    /// The command that launches the hypervisor. A second launch is refused, and
    /// so is a rootless one without user.
    pub fn cloud_hypervisor_launch(&self, api_socket_path: &str, rootless: bool) -> (r: Result<
        LaunchCommand,
        String,
    >)
        ensures
            match r {
                Ok(command) => {
                    &&& self.process is None
                    &&& rootless ==> self.config.security_info.rootless_user
                    &&& command.program@ == self.config.path@
                    &&& texts(command.args@) == launch_args(
                        api_socket_path@,
                        opt_texts(self.extra_args),
                        self.config.enable_debug,
                        self.config.security_info.disable_seccomp,
                    )
                    &&& command.env_name@ == "RUST_BACKTRACE"@
                    &&& command.env_value@ == "full"@
                    &&& opt_text(command.netns) == opt_text(self.netns)
                    &&& opt_text(command.selinux_label) == opt_text(
                        self.config.security_info.selinux_label,
                    )
                    &&& command.as_rootless_user == rootless
                },
                Err(e) => match self.process {
                    Some(child) => e@ == "clh already running with PID "@ + decimal(
                        match child.id {
                            Some(pid) => pid as nat,
                            None => 0,
                        },
                    ),
                    None => rootless && !self.config.security_info.rootless_user && e@
                        == "rootless user must be specified for rootless cloud-hypervisor"@,
                },
            },
    {
        match self.cloud_hypervisor_ensure_not_launched() {
            Ok(_) => {},
            Err(e) => {
                return Err(e);
            },
        }
        if rootless && !self.config.security_info.rootless_user {
            return Err(
                "rootless user must be specified for rootless cloud-hypervisor".to_owned(),
            );
        }
        let mut args: Vec<String> = Vec::new();
        args.push("--api-socket".to_owned());
        args.push(api_socket_path.to_owned());
        let ghost start = seq!["--api-socket"@, api_socket_path@];
        let ghost mut extra: Seq<Seq<char>> = Seq::empty();
        assert(texts(args@) =~= start + extra);
        if let Some(list) = &self.extra_args {
            let ghost wanted = texts(list@);
            let mut i: usize = 0;
            assert(texts(args@) =~= start + wanted.take(0));
            while i < list.len()
                invariant
                    i <= list@.len(),
                    wanted == texts(list@),
                    texts(args@) == start + wanted.take(i as int),
                decreases list@.len() - i,
            {
                let ghost before = texts(args@);
                args.push(list[i].clone());
                assert(texts(args@) =~= before.push(wanted[i as int]));
                assert(wanted.take(i + 1) == wanted.take(i as int).push(wanted[i as int]));
                i = i + 1;
            }
            proof {
                extra = wanted;
                assert(wanted.take(wanted.len() as int) == wanted);
            }
        }
        let ghost mut all = start + extra;
        if self.config.enable_debug {
            args.push("-v".to_owned());
            assert(texts(args@) =~= all + seq!["-v"@]);
            proof {
                all = all + seq!["-v"@];
            }
        }
        if self.config.security_info.disable_seccomp {
            args.push("--seccomp".to_owned());
            args.push("false".to_owned());
            assert(texts(args@) =~= all + seq!["--seccomp"@, "false"@]);
        }
        assert(texts(args@) =~= launch_args(
            api_socket_path@,
            opt_texts(self.extra_args),
            self.config.enable_debug,
            self.config.security_info.disable_seccomp,
        ));
        Ok(
            LaunchCommand {
                program: self.config.path.clone(),
                args,
                env_name: "RUST_BACKTRACE".to_owned(),
                env_value: "full".to_owned(),
                netns: copy_opt(&self.netns),
                selinux_label: copy_opt(&self.config.security_info.selinux_label),
                as_rootless_user: rootless,
            },
        )
    }

    /// Takes note of the launched process. Its output is to be followed, until
    /// the shutdown is requested; its exit is to be reported.
    pub fn launched(&mut self, pid: Option<u32>) -> (r: Result<(), String>)
        ensures
            match r {
                Ok(_) => old(self).shutdown_rx && old(self).exit_notify && *final(self) == (
                CloudHypervisorInner { pid, exit_notify: false, tasks: Some(1), ..*old(self) }),
                Err(e) => *final(self) == (CloudHypervisorInner { pid, ..*old(self) }) && (if !old(
                    self,
                ).shutdown_rx {
                    e@ == "no receiver channel"@
                } else {
                    !old(self).exit_notify && e@ == "no exit notify"@
                }),
            },
    {
        self.pid = pid;
        if !self.shutdown_rx {
            return Err("no receiver channel".to_owned());
        }
        if !self.exit_notify {
            return Err("no exit notify".to_owned());
        }
        self.exit_notify = false;
        self.tasks = Some(1);
        Ok(())
    }

    /// Decides on an attempt to connect to the API socket, which the hypervisor
    /// may not have made yet.
    pub fn cloud_hypervisor_setup_comms(&self, connected: bool) -> (r: PingStep)
        ensures
            r == (if connected {
                PingStep::Ready
            } else {
                PingStep::RetryAfter { ms: CH_POLL_TIME_MS }
            }),
    {
        if connected {
            PingStep::Ready
        } else {
            PingStep::RetryAfter { ms: CH_POLL_TIME_MS }
        }
    }

    /// The context of a hypervisor that does not answer in time.
    pub fn timeout_message(&self) -> (r: String)
        ensures
            r@ == "API socket connect timed out after "@ + signed_decimal(self.timeout_secs as int)
                + " seconds"@,
    {
        let mut r = concat2(
            "API socket connect timed out after ",
            signed_decimal_text(self.timeout_secs).as_str(),
        );
        r.append(" seconds");
        r
    }

    /// How many seconds the hypervisor has to answer. A negative time wraps
    /// around.
    pub fn timeout_duration_secs(&self) -> (r: u64)
        ensures
            r == (if self.timeout_secs >= 0 {
                self.timeout_secs as int
            } else {
                0x1_0000_0000_0000_0000 + self.timeout_secs
            }),
    {
        if self.timeout_secs >= 0 {
            self.timeout_secs as u64
        } else {
            let missing: u64 = (-(self.timeout_secs as i64)) as u64;
            0xffff_ffff_ffff_ffff - missing + 1
        }
    }
}

/// A text without the quotes at its start.
pub open spec fn without_leading_quotes(s: Seq<char>) -> Seq<char>
    decreases s.len(),
{
    if s.len() > 0 && s[0] == '"' {
        without_leading_quotes(s.skip(1))
    } else {
        s
    }
}

/// A text without the quotes at its end.
pub open spec fn without_trailing_quotes(s: Seq<char>) -> Seq<char>
    decreases s.len(),
{
    if s.len() > 0 && s.last() == '"' {
        without_trailing_quotes(s.drop_last())
    } else {
        s
    }
}

/// The name of a feature: the item as it is rendered, without the quotes at
/// both ends.
pub open spec fn feature_name(item: JsonView) -> Seq<char> {
    without_trailing_quotes(without_leading_quotes(json_text(item)))
}

/// A text without the quotes at both ends.
fn trim_quotes(s: &str) -> (r: String)
    ensures
        r@ == without_trailing_quotes(without_leading_quotes(s@)),
{
    let chars = chars_of(s);
    let mut from: usize = 0;
    assert(chars@.skip(0) == chars@);
    while from < chars.len() && chars[from] == '"'
        invariant
            from <= chars@.len(),
            without_leading_quotes(chars@) == without_leading_quotes(chars@.skip(from as int)),
        decreases chars@.len() - from,
    {
        assert(chars@.skip(from as int).skip(1) == chars@.skip(from + 1));
        from = from + 1;
    }
    let ghost rest = chars@.skip(from as int);
    assert(without_leading_quotes(chars@) == rest);
    let mut to: usize = chars.len();
    assert(chars@.subrange(from as int, to as int) == rest);
    while from < to && chars[to - 1] == '"'
        invariant
            from <= to <= chars@.len(),
            without_trailing_quotes(rest) == without_trailing_quotes(
                chars@.subrange(from as int, to as int),
            ),
        decreases to - from,
    {
        assert(chars@.subrange(from as int, to as int).drop_last() == chars@.subrange(
            from as int,
            to - 1,
        ));
        assert(chars@.subrange(from as int, to as int).last() == chars@[to - 1]);
        to = to - 1;
    }
    if from < to {
        assert(chars@.subrange(from as int, to as int).last() == chars@[to - 1]);
    }
    text_of(&chars, from, to)
}

/// Why the features of a hypervisor cannot be read.
#[derive(Debug)]
pub enum FeaturesError {
    /// Its answer is no document.
    Unreadable(JsonError),
    /// They are no list.
    NoList,
}

/// The message for features that are no list.
pub fn no_list_message() -> (r: String)
    ensures
        r@ == "expected CH to return array of features"@,
{
    "expected CH to return array of features".to_owned()
}

/// The features that an answer names: none where there is no such member, or a
/// null one.
pub open spec fn answered_features(answer: Option<JsonView>) -> Result<
    Option<Seq<Seq<char>>>,
    bool,
> {
    match answer {
        None => Err(false),
        Some(document) => match member(document, "features"@) {
            None => Ok(None),
            Some(JsonView::Null) => Ok(None),
            Some(JsonView::Array(items)) => Ok(
                Some(items.map_values(|item: JsonView| feature_name(item))),
            ),
            Some(_) => Err(true),
        },
    }
}

/// Whether the items that are texts without escapes are the names themselves.
pub open spec fn plain_names_kept(items: Seq<JsonView>, names: Seq<Seq<char>>) -> bool {
    forall|i: int|
        0 <= i < items.len() ==> (#[trigger] items[i] matches JsonView::Text(s) ==> unescaped(s)
            ==> names[i] == s)
}

/// The names of the features in a list.
fn feature_names(items: Vec<Json>) -> (r: Vec<String>)
    requires
        items_storable(items@),
    ensures
        texts(r@) == array_view(items@).map_values(|item: JsonView| feature_name(item)),
        plain_names_kept(array_view(items@), texts(r@)),
{
    let ghost all = items@;
    let ghost wanted = array_view(all).map_values(|item: JsonView| feature_name(item));
    let mut names: Vec<String> = Vec::new();
    for item in it: items
        invariant
            it.seq() == all,
            items_storable(all),
            wanted == array_view(all).map_values(|item: JsonView| feature_name(item)),
            texts(names@) == wanted.take(it.index() as int),
            forall|i: int|
                0 <= i < it.index() ==> (#[trigger] array_view(all)[i] matches JsonView::Text(s)
                    ==> unescaped(s) ==> wanted[i] == s),
    {
        proof {
            assert(item == all[it.index() as int]);
            assert(array_view(all)[it.index() as int] == item@);
            assert(wanted[it.index() as int] == feature_name(item@));
            assert(wanted.take(it.index() + 1) == wanted.take(it.index() as int).push(
                wanted[it.index() as int],
            ));
        }
        let ghost before = texts(names@);
        let rendered = render_json(item);
        proof {
            if let JsonView::Text(s) = item@ {
                if unescaped(s) {
                    lemma_no_quotes(s);
                }
            }
        }
        names.push(trim_quotes(rendered.as_str()));
        assert(texts(names@) =~= before.push(feature_name(item@)));
    }
    assert(wanted.take(wanted.len() as int) =~= wanted);
    names
}

/// The member of an object with the given key, without the rest.
fn take_member(document: Json, key: &str) -> (r: Option<Json>)
    ensures
        match r {
            Some(value) => member(document@, key@) == Some(value@) && (document.storable()
                ==> value.storable()),
            None => member(document@, key@) is None,
        },
{
    let mut document = document;
    match document.get_mut(key) {
        Some(place) => {
            let mut value = Json::Null;
            std::mem::swap(place, &mut value);
            Some(value)
        },
        None => None,
    }
}

impl CloudHypervisorInner {
    /// Takes note of the features that the hypervisor names in its answer.
    pub fn handle_ch_build_features(&mut self, ping_response: &str) -> (r: Result<
        (),
        FeaturesError,
    >)
        ensures
            ({
                let features = answered_features(json_parsed(encode_utf8(ping_response@)));
                match r {
                    Ok(_) => features matches Ok(list) && opt_texts(final(self).ch_features)
                        == (match list {
                        Some(names) => Some(names),
                        None => opt_texts(old(self).ch_features),
                    }) && (list matches Some(names) ==> plain_names_kept(
                        items_in(
                            member(json_parsed(encode_utf8(ping_response@))->0, "features"@),
                        )->0,
                        names,
                    )),
                    Err(FeaturesError::Unreadable(e)) => json_read(encode_utf8(ping_response@))
                        == Err::<JsonView, _>(e.detail@) && *final(self) == *old(self),
                    Err(FeaturesError::NoList) => features == Err::<Option<Seq<Seq<char>>>, _>(
                        true,
                    ) && *final(self) == *old(self),
                }
            }),
            *final(self) == (CloudHypervisorInner {
                ch_features: final(self).ch_features,
                ..*old(self)
            }),
    {
        let document = match parse_json(ping_response.as_bytes()) {
            Ok(document) => document,
            Err(e) => {
                return Err(FeaturesError::Unreadable(e));
            },
        };
        match take_member(document, "features") {
            None => Ok(()),
            Some(Json::Null) => Ok(()),
            Some(Json::Array(items)) => {
                self.ch_features = Some(feature_names(items));
                Ok(())
            },
            Some(_) => Err(FeaturesError::NoList),
        }
    }
}

/// A text without quotes is kept.
proof fn lemma_no_quotes(s: Seq<char>)
    requires
        unescaped(s),
    ensures
        without_trailing_quotes(without_leading_quotes(seq!['"'] + s + seq!['"'])) == s,
{
    let quoted = seq!['"'] + s + seq!['"'];
    let tail = s + seq!['"'];
    assert(quoted.skip(1) =~= tail);
    assert(without_leading_quotes(quoted) == without_leading_quotes(tail));
    if s.len() > 0 {
        assert(tail[0] == s[0]);
        assert(s[0] != '"');
        assert(without_leading_quotes(tail) == tail);
        assert(tail.drop_last() =~= s);
        assert(tail.last() == '"');
        assert(s[s.len() - 1] != '"');
        assert(without_trailing_quotes(s) == s);
    } else {
        assert(tail.skip(1) =~= s);
        assert(tail[0] == '"');
        assert(without_leading_quotes(s) == s);
        assert(without_leading_quotes(tail) == s);
        assert(without_trailing_quotes(s) == s);
    }
}

/// What an attempt to reach the hypervisor leads to.
#[derive(Debug, Clone, Copy, PartialEq, Eq, Structural)]
pub enum PingStep {
    /// The hypervisor runs.
    Ready,
    /// Ask again after a while.
    RetryAfter { ms: u64 },
}

impl CloudHypervisorInner {
    /// Decides on the answer to a ping: one that fails is repeated; the features
    /// that an answer names are taken note of.
    pub fn cloud_hypervisor_ping_until_ready(
        &mut self,
        response: Result<Option<String>, String>,
    ) -> (r: Result<PingStep, FeaturesError>)
        ensures
            *final(self) == (CloudHypervisorInner {
                ch_features: final(self).ch_features,
                ..*old(self)
            }),
            match response {
                Err(_) => r == Ok::<_, FeaturesError>(
                    PingStep::RetryAfter { ms: CH_POLL_TIME_MS },
                ) && *final(self) == *old(self),
                Ok(None) => r == Ok::<_, FeaturesError>(PingStep::Ready) && *final(self) == *old(
                    self,
                ),
                Ok(Some(detail)) => {
                    let features = answered_features(json_parsed(encode_utf8(detail@)));
                    match r {
                        Ok(step) => step is Ready && (features matches Ok(list) && opt_texts(
                            final(self).ch_features,
                        ) == (match list {
                            Some(names) => Some(names),
                            None => opt_texts(old(self).ch_features),
                        }) && (list matches Some(names) ==> plain_names_kept(
                            items_in(
                                member(json_parsed(encode_utf8(detail@))->0, "features"@),
                            )->0,
                            names,
                        ))),
                        Err(FeaturesError::Unreadable(e)) => json_read(encode_utf8(detail@))
                            == Err::<JsonView, _>(e.detail@) && *final(self) == *old(self),
                        Err(FeaturesError::NoList) => features == Err::<
                            Option<Seq<Seq<char>>>,
                            _,
                        >(true) && *final(self) == *old(self),
                    }
                },
            },
    {
        match response {
            Err(_) => Ok(PingStep::RetryAfter { ms: CH_POLL_TIME_MS }),
            Ok(None) => Ok(PingStep::Ready),
            Ok(Some(detail)) => match self.handle_ch_build_features(detail.as_str()) {
                Ok(_) => Ok(PingStep::Ready),
                Err(e) => Err(e),
            },
        }
    }
}

/// The machine that the guest runs on.
#[derive(Debug, Clone, Copy, PartialEq, Eq, Structural)]
pub enum Architecture {
    X86_64,
    Aarch64,
}

/// Where a part of the kernel's command line comes from.
#[derive(Debug, PartialEq, Eq)]
pub enum KernelParams<S> {
    /// The parameters that every guest has.
    Defaults { debug: bool },
    /// The parameters of the root file system on a block device; without type,
    /// of the default type.
    Rootfs { verity_params: S, rootfs_type: Option<S> },
    /// Parameters as they stand.
    Text(S),
}

impl View for KernelParams<String> {
    type V = KernelParams<Seq<char>>;

    open spec fn view(&self) -> KernelParams<Seq<char>> {
        match self {
            KernelParams::Defaults { debug } => KernelParams::Defaults { debug: *debug },
            KernelParams::Rootfs { verity_params, rootfs_type } => KernelParams::Rootfs {
                verity_params: verity_params@,
                rootfs_type: opt_text(*rootfs_type),
            },
            KernelParams::Text(s) => KernelParams::Text(s@),
        }
    }
}

/// The views of kernel parameters.
pub open spec fn params_view(params: Seq<KernelParams<String>>) -> Seq<KernelParams<Seq<char>>> {
    params.map_values(|p: KernelParams<String>| p@)
}

/// What is said on the console: nothing but for debugging.
pub open spec fn console_param(
    debug: bool,
    confidential_guest: bool,
    arch: Architecture,
) -> Seq<char> {
    if !debug {
        "quiet"@
    } else if confidential_guest {
        "console=hvc0"@
    } else {
        match arch {
            Architecture::X86_64 => "console=ttyS0,115200n8"@,
            Architecture::Aarch64 => "console=ttyAMA0,115200n8"@,
        }
    }
}

/// The parts of the kernel's command line, in order.
pub open spec fn kernel_params(config: HypervisorConfig, arch: Architecture) -> Seq<
    KernelParams<Seq<char>>,
> {
    seq![
        KernelParams::Defaults { debug: config.enable_debug },
        KernelParams::Text(
            console_param(
                config.enable_debug,
                config.security_info.confidential_guest,
                arch,
            ),
        ),
        KernelParams::Rootfs {
            verity_params: config.boot_info.kernel_verity_params@,
            rootfs_type: if config.boot_info.rootfs_type@.len() == 0 {
                None
            } else {
                Some(config.boot_info.rootfs_type@)
            },
        },
        KernelParams::Text("no_timer_check noreplace-smp systemd.log_target=console"@),
        KernelParams::Text(config.boot_info.kernel_params@),
    ]
}

impl CloudHypervisorInner {
    /// The parts of the kernel's command line.
    pub fn get_kernel_params(&self, arch: Architecture) -> (r: Vec<KernelParams<String>>)
        ensures
            params_view(r@) == kernel_params(self.config, arch),
    {
        let debug: bool = self.config.enable_debug;
        let console = if !debug {
            "quiet"
        } else if self.config.security_info.confidential_guest {
            "console=hvc0"
        } else {
            match arch {
                Architecture::X86_64 => "console=ttyS0,115200n8",
                Architecture::Aarch64 => "console=ttyAMA0,115200n8",
            }
        };
        let rootfs_type = if self.config.boot_info.rootfs_type.as_str().is_empty() {
            None
        } else {
            Some(self.config.boot_info.rootfs_type.clone())
        };
        let mut r: Vec<KernelParams<String>> = Vec::new();
        r.push(KernelParams::Defaults { debug });
        r.push(KernelParams::Text(console.to_owned()));
        r.push(
            KernelParams::Rootfs {
                verity_params: self.config.boot_info.kernel_verity_params.clone(),
                rootfs_type,
            },
        );
        r.push(
            KernelParams::Text(
                "no_timer_check noreplace-smp systemd.log_target=console".to_owned(),
            ),
        );
        r.push(KernelParams::Text(self.config.boot_info.kernel_params.clone()));
        assert(params_view(r@) =~= kernel_params(self.config, arch));
        r
    }
}

/// The parameters of the user stand last, so that they take priority.
pub proof fn law_user_params_stand_last(config: HypervisorConfig, arch: Architecture)
    ensures
        kernel_params(config, arch).last() == KernelParams::Text(config.boot_info.kernel_params@),
{
}

/// The value of an annotation, if there is one.
pub open spec fn annotation(annotations: Seq<(String, String)>, key: Seq<char>) -> Option<
    Seq<char>,
>
    decreases annotations.len(),
{
    if annotations.len() == 0 {
        None
    } else if annotations[0].0@ == key {
        Some(annotations[0].1@)
    } else {
        annotation(annotations.skip(1), key)
    }
}

/// The checkpoint that annotations ask to restore: the directory that they
/// name counts only together with the request.
pub open spec fn requested_restore(annotations: Seq<(String, String)>) -> Option<Seq<char>> {
    if annotation(annotations, "io.katacontainers.vm.restore"@) == Some("true"@) {
        annotation(annotations, "io.katacontainers.vm.checkpoint_dir"@)
    } else {
        None
    }
}

/// The value of an annotation.
fn find_annotation<'a>(annotations: &'a Vec<(String, String)>, key: &str) -> (r: Option<
    &'a String,
>)
    ensures
        match r {
            Some(value) => annotation(annotations@, key@) == Some(value@),
            None => annotation(annotations@, key@) is None,
        },
{
    let mut i: usize = 0;
    assert(annotations@.skip(0) == annotations@);
    while i < annotations.len()
        invariant
            i <= annotations@.len(),
            annotation(annotations@, key@) == annotation(annotations@.skip(i as int), key@),
        decreases annotations@.len() - i,
    {
        assert(annotations@.skip(i as int)[0] == annotations@[i as int]);
        assert(annotations@.skip(i as int).skip(1) == annotations@.skip(i + 1));
        if same_text(annotations[i].0.as_str(), key) {
            return Some(&annotations[i].1);
        }
        i = i + 1;
    }
    None
}

/// The directories that a sandbox needs.
#[derive(Debug)]
pub struct Environment {
    /// The step that makes the directory of the sandbox.
    pub sandbox: PlannedStep,
    /// The step that makes the directory of the jailer, if there is one.
    pub jailer: Option<Step<String>>,
}

/// Making the directory of a sandbox.
pub open spec fn sandbox_dir_step(run_dir: Seq<char>) -> PlannedView {
    under(
        Step::CreateOwnedDirAll { path: run_dir, mode: 0o750 },
        "failed to create sandbox directory "@ + run_dir,
    )
}

impl CloudHypervisorInner {
    /// Begins to prepare a VM: gives it its id, and takes note of the checkpoint
    /// that its annotations ask to restore.
    pub fn prepare_vm(&mut self, id: &str, annotations: &Vec<(String, String)>)
        ensures
            final(self).id@ == id@,
            opt_text(final(self).restore_path) == requested_restore(annotations@),
            *final(self) == (CloudHypervisorInner {
                id: final(self).id,
                state: VmmState::NotReady,
                restore_path: final(self).restore_path,
                ..*old(self)
            }),
    {
        self.id = id.to_owned();
        self.state = VmmState::NotReady;
        let wanted: bool = match find_annotation(annotations, "io.katacontainers.vm.restore") {
            Some(value) => same_text(value.as_str(), "true"),
            None => false,
        };
        self.restore_path = if wanted {
            match find_annotation(annotations, "io.katacontainers.vm.checkpoint_dir") {
                Some(dir) => Some(dir.clone()),
                None => None,
            }
        } else {
            None
        };
    }

    /// Takes note of the directory of the sandbox, which also holds what
    /// belongs to the VM, and says which directories to make.
    pub fn setup_environment(&mut self, sandbox_path: &str) -> (r: Environment)
        ensures
            final(self).run_dir@ == sandbox_path@,
            final(self).vm_path@ == sandbox_path@,
            *final(self) == (CloudHypervisorInner {
                run_dir: final(self).run_dir,
                vm_path: final(self).vm_path,
                ..*old(self)
            }),
            r.sandbox@ == sandbox_dir_step(sandbox_path@),
            match r.jailer {
                Some(step) => old(self).jailer_root@.len() > 0 && step@ == (
                Step::CreateOwnedDirAll { path: old(self).jailer_root@, mode: 0o750 }),
                None => old(self).jailer_root@.len() == 0,
            },
    {
        self.run_dir = sandbox_path.to_owned();
        self.vm_path = sandbox_path.to_owned();
        let mut contexts: Vec<String> = Vec::new();
        contexts.push(concat2("failed to create sandbox directory ", sandbox_path));
        assert(texts(contexts@) =~= seq!["failed to create sandbox directory "@ + sandbox_path@]);
        let sandbox = PlannedStep {
            step: Step::CreateOwnedDirAll { path: sandbox_path.to_owned(), mode: 0o750 },
            contexts,
        };
        let jailer = if self.jailer_root.as_str().is_empty() {
            None
        } else {
            Some(Step::CreateOwnedDirAll { path: self.jailer_root.clone(), mode: 0o750 })
        };
        Environment { sandbox, jailer }
    }

    /// The message for a directory of the jailer that cannot be made; `shown`
    /// shows why.
    pub fn jailer_dir_message(&self, shown: &str) -> (r: String)
        ensures
            r@ == "Failed to create dir "@ + self.jailer_root@ + " err : "@ + shown@,
    {
        let mut r = concat2("Failed to create dir ", self.jailer_root.as_str());
        r.append(" err : ");
        r.append(shown);
        r
    }

    /// Ends the preparation: takes note of the network namespace and, unless
    /// SELinux is disabled, of the label. Gives the label that the process is to
    /// take.
    pub fn finish_prepare(&mut self, netns: Option<String>, selinux_label: Option<String>) -> (r:
        Option<String>)
        ensures
            opt_text(r) == (if old(self).config.disable_selinux {
                None
            } else {
                opt_text(selinux_label)
            }),
            opt_text(final(self).config.security_info.selinux_label) == (if r is Some {
                opt_text(r)
            } else {
                opt_text(old(self).config.security_info.selinux_label)
            }),
            *final(self) == (CloudHypervisorInner {
                netns,
                config: HypervisorConfig {
                    security_info: SecurityInfo {
                        selinux_label: final(self).config.security_info.selinux_label,
                        ..old(self).config.security_info
                    },
                    ..old(self).config
                },
                ..*old(self)
            }),
    {
        self.netns = netns;
        if self.config.disable_selinux {
            return None;
        }
        match selinux_label {
            None => None,
            Some(label) => {
                self.config.security_info.selinux_label = Some(label.clone());
                Some(label)
            },
        }
    }
}

/// Without the request no checkpoint is restored, whatever directory is named.
pub proof fn law_restore_must_be_requested(annotations: Seq<(String, String)>)
    requires
        annotation(annotations, "io.katacontainers.vm.restore"@) != Some("true"@),
    ensures
        requested_restore(annotations) is None,
{
}

} // verus!
