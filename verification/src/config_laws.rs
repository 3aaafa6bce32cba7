//! What holds of every adapted snapshot configuration.

use vstd::prelude::*;

use crate::json::{
    bool_in, depth_limit, integral, item_index, items_in, json_bytes, json_parsed,
    lemma_item_index, lemma_same_index, lemma_same_member, member, survives_writing, text_in,
    with_member, JsonView,
};
use crate::lifecycle::{
    all_fds, fd_counts, start_step, StartActionView, StartEventView, StartFacts, StartStateView,
};
use crate::snapshot_config::{
    fs_config_patched, fs_patched, memory_patched, net_entries, nets_have_ids, nets_with_fds,
    rewritten, runtime_patched, vsock_patched, zones_marked, ConfigError, ConfigFault,
};

verus! {

/// Setting a member is seen at its key and nowhere else.
proof fn lemma_with_member(v: JsonView, key: Seq<char>, value: JsonView, other: Seq<char>)
    requires
        v is Object,
    ensures
        member(with_member(v, key, value), key) == Some(value),
        other != key ==> member(with_member(v, key, value), other) == member(v, other),
        with_member(v, key, value) is Object,
{
}

/// Of two values set at the same key the second one stays.
proof fn lemma_set_twice(v: JsonView, key: Seq<char>, first: JsonView, second: JsonView)
    requires
        v is Object,
    ensures
        with_member(with_member(v, key, first), key, second) == with_member(v, key, second),
{
    assert(v->Object_0.insert(key, first).insert(key, second) =~= v->Object_0.insert(key, second));
}

/// The names that the laws speak of are different.
pub proof fn lemma_names_differ()
    ensures
        "vsock"@ != "fs"@,
        "vsock"@ != "net"@,
        "fs"@ != "net"@,
        "socket"@ != "tag"@,
        "shared"@ != "zones"@,
{
    reveal_strlit("vsock");
    reveal_strlit("fs");
    reveal_strlit("net");
    reveal_strlit("socket");
    reveal_strlit("tag");
    reveal_strlit("shared");
    reveal_strlit("zones");
    assert("vsock"@.len() == 5 && "fs"@.len() == 2 && "net"@.len() == 3);
    assert("socket"@.len() == 6 && "tag"@.len() == 3);
    assert("shared"@.len() == 6 && "zones"@.len() == 5);
}

/// Adapting the vsock socket sets it, and changes nothing else of the document
/// and nothing else of the vsock device.
pub proof fn law_vsock_socket_is_set(config: JsonView, path: Seq<char>, key: Seq<char>)
    requires
        member(config, "vsock"@) matches Some(vsock) && vsock is Object,
    ensures
        vsock_patched(config, Ok(path)) matches Ok(patched) && {
            let before = member(config, "vsock"@)->0;
            let after = member(patched, "vsock"@);
            &&& after is Some
            &&& text_in(member(after->0, "socket"@)) == Some(path)
            &&& key != "socket"@ ==> member(after->0, key) == member(before, key)
            &&& key != "vsock"@ ==> member(patched, key) == member(config, key)
        },
{
    let vsock = member(config, "vsock"@)->0;
    lemma_with_member(vsock, "socket"@, JsonView::Text(path), key);
    lemma_with_member(
        config,
        "vsock"@,
        with_member(vsock, "socket"@, JsonView::Text(path)),
        key,
    );
}

/// The socket of the last of the first `n` devices whose tag leads to entry `i`.
pub open spec fn socket_for(
    entries: Seq<JsonView>,
    devices: Seq<(Seq<char>, Seq<char>)>,
    n: int,
    i: int,
) -> Option<Seq<char>>
    decreases n,
{
    if n <= 0 {
        None
    } else if item_index(entries, "tag"@, devices[n - 1].0, 0) == Some(i) {
        Some(devices[n - 1].1)
    } else {
        socket_for(entries, devices, n - 1, i)
    }
}

/// What becomes of each entry: the last device that leads to it sets its
/// socket, and an entry to which none leads stays as it is.
pub proof fn law_sockets_go_to_their_tags(
    entries: Seq<JsonView>,
    devices: Seq<(Seq<char>, Seq<char>)>,
    n: int,
)
    requires
        0 <= n <= devices.len(),
    ensures
        fs_patched(entries, devices, n) is Ok <==> forall|k: int|
            0 <= k < n ==> item_index(entries, "tag"@, #[trigger] devices[k].0, 0) is Some,
        fs_patched(entries, devices, n) matches Ok(patched) ==> {
            &&& patched.len() == entries.len()
            &&& forall|i: int|
                0 <= i < entries.len() ==> #[trigger] patched[i] == (match socket_for(
                    entries,
                    devices,
                    n,
                    i,
                ) {
                    Some(socket) => with_member(entries[i], "socket"@, JsonView::Text(socket)),
                    None => entries[i],
                })
            &&& forall|i: int|
                0 <= i < entries.len() ==> member(#[trigger] patched[i], "tag"@) == member(
                    entries[i],
                    "tag"@,
                )
            &&& forall|i: int|
                0 <= i < entries.len() && socket_for(entries, devices, n, i) is Some ==> (
                #[trigger] entries[i]) is Object
        },
    decreases n,
{
    lemma_names_differ();
    if n > 0 {
        law_sockets_go_to_their_tags(entries, devices, n - 1);
        if let Ok(patched) = fs_patched(entries, devices, n - 1) {
            let tag = devices[n - 1].0;
            let socket = JsonView::Text(devices[n - 1].1);
            assert forall|i: int| 0 <= i < patched.len() implies member(
                #[trigger] patched[i],
                "tag"@,
            ) == member(entries[i], "tag"@) by {}
            lemma_same_index(patched, entries, "tag"@, tag, 0);
            lemma_item_index(entries, "tag"@, tag, 0);
            lemma_item_index(patched, "tag"@, tag, 0);
            if let Some(at) = item_index(patched, "tag"@, tag, 0) {
                let next = patched.update(at, with_member(patched[at], "socket"@, socket));
                lemma_with_member(patched[at], "socket"@, socket, "tag"@);
                if let Some(earlier) = socket_for(entries, devices, n - 1, at) {
                    lemma_set_twice(entries[at], "socket"@, JsonView::Text(earlier), socket);
                }
                assert forall|i: int| 0 <= i < entries.len() implies #[trigger] next[i] == (
                match socket_for(entries, devices, n, i) {
                    Some(s) => with_member(entries[i], "socket"@, JsonView::Text(s)),
                    None => entries[i],
                }) by {
                    if i != at {
                        assert(next[i] == patched[i]);
                    }
                }
                assert forall|i: int|
                    0 <= i < entries.len() && socket_for(entries, devices, n, i) is Some implies (
                #[trigger] entries[i]) is Object by {
                    if i != at {
                        assert(socket_for(entries, devices, n - 1, i) is Some);
                    }
                }
                assert(fs_patched(entries, devices, n) == Ok::<_, ConfigFault<Seq<char>>>(next));
                assert forall|k: int| 0 <= k < n implies item_index(
                    entries,
                    "tag"@,
                    #[trigger] devices[k].0,
                    0,
                ) is Some by {}
            } else {
                assert(item_index(entries, "tag"@, devices[n - 1].0, 0) is None);
            }
        } else {
            let k = choose|k: int|
                0 <= k < n - 1 && item_index(entries, "tag"@, #[trigger] devices[k].0, 0) is None;
            assert(item_index(entries, "tag"@, devices[k].0, 0) is None);
        }
    }
}

/// Entries found alike get the same sockets.
proof fn lemma_same_sockets(
    entries: Seq<JsonView>,
    others: Seq<JsonView>,
    devices: Seq<(Seq<char>, Seq<char>)>,
    n: int,
    i: int,
)
    requires
        entries.len() == others.len(),
        forall|k: int|
            0 <= k < entries.len() ==> member(#[trigger] entries[k], "tag"@) == member(
                others[k],
                "tag"@,
            ),
    ensures
        socket_for(entries, devices, n, i) == socket_for(others, devices, n, i),
    decreases n,
{
    if n > 0 {
        lemma_same_index(entries, others, "tag"@, devices[n - 1].0, 0);
        lemma_same_sockets(entries, others, devices, n - 1, i);
    }
}

/// Replacing the sockets a second time changes nothing.
proof fn lemma_fs_patched_twice(
    entries: Seq<JsonView>,
    devices: Seq<(Seq<char>, Seq<char>)>,
)
    ensures
        fs_patched(entries, devices, devices.len() as int) matches Ok(patched) ==> fs_patched(
            patched,
            devices,
            devices.len() as int,
        ) == Ok::<_, ConfigFault<Seq<char>>>(patched),
{
    let n = devices.len() as int;
    law_sockets_go_to_their_tags(entries, devices, n);
    if let Ok(patched) = fs_patched(entries, devices, n) {
        law_sockets_go_to_their_tags(patched, devices, n);
        assert forall|k: int| 0 <= k < n implies item_index(
            patched,
            "tag"@,
            #[trigger] devices[k].0,
            0,
        ) is Some by {
            lemma_same_index(patched, entries, "tag"@, devices[k].0, 0);
            assert(item_index(entries, "tag"@, devices[k].0, 0) is Some);
        }
        let again = fs_patched(patched, devices, n)->Ok_0;
        assert forall|i: int| 0 <= i < patched.len() implies again[i] == patched[i] by {
            lemma_same_sockets(patched, entries, devices, n, i);
            assert(entries[i] == entries[i]);
            assert(patched[i] == patched[i]);
            if let Some(s) = socket_for(entries, devices, n, i) {
                lemma_set_twice(entries[i], "socket"@, JsonView::Text(s), JsonView::Text(s));
            }
        }
        assert(again =~= patched);
    }
}

/// Adapting the runtime paths touches the vsock and file system devices only.
pub proof fn law_runtime_paths_leave_the_rest(
    config: JsonView,
    vsock_path: Result<Seq<char>, Seq<char>>,
    devices: Seq<(Seq<char>, Seq<char>)>,
    fds: Seq<usize>,
    key: Seq<char>,
)
    requires
        key != "vsock"@,
        key != "fs"@,
    ensures
        runtime_patched(config, vsock_path, devices, fds) matches Ok((patched, nets)) ==> member(
            patched,
            key,
        ) == member(config, key),
{
}

/// The networks of a restore are those of the snapshot, in its order, each with
/// the descriptor count at its place; a restore with more or fewer of them is
/// refused.
pub proof fn law_networks_match_the_snapshot(
    config: JsonView,
    vsock_path: Result<Seq<char>, Seq<char>>,
    devices: Seq<(Seq<char>, Seq<char>)>,
    fds: Seq<usize>,
)
    ensures
        runtime_patched(config, vsock_path, devices, fds) matches Ok((patched, nets)) ==> {
            &&& net_entries(config).len() == fds.len()
            &&& nets_have_ids(net_entries(config))
            &&& nets == nets_with_fds(net_entries(config), fds)
        },
        net_entries(config).len() != fds.len() ==> runtime_patched(
            config,
            vsock_path,
            devices,
            fds,
        ) is Err,
{
    lemma_names_differ();
}

/// The networks of a restored checkpoint are sent with the corresponding
/// descriptors: there are as many networks as the sandbox has, in its order;
/// each says how many descriptors the network of the sandbox at its place has;
/// and these stand, one network after the other, in what is handed over.
pub proof fn law_networks_are_sent_with_their_descriptors(
    facts: StartFacts,
    checkpoint_dir: Seq<char>,
    networks: Seq<Seq<i32>>,
    config: JsonView,
    vsock_path: Result<Seq<char>, Seq<char>>,
    devices: Seq<(Seq<char>, Seq<char>)>,
    patched: JsonView,
    nets: Seq<(Seq<char>, usize)>,
)
    requires
        forall|k: int| 0 <= k < networks.len() ==> (#[trigger] networks[k]).len() <= usize::MAX,
        runtime_patched(config, vsock_path, devices, fd_counts(networks)) == Ok::<
            _,
            ConfigFault<Seq<char>>,
        >((patched, nets)),
    ensures
        ({
            let listing = StartStateView::Listing { checkpoint_dir };
            let (state, actions) = start_step(facts, listing, StartEventView::Devices(networks));
            let (next, calls) = start_step(facts, state, StartEventView::Prepared(nets));
            &&& actions == seq![
                StartActionView::PrepareCheckpoint {
                    checkpoint_dir,
                    net_fd_counts: fd_counts(networks),
                },
            ]
            &&& calls.len() == 1
            &&& calls[0] matches StartActionView::Restore(call) && {
                &&& call.request.net_fds == (if nets.len() > 0 {
                    Some(nets)
                } else {
                    None
                })
                &&& call.fds == all_fds(networks)
            }
            &&& nets.len() == networks.len()
            &&& nets.len() == net_entries(config).len()
            &&& forall|k: int|
                0 <= k < nets.len() ==> {
                    let before = all_fds(networks.take(k)).len() as int;
                    &&& text_in(member(net_entries(config)[k], "id"@)) == Some(
                        (#[trigger] nets[k]).0,
                    )
                    &&& nets[k].1 == networks[k].len()
                    &&& before + nets[k].1 <= all_fds(networks).len()
                    &&& all_fds(networks).subrange(before, before + nets[k].1) == networks[k]
                }
        }),
{
    law_networks_match_the_snapshot(config, vsock_path, devices, fd_counts(networks));
    assert forall|k: int| 0 <= k < nets.len() implies {
        let before = all_fds(networks.take(k)).len() as int;
        &&& text_in(member(net_entries(config)[k], "id"@)) == Some((#[trigger] nets[k]).0)
        &&& nets[k].1 == networks[k].len()
        &&& before + nets[k].1 <= all_fds(networks).len()
        &&& all_fds(networks).subrange(before, before + nets[k].1) == networks[k]
    } by {
        assert(fd_counts(networks)[k] == networks[k].len());
        lemma_own_descriptors(networks, k);
    }
}

/// The descriptors of a network stand behind those of the networks before it.
proof fn lemma_own_descriptors(networks: Seq<Seq<i32>>, k: int)
    requires
        0 <= k < networks.len(),
    ensures
        ({
            let before = all_fds(networks.take(k)).len() as int;
            &&& before + networks[k].len() <= all_fds(networks).len()
            &&& all_fds(networks).subrange(before, before + networks[k].len()) == networks[k]
        }),
    decreases networks.len(),
{
    let last = networks.len() - 1;
    let fewer = networks.drop_last();
    assert(networks =~= fewer.push(networks[last]));
    fewer.lemma_flatten_push(networks[last]);
    assert(fewer.take(k) =~= networks.take(k));
    let before = all_fds(networks.take(k)).len() as int;
    if k == last {
        assert(networks.take(k) =~= fewer);
        assert(all_fds(networks).subrange(before, before + networks[k].len()) =~= networks[k]);
    } else {
        lemma_own_descriptors(fewer, k);
        assert(all_fds(networks).subrange(before, before + networks[k].len()) =~= all_fds(
            fewer,
        ).subrange(before, before + networks[k].len()));
    }
}

/// A configuration that was adapted can be adapted again, and stays as it is:
/// a restore that is tried again finds what it needs.
pub proof fn law_runtime_paths_twice(
    config: JsonView,
    vsock_path: Result<Seq<char>, Seq<char>>,
    devices: Seq<(Seq<char>, Seq<char>)>,
    fds: Seq<usize>,
)
    ensures
        runtime_patched(config, vsock_path, devices, fds) matches Ok((patched, nets))
            ==> runtime_patched(patched, vsock_path, devices, fds) == Ok::<
            _,
            ConfigFault<Seq<char>>,
        >((patched, nets)),
{
    lemma_names_differ();
    if let Ok((patched, nets)) = runtime_patched(config, vsock_path, devices, fds) {
        let with_vsock = vsock_patched(config, vsock_path)->Ok_0;
        assert(member(patched, "vsock"@) == member(with_vsock, "vsock"@));
        if let Some(JsonView::Object(vsock)) = member(config, "vsock"@) {
            let old_vsock = JsonView::Object(vsock);
            let path = vsock_path->Ok_0;
            let new_vsock = with_member(old_vsock, "socket"@, JsonView::Text(path));
            assert(member(patched, "vsock"@) == Some(new_vsock));
            lemma_set_twice(old_vsock, "socket"@, JsonView::Text(path), JsonView::Text(path));
            lemma_same_member(patched, "vsock"@);
        }
        assert(vsock_patched(patched, vsock_path) == Ok::<_, ConfigFault<Seq<char>>>(patched));
        if devices.len() > 0 {
            let entries = items_in(member(with_vsock, "fs"@))->0;
            lemma_fs_patched_twice(entries, devices);
            lemma_same_member(patched, "fs"@);
        }
        assert(fs_config_patched(patched, devices) == Ok::<_, ConfigFault<Seq<char>>>(patched));
    }
}

/// After marking, the memory and every zone of it are shared or private as
/// given, and everything else is as it was.
pub proof fn law_memory_is_marked(config: JsonView, shared: bool, key: Seq<char>)
    ensures
        memory_patched(config, shared) matches Ok(patched) ==> {
            let before = member(config, "memory"@);
            let after = member(patched, "memory"@);
            &&& after is Some
            &&& bool_in(member(after->0, "shared"@)) == Some(shared)
            &&& items_in(member(after->0, "zones"@)) is Some
            &&& forall|i: int|
                0 <= i < items_in(member(after->0, "zones"@))->0.len() ==> bool_in(
                    member(#[trigger] items_in(member(after->0, "zones"@))->0[i], "shared"@),
                ) == Some(shared)
            &&& key != "memory"@ ==> member(patched, key) == member(config, key)
            &&& key != "shared"@ && key != "zones"@ ==> member(after->0, key) == member(
                before->0,
                key,
            )
        },
{
    lemma_names_differ();
}

/// The last marking counts: the earlier ones leave no trace.
pub proof fn law_last_marking_counts(config: JsonView, first: bool, second: bool)
    ensures
        memory_patched(config, first) matches Ok(patched) ==> memory_patched(patched, second)
            == memory_patched(config, second),
{
    lemma_names_differ();
    if let Ok(patched) = memory_patched(config, first) {
        let memory = member(config, "memory"@)->0;
        let a = JsonView::Bool(first);
        let b = JsonView::Bool(second);
        let marked_a = with_member(memory, "shared"@, a);
        let marked_b = with_member(memory, "shared"@, b);
        let zones = items_in(member(marked_a, "zones"@))->0;
        let all_a = JsonView::Array(zones_marked(zones, first));
        let all_b = JsonView::Array(zones_marked(zones, second));
        let done_a = with_member(marked_a, "zones"@, all_a);
        assert(member(patched, "memory"@) == Some(done_a));
        assert(with_member(done_a, "shared"@, b)->Object_0 =~= with_member(
            marked_b,
            "zones"@,
            all_a,
        )->Object_0);
        assert(items_in(member(marked_b, "zones"@)) == Some(zones));
        assert(items_in(member(with_member(done_a, "shared"@, b), "zones"@)) == Some(
            zones_marked(zones, first),
        ));
        assert forall|i: int| 0 <= i < zones.len() implies (
        #[trigger] zones_marked(zones, first)[i]) is Object by {
            assert(zones[i] is Object);
        }
        assert(zones_marked(zones_marked(zones, first), second) =~= zones_marked(zones, second)) by {
            assert forall|i: int| 0 <= i < zones.len() implies zones_marked(
                zones_marked(zones, first),
                second,
            )[i] == zones_marked(zones, second)[i] by {
                assert(zones[i] is Object);
                lemma_set_twice(zones[i], "shared"@, a, b);
            }
        }
        lemma_set_twice(marked_b, "zones"@, all_a, all_b);
        lemma_set_twice(
            config,
            "memory"@,
            done_a,
            with_member(marked_b, "zones"@, all_b),
        );
    }
}

/// A file whose vsock socket was adapted reads as a document with that socket,
/// if what was written survives the writing; a document whose numbers are
/// integers does.
pub proof fn law_adapted_file_names_the_socket(
    data: Seq<u8>,
    path: Seq<char>,
    out: Vec<u8>,
    config: JsonView,
)
    requires
        json_parsed(data) == Some(config),
        integral(config, depth_limit()) || survives_writing(vsock_patched(config, Ok(path))->Ok_0),
        member(config, "vsock"@) matches Some(vsock) && vsock is Object,
        rewritten(data, |c: JsonView| vsock_patched(c, Ok(path)), Ok(out)),
    ensures
        json_parsed(out@) matches Some(after) && (member(after, "vsock"@) matches Some(vsock)
            && text_in(member(vsock, "socket"@)) == Some(path)),
{
    law_vsock_socket_is_set(config, path, "vsock"@);
}

/// Marking fails exactly where the memory is no object, its zones are no list,
/// or a zone is no object.
pub proof fn law_marking_fails_exactly(config: JsonView, shared: bool)
    ensures
        memory_patched(config, shared) is Ok <==> (member(config, "memory"@) matches Some(memory)
            && memory is Object && (items_in(member(memory, "zones"@)) matches Some(zones)
            && forall|i: int| 0 <= i < zones.len() ==> (#[trigger] zones[i]) is Object)),
{
    lemma_names_differ();
}

/// Whether two attempts to adapt a file come to the same: the same bytes, or
/// the same failure.
pub open spec fn same_outcome(
    a: Result<Vec<u8>, ConfigError>,
    b: Result<Vec<u8>, ConfigError>,
) -> bool {
    match (a, b) {
        (Ok(x), Ok(y)) => x@ == y@,
        (Err(ConfigError::Fault(x)), Err(ConfigError::Fault(y))) => x@ == y@,
        (Err(ConfigError::Unreadable(x)), Err(ConfigError::Unreadable(y))) => x.detail@
            == y.detail@,
        (Err(ConfigError::Unwritable(x)), Err(ConfigError::Unwritable(y))) => x.detail@
            == y.detail@,
        _ => false,
    }
}

/// Marking the memory in a file that holds a document fails exactly where its
/// memory is no object, its zones are no list or a zone is no object, or where
/// the marked document cannot be written. Nothing is to be written to the file
/// then.
pub proof fn law_marking_a_file_fails_exactly(
    data: Seq<u8>,
    config: JsonView,
    shared: bool,
    r: Result<Vec<u8>, ConfigError>,
)
    requires
        json_parsed(data) == Some(config),
        rewritten(data, |c: JsonView| memory_patched(c, shared), r),
    ensures
        (r matches Err(e) && e is Fault) <==> !(member(config, "memory"@) matches Some(memory)
            && memory is Object && (items_in(member(memory, "zones"@)) matches Some(zones)
            && forall|i: int| 0 <= i < zones.len() ==> (#[trigger] zones[i]) is Object)),
        (r matches Err(e) && e is Unwritable) <==> (memory_patched(config, shared) matches Ok(
            wanted,
        ) && json_bytes(wanted) is None),
        !(r matches Err(e) && e is Unreadable),
{
    law_marking_fails_exactly(config, shared);
}

/// A file whose memory was marked reads as the marked document. The last mark
/// counts: marking a marked file comes to the same as marking the file that it
/// was made from, whatever the earlier mark. This holds of every document that
/// survives the first writing; one whose numbers are integers does.
pub proof fn law_last_mark_of_a_file_counts(
    data: Seq<u8>,
    config: JsonView,
    first: bool,
    second: bool,
    marked: Vec<u8>,
    after: Result<Vec<u8>, ConfigError>,
    direct: Result<Vec<u8>, ConfigError>,
)
    requires
        json_parsed(data) == Some(config),
        integral(config, depth_limit()) || survives_writing(memory_patched(config, first)->Ok_0),
        rewritten(data, |c: JsonView| memory_patched(c, first), Ok(marked)),
        rewritten(marked@, |c: JsonView| memory_patched(c, second), after),
        rewritten(data, |c: JsonView| memory_patched(c, second), direct),
    ensures
        memory_patched(config, first) is Ok,
        json_parsed(marked@) == Some(memory_patched(config, first)->Ok_0),
        json_parsed(marked@) matches Some(document) && (member(document, "memory"@) matches Some(
            memory,
        ) && bool_in(member(memory, "shared"@)) == Some(first)),
        same_outcome(after, direct),
        first == second ==> (after matches Ok(again) && again@ == marked@),
{
    law_memory_is_marked(config, first, "memory"@);
    law_last_marking_counts(config, first, second);
    law_marking_fails_exactly(config, first);
    law_marking_fails_exactly(config, second);
}

} // verus!
