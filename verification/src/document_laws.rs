//! What holds of documents and of adapted configurations, in terms of what they
//! hold.

use vstd::prelude::*;

use crate::config_laws::{
    law_memory_is_marked, law_sockets_go_to_their_tags, lemma_names_differ, socket_for,
};
use crate::json::{
    bool_in, item_index, items_in, member, text_in, u64_in, with_member, JsonView,
};
use crate::snapshot_config::{
    fs_config_patched, fs_patched, memory_patched, net_entries, nets_have_ids, runtime_patched,
    vsock_patched, ConfigFault,
};

verus! {

/// Whether a document is an object that holds something under a key.
pub open spec fn has_key(v: JsonView, key: Seq<char>) -> bool {
    v is Object && v->Object_0.contains_key(key)
}

/// What an object holds under a key.
pub open spec fn at_key(v: JsonView, key: Seq<char>) -> JsonView {
    v->Object_0[key]
}

/// A member of an object is what the object holds under the key; nothing else
/// has members. Texts, truth values, lists and unsigned numbers are recognised as
/// such, and as nothing else.
pub proof fn law_parts_of_documents(v: JsonView, key: Seq<char>)
    ensures
        has_key(v, key) ==> member(v, key) == Some(at_key(v, key)),
        !has_key(v, key) ==> member(v, key) is None,
        text_in(Some(v)) == (match v {
            JsonView::Text(s) => Some(s),
            _ => None,
        }),
        bool_in(Some(v)) == (match v {
            JsonView::Bool(b) => Some(b),
            _ => None,
        }),
        items_in(Some(v)) == (match v {
            JsonView::Array(items) => Some(items),
            _ => None,
        }),
        v is Integer && 0 <= v->Integer_0 <= u64::MAX ==> u64_in(Some(v)) == Some(
            v->Integer_0 as u64,
        ),
        !(v is Integer && 0 <= v->Integer_0 <= u64::MAX) ==> u64_in(Some(v)) is None,
        text_in(None) is None,
        bool_in(None) is None,
        items_in(None) is None,
        u64_in(None) is None,
{
}

/// Setting a member of an object replaces what it holds under the key, and leaves
/// everything else.
pub proof fn law_members_are_set(
    v: JsonView,
    key: Seq<char>,
    value: JsonView,
    other: Seq<char>,
)
    requires
        v is Object,
    ensures
        has_key(with_member(v, key, value), key),
        at_key(with_member(v, key, value), key) == value,
        other != key ==> has_key(with_member(v, key, value), other) == has_key(v, other),
        other != key && has_key(v, other) ==> at_key(with_member(v, key, value), other) == at_key(
            v,
            other,
        ),
{
}

/// Whether an item is an object that holds a text under a key.
pub open spec fn has_text(item: JsonView, key: Seq<char>, text: Seq<char>) -> bool {
    has_key(item, key) && at_key(item, key) == JsonView::Text(text)
}

/// Whether an item is the first one that holds a text under a key.
pub open spec fn is_first_with(
    items: Seq<JsonView>,
    key: Seq<char>,
    text: Seq<char>,
    i: int,
) -> bool {
    0 <= i < items.len() && has_text(items[i], key, text) && forall|j: int|
        0 <= j < i ==> !has_text(#[trigger] items[j], key, text)
}

/// Whether some item holds a text under a key.
pub open spec fn some_has(items: Seq<JsonView>, key: Seq<char>, text: Seq<char>) -> bool {
    exists|j: int| 0 <= j < items.len() && has_text(#[trigger] items[j], key, text)
}

/// The item that is found is the first one that holds the text, and there is none
/// only if no item holds it.
pub proof fn law_first_item_is_found(
    items: Seq<JsonView>,
    key: Seq<char>,
    text: Seq<char>,
    i: int,
)
    ensures
        item_index(items, key, text, 0) == Some(i) <==> is_first_with(items, key, text, i),
        item_index(items, key, text, 0) is Some <==> some_has(items, key, text),
{
    lemma_item_from(items, key, text, 0, i);
}

/// The first item from a position on.
proof fn lemma_item_from(
    items: Seq<JsonView>,
    key: Seq<char>,
    text: Seq<char>,
    from: int,
    i: int,
)
    requires
        0 <= from,
    ensures
        item_index(items, key, text, from) == Some(i) <==> from <= i < items.len() && has_text(
            items[i],
            key,
            text,
        ) && forall|j: int| from <= j < i ==> !has_text(#[trigger] items[j], key, text),
        item_index(items, key, text, from) is None <==> forall|j: int|
            from <= j < items.len() ==> !has_text(#[trigger] items[j], key, text),
    decreases items.len() - from,
{
    if from < items.len() {
        lemma_item_from(items, key, text, from + 1, i);
        if has_text(items[from], key, text) {
            assert(from <= from < items.len());
        }
    }
}

/// A configuration without vsock device stays as it is, whether the path is known
/// or not; one with a vsock device needs the path.
pub proof fn law_vsock_device_needs_a_path(
    config: JsonView,
    path: Result<Seq<char>, Seq<char>>,
    why: Seq<char>,
)
    ensures
        !(has_key(config, "vsock"@) && at_key(config, "vsock"@) is Object) ==> vsock_patched(
            config,
            path,
        ) == Ok::<
            _,
            ConfigFault<Seq<char>>,
        >(config),
        has_key(config, "vsock"@) && at_key(config, "vsock"@) is Object ==> vsock_patched(
            config,
            Err(why),
        ) == Err::<JsonView, _>(ConfigFault::VsockPath(why)),
{
}

/// The first entry with the tag of a device gets the socket of the device, if no
/// later device has the same tag; entries that are the first with the tag of no
/// device stay as they are.
pub proof fn law_sockets_are_set_by_tag(
    entries: Seq<JsonView>,
    devices: Seq<(Seq<char>, Seq<char>)>,
    k: int,
    i: int,
    key: Seq<char>,
)
    requires
        0 <= i < entries.len(),
    ensures
        fs_patched(entries, devices, devices.len() as int) matches Ok(patched) ==> {
            &&& patched.len() == entries.len()
            &&& 0 <= k < devices.len() && is_first_with(entries, "tag"@, devices[k].0, i) && (
            forall|m: int|
                k < m < devices.len() ==> (#[trigger] devices[m]).0 != devices[k].0) ==> {
                &&& has_text(patched[i], "socket"@, devices[k].1)
                &&& key != "socket"@ ==> has_key(patched[i], key) == has_key(entries[i], key)
                &&& key != "socket"@ && has_key(entries[i], key) ==> at_key(patched[i], key)
                    == at_key(entries[i], key)
            }
            &&& (forall|m: int|
                0 <= m < devices.len() ==> !is_first_with(
                    entries,
                    "tag"@,
                    (#[trigger] devices[m]).0,
                    i,
                )) ==> patched[i] == entries[i]
        },
        fs_patched(entries, devices, devices.len() as int) is Ok <==> forall|m: int|
            0 <= m < devices.len() ==> some_has(entries, "tag"@, (#[trigger] devices[m]).0),
{
    let n = devices.len() as int;
    law_sockets_go_to_their_tags(entries, devices, n);
    assert forall|m: int| 0 <= m < n implies (item_index(entries, "tag"@, #[trigger] devices[m].0, 0)
        is Some <==> some_has(entries, "tag"@, devices[m].0)) by {
        law_first_item_is_found(entries, "tag"@, devices[m].0, 0);
    }
    if fs_patched(entries, devices, n) is Ok {
        assert forall|m: int| 0 <= m < n implies some_has(
            entries,
            "tag"@,
            (#[trigger] devices[m]).0,
        ) by {
            assert(item_index(entries, "tag"@, devices[m].0, 0) is Some);
        }
        if 0 <= k < n && is_first_with(entries, "tag"@, devices[k].0, i) && (forall|m: int|
            k < m < n ==> (#[trigger] devices[m]).0 != devices[k].0) {
            lemma_socket_of_last(entries, devices, n, k, i);
            assert(entries[i] is Object);
        }
        if forall|m: int|
            0 <= m < n ==> !is_first_with(entries, "tag"@, (#[trigger] devices[m]).0, i) {
            lemma_no_socket(entries, devices, n, i);
        }
    } else {
        let m = choose|m: int|
            0 <= m < n && item_index(entries, "tag"@, #[trigger] devices[m].0, 0) is None;
        assert(!some_has(entries, "tag"@, devices[m].0));
    }
}

/// The last device with a tag decides on the entry with that tag.
proof fn lemma_socket_of_last(
    entries: Seq<JsonView>,
    devices: Seq<(Seq<char>, Seq<char>)>,
    n: int,
    k: int,
    i: int,
)
    requires
        0 <= k < n <= devices.len(),
        is_first_with(entries, "tag"@, devices[k].0, i),
        forall|m: int| k < m < n ==> (#[trigger] devices[m]).0 != devices[k].0,
    ensures
        socket_for(entries, devices, n, i) == Some(devices[k].1),
    decreases n,
{
    law_first_item_is_found(entries, "tag"@, devices[n - 1].0, i);
    if k < n - 1 {
        assert(devices[n - 1].0 != devices[k].0);
        if is_first_with(entries, "tag"@, devices[n - 1].0, i) {
            assert(entries[i]->Object_0["tag"@] == JsonView::Text(devices[k].0));
        }
        lemma_socket_of_last(entries, devices, n - 1, k, i);
    }
}

/// An entry that is the first with the tag of no device gets no socket.
proof fn lemma_no_socket(
    entries: Seq<JsonView>,
    devices: Seq<(Seq<char>, Seq<char>)>,
    n: int,
    i: int,
)
    requires
        0 <= n <= devices.len(),
        forall|m: int|
            0 <= m < n ==> !is_first_with(entries, "tag"@, (#[trigger] devices[m]).0, i),
    ensures
        socket_for(entries, devices, n, i) is None,
    decreases n,
{
    if n > 0 {
        assert(!is_first_with(entries, "tag"@, devices[n - 1].0, i));
        law_first_item_is_found(entries, "tag"@, devices[n - 1].0, i);
        lemma_no_socket(entries, devices, n - 1, i);
    }
}

/// Without devices the file systems of a configuration stay as they are; with
/// devices it needs a list of them, and an entry for every tag. The first tag
/// without entry is reported.
pub proof fn law_devices_need_their_tags(
    config: JsonView,
    devices: Seq<(Seq<char>, Seq<char>)>,
    entries: Seq<JsonView>,
    k: int,
)
    ensures
        devices.len() == 0 ==> fs_config_patched(config, devices) == Ok::<
            _,
            ConfigFault<Seq<char>>,
        >(config),
        devices.len() > 0 && !(has_key(config, "fs"@) && at_key(config, "fs"@) is Array)
            ==> fs_config_patched(config, devices) == Err::<JsonView, _>(
            ConfigFault::<Seq<char>>::MissingFs,
        ),
        has_key(config, "fs"@) && at_key(config, "fs"@) == JsonView::Array(entries) && 0 <= k
            < devices.len() && !some_has(entries, "tag"@, devices[k].0) && (forall|m: int|
            0 <= m < k ==> some_has(entries, "tag"@, (#[trigger] devices[m]).0))
            ==> fs_config_patched(config, devices) == Err::<JsonView, _>(
            ConfigFault::MissingTag(devices[k].0),
        ),
{
    let n = devices.len() as int;
    if 0 <= k < n && !some_has(entries, "tag"@, devices[k].0) && (forall|m: int|
        0 <= m < k ==> some_has(entries, "tag"@, (#[trigger] devices[m]).0)) {
        assert forall|m: int| 0 <= m < k implies item_index(
            entries,
            "tag"@,
            #[trigger] devices[m].0,
            0,
        ) is Some by {
            assert(some_has(entries, "tag"@, devices[m].0));
            law_first_item_is_found(entries, "tag"@, devices[m].0, 0);
        }
        law_first_item_is_found(entries, "tag"@, devices[k].0, 0);
        law_sockets_go_to_their_tags(entries, devices, k);
        let patched = fs_patched(entries, devices, k)->Ok_0;
        crate::json::lemma_same_index(patched, entries, "tag"@, devices[k].0, 0);
        lemma_fault_stays(entries, devices, k + 1, n);
    }
}

/// A tag without entry stays a fault, whatever follows.
proof fn lemma_fault_stays(
    entries: Seq<JsonView>,
    devices: Seq<(Seq<char>, Seq<char>)>,
    n: int,
    m: int,
)
    requires
        n <= m,
        fs_patched(entries, devices, n) is Err,
    ensures
        fs_patched(entries, devices, m) == fs_patched(entries, devices, n),
    decreases m - n,
{
    if n < m {
        lemma_fault_stays(entries, devices, n, m - 1);
    }
}

/// The items of the list `net` of a document, if it has one.
pub open spec fn listed_nets(config: JsonView) -> Seq<JsonView> {
    if has_key(config, "net"@) && at_key(config, "net"@) is Array {
        at_key(config, "net"@)->Array_0
    } else {
        Seq::empty()
    }
}

/// Runtime paths are adapted exactly if the vsock device, the file systems and
/// the networks allow it: what the vsock device and the file systems come to
/// stands in the document, and there are as many networks as prepared, each with
/// an id. Where their number differs, both numbers are reported.
pub proof fn law_runtime_paths_are_adapted(
    config: JsonView,
    vsock_path: Result<Seq<char>, Seq<char>>,
    devices: Seq<(Seq<char>, Seq<char>)>,
    fds: Seq<usize>,
    k: int,
)
    ensures
        ({
            let r = runtime_patched(config, vsock_path, devices, fds);
            let nets = listed_nets(config);
            &&& net_entries(config) == nets
            &&& vsock_patched(config, vsock_path) matches Err(fault) ==> r == Err::<
                (JsonView, Seq<(Seq<char>, usize)>),
                _,
            >(fault)
            &&& vsock_patched(config, vsock_path) matches Ok(first) ==> {
                &&& fs_config_patched(first, devices) matches Err(fault) ==> r == Err::<
                    (JsonView, Seq<(Seq<char>, usize)>),
                    _,
                >(fault)
                &&& fs_config_patched(first, devices) matches Ok(second) ==> {
                    &&& nets.len() != fds.len() ==> r == Err::<
                        (JsonView, Seq<(Seq<char>, usize)>),
                        _,
                    >(
                        ConfigFault::<Seq<char>>::NetworkCount {
                            snapshot: nets.len() as usize,
                            prepared: fds.len() as usize,
                        },
                    )
                    &&& nets.len() == fds.len() && 0 <= k < nets.len() && !(has_key(nets[k], "id"@)
                        && at_key(nets[k], "id"@) is Text) ==> r == Err::<
                        (JsonView, Seq<(Seq<char>, usize)>),
                        _,
                    >(ConfigFault::<Seq<char>>::MissingNetId)
                    &&& nets.len() == fds.len() && (forall|i: int|
                        0 <= i < nets.len() ==> has_key(#[trigger] nets[i], "id"@) && at_key(
                            nets[i],
                            "id"@,
                        ) is Text) ==> (r matches Ok((
                        patched,
                        restored,
                    )) && patched == second && restored.len() == nets.len() && (0 <= k < nets.len()
                        ==> JsonView::Text(restored[k].0) == at_key(nets[k], "id"@)
                        && restored[k].1 == fds[k]))
                }
            }
        }),
{
    lemma_names_differ();
    if let Ok(first) = vsock_patched(config, vsock_path) {
        if let Ok(second) = fs_config_patched(first, devices) {
            let nets = listed_nets(config);
            assert(member(second, "net"@) == member(config, "net"@));
            assert(net_entries(second) == nets);
            assert forall|i: int| 0 <= i < nets.len() implies (text_in(
                member(#[trigger] nets[i], "id"@),
            ) is Some <==> has_key(nets[i], "id"@) && at_key(nets[i], "id"@) is Text) by {}
            if nets.len() == fds.len() && 0 <= k < nets.len() && !(has_key(nets[k], "id"@)
                && at_key(nets[k], "id"@) is Text) {
                assert(!nets_have_ids(nets));
            }
        }
    }
}

/// Marking the memory keeps the number of its zones, and everything in them but
/// the mark.
pub proof fn law_zones_keep_what_they_hold(
    config: JsonView,
    shared: bool,
    i: int,
    key: Seq<char>,
)
    ensures
        memory_patched(config, shared) matches Ok(patched) ==> {
            let before = items_in(member(member(config, "memory"@)->0, "zones"@))->0;
            let after = items_in(member(member(patched, "memory"@)->0, "zones"@))->0;
            &&& after.len() == before.len()
            &&& 0 <= i < before.len() ==> {
                &&& bool_in(member(after[i], "shared"@)) == Some(shared)
                &&& key != "shared"@ ==> member(after[i], key) == member(before[i], key)
            }
        },
{
    lemma_names_differ();
    law_memory_is_marked(config, shared, key);
}

/// Memory that cannot be marked is reported with what is missing: the memory, its
/// zones, or a zone that is one.
pub proof fn law_unmarked_memory_says_why(config: JsonView, shared: bool)
    ensures
        ({
            let r = memory_patched(config, shared);
            let memory = member(config, "memory"@);
            let has_memory = memory matches Some(m) && m is Object;
            let zones = items_in(member(memory->0, "zones"@));
            &&& !has_memory ==> r == Err::<JsonView, _>(ConfigFault::<Seq<char>>::MissingMemory)
            &&& has_memory && zones is None ==> r == Err::<JsonView, _>(
                ConfigFault::<Seq<char>>::MissingZones,
            )
            &&& has_memory && zones is Some && !(forall|i: int|
                0 <= i < zones->0.len() ==> (#[trigger] zones->0[i]) is Object) ==> r == Err::<
                JsonView,
                _,
            >(ConfigFault::<Seq<char>>::InvalidZone)
            &&& has_memory && zones is Some && (forall|i: int|
                0 <= i < zones->0.len() ==> (#[trigger] zones->0[i]) is Object) ==> r is Ok
        }),
{
    lemma_names_differ();
}

} // verus!
