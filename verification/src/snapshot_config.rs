//! The configuration document of a VM snapshot, and what a restore changes in it.

use vstd::prelude::*;

use crate::hypervisor::CloudHypervisorInner;
use crate::json::{
    array_view, depth_limit, find_item, integral, item_index, items_in, items_storable, json_bytes,
    json_parsed, json_read, json_written, lemma_array_levels, lemma_item_index, lemma_item_levels,
    lemma_member_levels, lemma_same_member, lemma_with_member_levels, levels_within, member,
    member_text, parse_json, reads_back, text_in, with_member, write_json, Json, JsonError,
    JsonView,
};
use crate::text::{concat2, decimal, decimal_text};

verus! {

/// A shared file system of the restored sandbox: its tag and the socket of the
/// daemon that serves it.
#[derive(Debug)]
pub struct FsConfig {
    pub tag: String,
    pub socket: String,
}

/// A network device of the snapshot, and how many file descriptors are handed
/// over for it.
#[derive(Debug, PartialEq, Eq)]
pub struct RestoredNetConfig {
    pub id: String,
    pub num_fds: usize,
}

/// Why a configuration document cannot be adapted.
#[derive(Debug, PartialEq, Eq)]
pub enum ConfigFault<S> {
    VsockPath(S),
    MissingFs,
    MissingTag(S),
    NetworkCount { snapshot: usize, prepared: usize },
    MissingNetId,
    MissingMemory,
    MissingZones,
    InvalidZone,
}

impl View for ConfigFault<String> {
    type V = ConfigFault<Seq<char>>;

    open spec fn view(&self) -> ConfigFault<Seq<char>> {
        match self {
            ConfigFault::VsockPath(s) => ConfigFault::VsockPath(s@),
            ConfigFault::MissingFs => ConfigFault::MissingFs,
            ConfigFault::MissingTag(s) => ConfigFault::MissingTag(s@),
            ConfigFault::NetworkCount { snapshot, prepared } => ConfigFault::NetworkCount {
                snapshot: *snapshot,
                prepared: *prepared,
            },
            ConfigFault::MissingNetId => ConfigFault::MissingNetId,
            ConfigFault::MissingMemory => ConfigFault::MissingMemory,
            ConfigFault::MissingZones => ConfigFault::MissingZones,
            ConfigFault::InvalidZone => ConfigFault::InvalidZone,
        }
    }
}

/// The message of a fault.
pub open spec fn fault_text(fault: ConfigFault<Seq<char>>) -> Seq<char> {
    match fault {
        ConfigFault::VsockPath(detail) => detail,
        ConfigFault::MissingFs => "checkpoint config missing virtio-fs devices"@,
        ConfigFault::MissingTag(tag) => "checkpoint config missing virtio-fs tag "@ + tag,
        ConfigFault::NetworkCount { snapshot, prepared } => "checkpoint has "@ + decimal(
            snapshot as nat,
        ) + " network devices but restore prepared "@ + decimal(prepared as nat),
        ConfigFault::MissingNetId => "checkpoint network device is missing an id"@,
        ConfigFault::MissingMemory => "snapshot config missing memory section"@,
        ConfigFault::MissingZones => "snapshot config missing memory zones"@,
        ConfigFault::InvalidZone => "snapshot config has invalid memory zone"@,
    }
}

impl ConfigFault<String> {
    /// The message of the fault.
    pub fn message(&self) -> (r: String)
        ensures
            r@ == fault_text(self@),
    {
        match self {
            ConfigFault::VsockPath(detail) => detail.clone(),
            ConfigFault::MissingFs => "checkpoint config missing virtio-fs devices".to_owned(),
            ConfigFault::MissingTag(tag) => concat2(
                "checkpoint config missing virtio-fs tag ",
                tag.as_str(),
            ),
            ConfigFault::NetworkCount { snapshot, prepared } => {
                let mut r = concat2("checkpoint has ", decimal_text(*snapshot as u64).as_str());
                r.append(" network devices but restore prepared ");
                r.append(decimal_text(*prepared as u64).as_str());
                r
            },
            ConfigFault::MissingNetId => "checkpoint network device is missing an id".to_owned(),
            ConfigFault::MissingMemory => "snapshot config missing memory section".to_owned(),
            ConfigFault::MissingZones => "snapshot config missing memory zones".to_owned(),
            ConfigFault::InvalidZone => "snapshot config has invalid memory zone".to_owned(),
        }
    }
}

/// The view of a path that may not be known.
pub open spec fn result_text(r: Result<String, String>) -> Result<Seq<char>, Seq<char>> {
    match r {
        Ok(s) => Ok(s@),
        Err(s) => Err(s@),
    }
}

/// The tags and sockets of file systems.
pub open spec fn fs_views(devices: Seq<FsConfig>) -> Seq<(Seq<char>, Seq<char>)> {
    devices.map_values(|d: FsConfig| (d.tag@, d.socket@))
}

/// The ids and descriptor counts of network devices.
pub open spec fn net_views(nets: Seq<RestoredNetConfig>) -> Seq<(Seq<char>, usize)> {
    nets.map_values(|n: RestoredNetConfig| (n.id@, n.num_fds))
}

/// A configuration with the socket of its vsock device replaced. One without
/// vsock device stays as it is, whether the new path is known or not.
pub open spec fn vsock_patched(
    config: JsonView,
    path: Result<Seq<char>, Seq<char>>,
) -> Result<JsonView, ConfigFault<Seq<char>>> {
    match member(config, "vsock"@) {
        Some(JsonView::Object(vsock)) => match path {
            Ok(p) => Ok(
                with_member(
                    config,
                    "vsock"@,
                    with_member(JsonView::Object(vsock), "socket"@, JsonView::Text(p)),
                ),
            ),
            Err(detail) => Err(ConfigFault::VsockPath(detail)),
        },
        _ => Ok(config),
    }
}

/// File system entries with the sockets of the first `n` devices replaced, one
/// device after the other, each in the first entry that has its tag.
pub open spec fn fs_patched(
    entries: Seq<JsonView>,
    devices: Seq<(Seq<char>, Seq<char>)>,
    n: int,
) -> Result<Seq<JsonView>, ConfigFault<Seq<char>>>
    decreases n,
{
    if n <= 0 {
        Ok(entries)
    } else {
        match fs_patched(entries, devices, n - 1) {
            Err(fault) => Err(fault),
            Ok(patched) => match item_index(patched, "tag"@, devices[n - 1].0, 0) {
                None => Err(ConfigFault::MissingTag(devices[n - 1].0)),
                Some(i) => Ok(
                    patched.update(
                        i,
                        with_member(patched[i], "socket"@, JsonView::Text(devices[n - 1].1)),
                    ),
                ),
            },
        }
    }
}

/// A configuration with the sockets of all devices replaced.
pub open spec fn fs_config_patched(
    config: JsonView,
    devices: Seq<(Seq<char>, Seq<char>)>,
) -> Result<JsonView, ConfigFault<Seq<char>>> {
    if devices.len() == 0 {
        Ok(config)
    } else {
        match items_in(member(config, "fs"@)) {
            None => Err(ConfigFault::MissingFs),
            Some(entries) => match fs_patched(entries, devices, devices.len() as int) {
                Err(fault) => Err(fault),
                Ok(patched) => Ok(with_member(config, "fs"@, JsonView::Array(patched))),
            },
        }
    }
}

/// The network devices of a configuration.
pub open spec fn net_entries(config: JsonView) -> Seq<JsonView> {
    match items_in(member(config, "net"@)) {
        Some(nets) => nets,
        None => Seq::empty(),
    }
}

/// Whether every network device has an id.
pub open spec fn nets_have_ids(nets: Seq<JsonView>) -> bool {
    forall|i: int| 0 <= i < nets.len() ==> text_in(member(#[trigger] nets[i], "id"@)) is Some
}

/// The ids of network devices, each with its descriptor count.
pub open spec fn nets_with_fds(nets: Seq<JsonView>, fds: Seq<usize>) -> Seq<(Seq<char>, usize)> {
    Seq::new(nets.len(), |i: int| (text_in(member(nets[i], "id"@))->0, fds[i]))
}

/// What the runtime paths of a configuration become: the vsock socket, the
/// sockets of the shared file systems, and the list of network devices with
/// their descriptor counts, of which there must be as many as devices.
pub open spec fn runtime_patched(
    config: JsonView,
    vsock_path: Result<Seq<char>, Seq<char>>,
    devices: Seq<(Seq<char>, Seq<char>)>,
    fds: Seq<usize>,
) -> Result<(JsonView, Seq<(Seq<char>, usize)>), ConfigFault<Seq<char>>> {
    match vsock_patched(config, vsock_path) {
        Err(fault) => Err(fault),
        Ok(with_vsock) => match fs_config_patched(with_vsock, devices) {
            Err(fault) => Err(fault),
            Ok(patched) => {
                let nets = net_entries(patched);
                if nets.len() != fds.len() {
                    Err(
                        ConfigFault::NetworkCount {
                            snapshot: nets.len() as usize,
                            prepared: fds.len() as usize,
                        },
                    )
                } else if !nets_have_ids(nets) {
                    Err(ConfigFault::MissingNetId)
                } else {
                    Ok((patched, nets_with_fds(nets, fds)))
                }
            },
        },
    }
}

/// A configuration whose memory, and each zone of it, is shared or private as
/// given.
pub open spec fn memory_patched(config: JsonView, shared: bool) -> Result<
    JsonView,
    ConfigFault<Seq<char>>,
> {
    match member(config, "memory"@) {
        Some(JsonView::Object(memory)) => {
            let marked = with_member(JsonView::Object(memory), "shared"@, JsonView::Bool(shared));
            match items_in(member(marked, "zones"@)) {
                None => Err(ConfigFault::MissingZones),
                Some(zones) => if forall|i: int|
                    0 <= i < zones.len() ==> (#[trigger] zones[i]) is Object {
                    Ok(
                        with_member(
                            config,
                            "memory"@,
                            with_member(
                                marked,
                                "zones"@,
                                JsonView::Array(zones_marked(zones, shared)),
                            ),
                        ),
                    )
                } else {
                    Err(ConfigFault::InvalidZone)
                },
            }
        },
        _ => Err(ConfigFault::MissingMemory),
    }
}

/// Memory zones that are shared or private as given.
pub open spec fn zones_marked(zones: Seq<JsonView>, shared: bool) -> Seq<JsonView> {
    zones.map_values(|z: JsonView| with_member(z, "shared"@, JsonView::Bool(shared)))
}

/// Replaces the socket of the vsock device.
pub fn patch_vsock(config: Json, path: &Result<String, String>) -> (r: Result<
    Json,
    ConfigFault<String>,
>)
    ensures
        match r {
            Ok(j) => vsock_patched(config@, result_text(*path)) == Ok::<_, ConfigFault<Seq<char>>>(
                j@,
            ) && (config.storable() ==> j.storable()),
            Err(e) => vsock_patched(config@, result_text(*path)) == Err::<JsonView, _>(e@),
        },
{
    let mut config = config;
    proof {
        if member(config@, "vsock"@) is Some {
            lemma_same_member(config@, "vsock"@);
        }
    }
    if let Some(vsock) = config.get_mut("vsock") {
        if vsock.is_object() {
            match path {
                Ok(p) => {
                    vsock.insert("socket", Json::Text(p.clone()));
                },
                Err(detail) => {
                    return Err(ConfigFault::VsockPath(detail.clone()));
                },
            }
        }
    }
    Ok(config)
}

/// Replaces the sockets of file system entries.
fn patch_fs_entries(entries: &mut Vec<Json>, devices: &[FsConfig]) -> (r: Result<
    (),
    ConfigFault<String>,
>)
    ensures
        match r {
            Ok(_) => fs_patched(
                array_view(old(entries)@),
                fs_views(devices@),
                devices@.len() as int,
            ) == Ok::<_, ConfigFault<Seq<char>>>(array_view(final(entries)@)) && (items_storable(
                old(entries)@,
            ) ==> items_storable(final(entries)@)),
            Err(e) => fs_patched(
                array_view(old(entries)@),
                fs_views(devices@),
                devices@.len() as int,
            ) == Err::<Seq<JsonView>, _>(e@),
        },
{
    let ghost start = array_view(entries@);
    let ghost storable = items_storable(entries@);
    let ghost views = fs_views(devices@);
    let mut n: usize = 0;
    while n < devices.len()
        invariant
            n <= devices@.len(),
            start == array_view(old(entries)@),
            storable == items_storable(old(entries)@),
            views == fs_views(devices@),
            fs_patched(start, views, n as int) == Ok::<_, ConfigFault<Seq<char>>>(
                array_view(entries@),
            ),
            storable ==> items_storable(entries@),
        decreases devices@.len() - n,
    {
        let device = &devices[n];
        assert(views[n as int] == (device.tag@, device.socket@));
        let ghost before = entries@;
        match find_item(entries, "tag", device.tag.as_str()) {
            None => {
                let fault = ConfigFault::MissingTag(device.tag.clone());
                proof {
                    lemma_fs_fault_stays(start, views, n + 1, devices@.len() as int);
                }
                return Err(fault);
            },
            Some(i) => {
                let entry = &mut entries[i];
                entry.insert("socket", Json::Text(device.socket.clone()));
                proof {
                    assert(array_view(entries@) =~= array_view(before).update(
                        i as int,
                        entries@[i as int]@,
                    ));
                    assert forall|k: int| 0 <= k < entries@.len() && storable implies (
                    #[trigger] entries@[k]).storable() by {
                        assert(before[k].storable());
                    }
                }
            },
        }
        n = n + 1;
    }
    Ok(())
}

/// A fault of one device is the fault of all that follow it.
proof fn lemma_fs_fault_stays(
    entries: Seq<JsonView>,
    devices: Seq<(Seq<char>, Seq<char>)>,
    n: int,
    m: int,
)
    requires
        fs_patched(entries, devices, n) is Err,
        n <= m,
    ensures
        fs_patched(entries, devices, m) == fs_patched(entries, devices, n),
    decreases m - n,
{
    if n < m {
        lemma_fs_fault_stays(entries, devices, n, m - 1);
    }
}

/// Replaces the sockets of the shared file systems.
pub fn patch_fs(config: Json, devices: &[FsConfig]) -> (r: Result<Json, ConfigFault<String>>)
    ensures
        match r {
            Ok(j) => fs_config_patched(config@, fs_views(devices@)) == Ok::<
                _,
                ConfigFault<Seq<char>>,
            >(j@) && (config.storable() ==> j.storable()),
            Err(e) => fs_config_patched(config@, fs_views(devices@)) == Err::<JsonView, _>(e@),
        },
{
    assert(fs_views(devices@).len() == devices@.len());
    if devices.len() == 0 {
        return Ok(config);
    }
    let mut config = config;
    match config.get_mut("fs") {
        None => {
            return Err(ConfigFault::MissingFs);
        },
        Some(fs) => match fs.as_array_mut() {
            None => {
                return Err(ConfigFault::MissingFs);
            },
            Some(entries) => match patch_fs_entries(entries, devices) {
                Ok(_) => {},
                Err(fault) => {
                    return Err(fault);
                },
            },
        },
    }
    Ok(config)
}

/// Lists the network devices with their descriptor counts.
pub fn restored_nets(config: &Json, fds: &[usize]) -> (r: Result<
    Vec<RestoredNetConfig>,
    ConfigFault<String>,
>)
    ensures
        match r {
            Ok(nets) => net_entries(config@).len() == fds@.len() && nets_have_ids(
                net_entries(config@),
            ) && net_views(nets@) == nets_with_fds(net_entries(config@), fds@),
            Err(ConfigFault::NetworkCount { snapshot, prepared }) => snapshot
                == net_entries(config@).len() && prepared == fds@.len() && snapshot != prepared,
            Err(e) => e is MissingNetId && net_entries(config@).len() == fds@.len()
                && !nets_have_ids(net_entries(config@)),
        },
{
    let ghost nets = net_entries(config@);
    let mut out: Vec<RestoredNetConfig> = Vec::new();
    let entries: Option<&Vec<Json>> = match config.get("net") {
        Some(value) => value.as_array(),
        None => None,
    };
    match entries {
        None => {
            if fds.len() != 0 {
                return Err(ConfigFault::NetworkCount { snapshot: 0, prepared: fds.len() });
            }
        },
        Some(entries) => {
            assert(nets == array_view(entries@));
            if entries.len() != fds.len() {
                return Err(
                    ConfigFault::NetworkCount { snapshot: entries.len(), prepared: fds.len() },
                );
            }
            let mut i: usize = 0;
            while i < entries.len()
                invariant
                    i <= entries@.len() == fds@.len(),
                    nets == array_view(entries@),
                    nets == net_entries(config@),
                    out@.len() == i,
                    forall|k: int|
                        0 <= k < i ==> text_in(member(#[trigger] nets[k], "id"@)) == Some(
                            out@[k].id@,
                        ) && out@[k].num_fds == fds@[k],
                decreases entries@.len() - i,
            {
                assert(nets[i as int] == entries@[i as int]@);
                match member_text(&entries[i], "id") {
                    None => {
                        return Err(ConfigFault::MissingNetId);
                    },
                    Some(id) => {
                        out.push(RestoredNetConfig { id: id.to_owned(), num_fds: fds[i] });
                    },
                }
                i = i + 1;
            }
        },
    }
    assert(net_views(out@) =~= nets_with_fds(nets, fds@));
    Ok(out)
}

/// Adapts the runtime paths of a configuration.
pub fn patch_runtime_paths(
    config: Json,
    vsock_path: &Result<String, String>,
    fs_devices: &[FsConfig],
    net_fd_counts: &[usize],
) -> (r: Result<(Json, Vec<RestoredNetConfig>), ConfigFault<String>>)
    ensures
        match r {
            Ok((j, nets)) => runtime_patched(
                config@,
                result_text(*vsock_path),
                fs_views(fs_devices@),
                net_fd_counts@,
            ) == Ok::<_, ConfigFault<Seq<char>>>((j@, net_views(nets@))) && (config.storable()
                ==> j.storable()),
            Err(e) => runtime_patched(
                config@,
                result_text(*vsock_path),
                fs_views(fs_devices@),
                net_fd_counts@,
            ) == Err::<(JsonView, Seq<(Seq<char>, usize)>), _>(e@),
        },
{
    let with_vsock = match patch_vsock(config, vsock_path) {
        Ok(j) => j,
        Err(fault) => {
            return Err(fault);
        },
    };
    let patched = match patch_fs(with_vsock, fs_devices) {
        Ok(j) => j,
        Err(fault) => {
            return Err(fault);
        },
    };
    match restored_nets(&patched, net_fd_counts) {
        Ok(nets) => Ok((patched, nets)),
        Err(fault) => Err(fault),
    }
}

/// Marks memory zones as shared or private.
fn mark_zones(zones: &mut Vec<Json>, shared: bool) -> (r: bool)
    ensures
        r == (forall|i: int|
            0 <= i < array_view(old(zones)@).len() ==> (#[trigger] array_view(
                old(zones)@,
            )[i]) is Object),
        r ==> array_view(final(zones)@) == zones_marked(array_view(old(zones)@), shared),
        items_storable(old(zones)@) ==> items_storable(final(zones)@),
{
    let ghost before = zones@;
    let ghost views = array_view(zones@);
    let ghost marked = zones_marked(views, shared);
    let mut i: usize = 0;
    while i < zones.len()
        invariant
            i <= zones@.len() == before.len(),
            before == old(zones)@,
            views == array_view(before),
            marked == zones_marked(views, shared),
            forall|k: int| 0 <= k < i ==> (#[trigger] views[k]) is Object,
            forall|k: int| 0 <= k < i ==> (#[trigger] zones@[k])@ == marked[k],
            forall|k: int| i <= k < zones@.len() ==> #[trigger] zones@[k] == before[k],
            items_storable(before) ==> items_storable(zones@),
        decreases zones@.len() - i,
    {
        assert(views[i as int] == zones@[i as int]@);
        if !zones[i].is_object() {
            return false;
        }
        let ghost prior = zones@;
        let zone = &mut zones[i];
        zone.insert("shared", Json::Bool(shared));
        proof {
            assert forall|k: int|
                0 <= k < zones@.len() && items_storable(before) implies (
            #[trigger] zones@[k]).storable() by {
                assert(prior[k].storable());
            }
        }
        i = i + 1;
    }
    assert(array_view(zones@) =~= marked);
    true
}

/// Marks the memory of a configuration, and each zone of it, as shared or
/// private.
pub fn patch_memory_shared(config: Json, shared: bool) -> (r: Result<Json, ConfigFault<String>>)
    ensures
        match r {
            Ok(j) => memory_patched(config@, shared) == Ok::<_, ConfigFault<Seq<char>>>(j@) && (
            config.storable() ==> j.storable()),
            Err(e) => memory_patched(config@, shared) == Err::<JsonView, _>(e@),
        },
{
    let mut config = config;
    match config.get_mut("memory") {
        None => {
            return Err(ConfigFault::MissingMemory);
        },
        Some(memory) => {
            if !memory.is_object() {
                return Err(ConfigFault::MissingMemory);
            }
            memory.insert("shared", Json::Bool(shared));
            match memory.get_mut("zones") {
                None => {
                    return Err(ConfigFault::MissingZones);
                },
                Some(zones) => match zones.as_array_mut() {
                    None => {
                        return Err(ConfigFault::MissingZones);
                    },
                    Some(items) => {
                        if !mark_zones(items, shared) {
                            return Err(ConfigFault::InvalidZone);
                        }
                    },
                },
            }
        },
    }
    Ok(config)
}

/// Why a configuration file cannot be adapted.
#[derive(Debug)]
pub enum ConfigError {
    /// The file is no document.
    Unreadable(JsonError),
    /// The document does not allow it.
    Fault(ConfigFault<String>),
    /// The adapted document cannot be written.
    Unwritable(JsonError),
}

/// What adapting a configuration file comes to: the file is read, the document
/// is adapted, and the outcome is written. A document without numbers that have
/// a fraction or an exponent reads back as what was to be written.
pub open spec fn rewritten(
    data: Seq<u8>,
    patched: spec_fn(JsonView) -> Result<JsonView, ConfigFault<Seq<char>>>,
    r: Result<Vec<u8>, ConfigError>,
) -> bool {
    match json_read(data) {
        Err(text) => r matches Err(ConfigError::Unreadable(e)) && e.detail@ == text,
        Ok(config) => match patched(config) {
            Err(fault) => r matches Err(ConfigError::Fault(f)) && f@ == fault,
            Ok(wanted) => match json_written(wanted) {
                Err(text) => r matches Err(ConfigError::Unwritable(e)) && e.detail@ == text,
                Ok(bytes) => r matches Ok(out) && out@ == bytes && (integral(
                    config,
                    depth_limit(),
                ) ==> json_parsed(bytes) == Some(wanted)),
            },
        },
    }
}

/// Adapting the vsock socket keeps a document readable.
proof fn lemma_vsock_reads_back(config: JsonView, path: Result<Seq<char>, Seq<char>>)
    requires
        reads_back(config),
    ensures
        vsock_patched(config, path) matches Ok(patched) ==> reads_back(patched),
{
    let d = depth_limit();
    if let Some(JsonView::Object(vsock)) = member(config, "vsock"@) {
        if let Ok(p) = path {
            let socket = JsonView::Text(p);
            lemma_member_levels(config, "vsock"@, d);
            lemma_with_member_levels(JsonView::Object(vsock), "socket"@, socket, (d - 1) as nat);
            lemma_with_member_levels(
                config,
                "vsock"@,
                with_member(JsonView::Object(vsock), "socket"@, socket),
                d,
            );
        }
    }
}

/// Adapting file system entries keeps them readable.
proof fn lemma_fs_reads_back(
    entries: Seq<JsonView>,
    devices: Seq<(Seq<char>, Seq<char>)>,
    n: int,
    depth: nat,
)
    requires
        0 <= n <= devices.len(),
        levels_within(JsonView::Array(entries), depth),
        integral(JsonView::Array(entries), depth),
    ensures
        fs_patched(entries, devices, n) matches Ok(patched) ==> levels_within(
            JsonView::Array(patched),
            depth,
        ) && integral(JsonView::Array(patched), depth),
    decreases n,
{
    if n > 0 {
        lemma_fs_reads_back(entries, devices, n - 1, depth);
        if let Ok(patched) = fs_patched(entries, devices, n - 1) {
            lemma_item_index(patched, "tag"@, devices[n - 1].0, 0);
            if let Some(i) = item_index(patched, "tag"@, devices[n - 1].0, 0) {
                let below = (depth - 1) as nat;
                let socket = JsonView::Text(devices[n - 1].1);
                lemma_item_levels(patched, i, depth);
                lemma_with_member_levels(patched[i], "socket"@, socket, below);
                lemma_array_levels(patched, i, with_member(patched[i], "socket"@, socket), depth);
            }
        }
    }
}

/// Adapting the runtime paths keeps a document readable.
proof fn lemma_runtime_reads_back(
    config: JsonView,
    vsock_path: Result<Seq<char>, Seq<char>>,
    devices: Seq<(Seq<char>, Seq<char>)>,
    fds: Seq<usize>,
)
    requires
        reads_back(config),
    ensures
        runtime_patched(config, vsock_path, devices, fds) matches Ok(done) ==> reads_back(done.0),
{
    let d = depth_limit();
    lemma_vsock_reads_back(config, vsock_path);
    if let Ok(with_vsock) = vsock_patched(config, vsock_path) {
        if let Some(entries) = items_in(member(with_vsock, "fs"@)) {
            lemma_member_levels(with_vsock, "fs"@, d);
            let below = (d - 1) as nat;
            lemma_fs_reads_back(entries, devices, devices.len() as int, below);
            if let Ok(patched) = fs_patched(entries, devices, devices.len() as int) {
                lemma_with_member_levels(with_vsock, "fs"@, JsonView::Array(patched), d);
            }
        }
    }
}

/// Marking the memory keeps a document readable.
proof fn lemma_memory_reads_back(config: JsonView, shared: bool)
    requires
        reads_back(config),
    ensures
        memory_patched(config, shared) matches Ok(patched) ==> reads_back(patched),
{
    let d = depth_limit();
    let flag = JsonView::Bool(shared);
    if let Some(JsonView::Object(memory)) = member(config, "memory"@) {
        let m = JsonView::Object(memory);
        let below = (d - 1) as nat;
        lemma_member_levels(config, "memory"@, d);
        lemma_with_member_levels(m, "shared"@, flag, below);
        let marked = with_member(m, "shared"@, flag);
        if let Some(zones) = items_in(member(marked, "zones"@)) {
            if forall|i: int| 0 <= i < zones.len() ==> (#[trigger] zones[i]) is Object {
                let lower = (below - 1) as nat;
                lemma_member_levels(marked, "zones"@, below);
                let all = zones_marked(zones, shared);
                assert forall|i: int| 0 <= i < all.len() implies levels_within(
                    #[trigger] all[i],
                    (lower - 1) as nat,
                ) && integral(all[i], (lower - 1) as nat) by {
                    lemma_item_levels(zones, i, lower);
                    lemma_with_member_levels(zones[i], "shared"@, flag, (lower - 1) as nat);
                }
                lemma_with_member_levels(marked, "zones"@, JsonView::Array(all), below);
                lemma_with_member_levels(
                    config,
                    "memory"@,
                    with_member(marked, "zones"@, JsonView::Array(all)),
                    d,
                );
            }
        }
    }
}

/// Writes an adapted document.
fn finish_config(config: Json) -> (r: Result<Vec<u8>, ConfigError>)
    requires
        config.storable(),
    ensures
        match r {
            Ok(out) => json_bytes(config@) == Some(out@) && (reads_back(config@) ==> json_parsed(
                out@,
            ) == Some(config@)),
            Err(e) => e matches ConfigError::Unwritable(u) && json_written(config@) == Err::<
                Seq<u8>,
                _,
            >(u.detail@),
        },
{
    match write_json(config) {
        Ok(out) => Ok(out),
        Err(e) => Err(ConfigError::Unwritable(e)),
    }
}

impl CloudHypervisorInner {
    /// The configuration file with the socket of its vsock device replaced.
    pub fn update_vsock_socket_path(data: &[u8], vsock_path: &Result<String, String>) -> (r: Result<
        Vec<u8>,
        ConfigError,
    >)
        ensures
            rewritten(
                data@,
                |config: JsonView| vsock_patched(config, result_text(*vsock_path)),
                r,
            ),
    {
        let config = match parse_json(data) {
            Ok(config) => config,
            Err(e) => {
                return Err(ConfigError::Unreadable(e));
            },
        };
        let ghost before = config@;
        proof {
            if integral(before, depth_limit()) {
                lemma_vsock_reads_back(before, result_text(*vsock_path));
            }
        }
        match patch_vsock(config, vsock_path) {
            Ok(patched) => finish_config(patched),
            Err(fault) => Err(ConfigError::Fault(fault)),
        }
    }

    /// The configuration file with its runtime paths replaced, and its network
    /// devices with the number of descriptors handed over for each.
    pub fn patch_checkpoint_runtime_paths(
        data: &[u8],
        vsock_path: &Result<String, String>,
        fs_devices: &[FsConfig],
        net_fd_counts: &[usize],
    ) -> (r: Result<(Vec<u8>, Vec<RestoredNetConfig>), ConfigError>)
        ensures
            match json_read(data@) {
                Err(text) => r matches Err(ConfigError::Unreadable(e)) && e.detail@ == text,
                Ok(config) => match runtime_patched(
                    config,
                    result_text(*vsock_path),
                    fs_views(fs_devices@),
                    net_fd_counts@,
                ) {
                    Err(fault) => r matches Err(ConfigError::Fault(f)) && f@ == fault,
                    Ok((wanted, nets)) => match json_written(wanted) {
                        Err(text) => r matches Err(ConfigError::Unwritable(e)) && e.detail@ == text,
                        Ok(bytes) => r matches Ok((out, restored)) && out@ == bytes && net_views(
                            restored@,
                        ) == nets && (integral(config, depth_limit()) ==> json_parsed(bytes)
                            == Some(wanted)),
                    },
                },
            },
    {
        let config = match parse_json(data) {
            Ok(config) => config,
            Err(e) => {
                return Err(ConfigError::Unreadable(e));
            },
        };
        let ghost before = config@;
        proof {
            if integral(before, depth_limit()) {
                lemma_runtime_reads_back(
                    before,
                    result_text(*vsock_path),
                    fs_views(fs_devices@),
                    net_fd_counts@,
                );
            }
        }
        match patch_runtime_paths(config, vsock_path, fs_devices, net_fd_counts) {
            Ok((patched, nets)) => match finish_config(patched) {
                Ok(out) => Ok((out, nets)),
                Err(e) => Err(e),
            },
            Err(fault) => Err(ConfigError::Fault(fault)),
        }
    }

    /// The configuration file with its memory marked as shared or private.
    pub fn patch_snapshot_memory_shared(data: &[u8], shared: bool) -> (r: Result<
        Vec<u8>,
        ConfigError,
    >)
        ensures
            rewritten(data@, |config: JsonView| memory_patched(config, shared), r),
    {
        let config = match parse_json(data) {
            Ok(config) => config,
            Err(e) => {
                return Err(ConfigError::Unreadable(e));
            },
        };
        let ghost before = config@;
        proof {
            if integral(before, depth_limit()) {
                lemma_memory_reads_back(before, shared);
            }
        }
        match patch_memory_shared(config, shared) {
            Ok(patched) => finish_config(patched),
            Err(fault) => Err(ConfigError::Fault(fault)),
        }
    }
}

} // verus!
