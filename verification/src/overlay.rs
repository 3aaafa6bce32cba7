//! The layers of overlay file systems.

use vstd::prelude::*;

use crate::text::{
    concat2, join, join_with, law_split_undoes_join, lines, lines_of, opt_text, same_text, split,
    split_on, split_once, split_once_at, split_whitespace, strip_prefix, texts, without_prefix,
    words_of,
};
use crate::unix_path::{components, joined, path_join, same_path};

verus! {

/// A mount of a container's root file system.
#[derive(Debug)]
pub struct Mount {
    pub source: String,
    pub destination: String,
    pub fs_type: String,
    pub options: Vec<String>,
}

/// What follows `prefix` in the first text that starts with it.
pub open spec fn first_value(list: Seq<Seq<char>>, prefix: Seq<char>) -> Option<Seq<char>>
    decreases list.len(),
{
    if list.len() == 0 {
        None
    } else {
        match without_prefix(list[0], prefix) {
            Some(value) => Some(value),
            None => first_value(list.skip(1), prefix),
        }
    }
}

/// The lower directories that mount options name.
pub open spec fn lower_dirs_of(options: Seq<Seq<char>>) -> Seq<Seq<char>> {
    match first_value(options, "lowerdir="@) {
        Some(value) => split_on(value, ':'),
        None => Seq::empty(),
    }
}

/// The upper directory that mount options name.
pub open spec fn upper_dir_of(options: Seq<Seq<char>>) -> Option<Seq<char>> {
    first_value(options, "upperdir="@)
}

/// What follows `prefix` in the first text that starts with it.
fn find_value(list: &Vec<String>, prefix: &str) -> (r: Option<String>)
    ensures
        opt_text(r) == first_value(texts(list@), prefix@),
{
    let ghost all = texts(list@);
    let mut i: usize = 0;
    assert(all.skip(0) == all);
    while i < list.len()
        invariant
            i <= list@.len(),
            all == texts(list@),
            first_value(all, prefix@) == first_value(all.skip(i as int), prefix@),
        decreases list@.len() - i,
    {
        assert(all.skip(i as int)[0] == list@[i as int]@);
        assert(all.skip(i as int).skip(1) == all.skip(i + 1));
        if let Some(value) = strip_prefix(list[i].as_str(), prefix) {
            return Some(value);
        }
        i = i + 1;
    }
    None
}

/// The lower directories and the upper directory that mount options name.
pub fn overlay_paths(options: &Vec<String>) -> (r: (Vec<String>, Option<String>))
    ensures
        texts(r.0@) == lower_dirs_of(texts(options@)),
        opt_text(r.1) == upper_dir_of(texts(options@)),
{
    let lower_dirs: Vec<String> = match find_value(options, "lowerdir=") {
        Some(value) => split(value.as_str(), ':'),
        None => {
            let none: Vec<String> = Vec::new();
            assert(texts(none@) =~= Seq::<Seq<char>>::empty());
            none
        },
    };
    let upper_dir = find_value(options, "upperdir=");
    (lower_dirs, upper_dir)
}

/// The layers that mount options name, when there is an upper directory.
pub open spec fn layers_of(options: Seq<Seq<char>>) -> Option<(Seq<Seq<char>>, Seq<char>)> {
    match upper_dir_of(options) {
        Some(upper) => Some((lower_dirs_of(options), upper)),
        None => None,
    }
}

/// The view of layers.
pub open spec fn layers_view(r: Option<(Vec<String>, String)>) -> Option<
    (Seq<Seq<char>>, Seq<char>),
> {
    match r {
        Some((lowers, upper)) => Some((texts(lowers@), upper@)),
        None => None,
    }
}

/// The layers of the first mount from `from` on that names an upper directory.
pub open spec fn declared_layers(mounts: Seq<Mount>, from: int) -> Option<
    (Seq<Seq<char>>, Seq<char>),
>
    decreases mounts.len() - from,
{
    if from >= mounts.len() {
        None
    } else {
        match layers_of(texts(mounts[from].options@)) {
            Some(layers) => Some(layers),
            None => declared_layers(mounts, from + 1),
        }
    }
}

/// The layers that the mounts themselves name.
pub fn declared_overlay(mounts: &Vec<Mount>) -> (r: Option<(Vec<String>, String)>)
    ensures
        layers_view(r) == declared_layers(mounts@, 0),
{
    let mut i: usize = 0;
    while i < mounts.len()
        invariant
            i <= mounts@.len(),
            declared_layers(mounts@, 0) == declared_layers(mounts@, i as int),
        decreases mounts@.len() - i,
    {
        let (lowers, upper) = overlay_paths(&mounts[i].options);
        if let Some(upper) = upper {
            return Some((lowers, upper));
        }
        i = i + 1;
    }
    None
}

/// Whether a mount point is one of the places where the root file system of a
/// bundle may be mounted: the sources of its mounts, and its own directory.
pub open spec fn is_rootfs_mount_point(
    point: Seq<char>,
    bundle: Seq<char>,
    mounts: Seq<Mount>,
) -> bool {
    ||| exists|i: int|
        0 <= i < mounts.len() && components(#[trigger] mounts[i].source@)
            == components(point)
    ||| components(joined(bundle, "rootfs"@))
        == components(point)
}

/// The layers that a line of the mount table names, when it is an overlay at
/// one of the places of the root file system. The fields before the separator
/// end in the optional ones; those after it are the type, the source and the
/// options of the file system.
pub open spec fn line_layers(line: Seq<char>, bundle: Seq<char>, mounts: Seq<Mount>) -> Option<
    (Seq<Seq<char>>, Seq<char>),
> {
    match split_once_at(line, " - "@) {
        None => None,
        Some((left, right)) => {
            let place = words_of(left);
            let kind = words_of(right);
            if place.len() < 6 || kind.len() < 3 || kind[0] != "overlay"@
                || !is_rootfs_mount_point(place[4], bundle, mounts) {
                None
            } else {
                layers_of(split_on(kind[2], ','))
            }
        },
    }
}

/// The layers that the first such line from `from` on names.
pub open spec fn table_layers(
    table: Seq<Seq<char>>,
    from: int,
    bundle: Seq<char>,
    mounts: Seq<Mount>,
) -> Option<(Seq<Seq<char>>, Seq<char>)>
    decreases table.len() - from,
{
    if from >= table.len() {
        None
    } else {
        match line_layers(table[from], bundle, mounts) {
            Some(layers) => Some(layers),
            None => table_layers(table, from + 1, bundle, mounts),
        }
    }
}

/// The layers of a root file system: those that its mounts name, or else those
/// of the overlay that the mount table shows at its place.
pub open spec fn rootfs_layers(
    bundle: Seq<char>,
    mounts: Seq<Mount>,
    mountinfo: Seq<char>,
) -> Option<(Seq<Seq<char>>, Seq<char>)> {
    match declared_layers(mounts, 0) {
        Some(layers) => Some(layers),
        None => table_layers(lines_of(mountinfo), 0, bundle, mounts),
    }
}

/// Whether a mount point is one of the places of the root file system.
fn rootfs_mount_point(point: &str, bundle: &str, mounts: &Vec<Mount>) -> (r: bool)
    ensures
        r == is_rootfs_mount_point(point@, bundle@, mounts@),
{
    let mut i: usize = 0;
    while i < mounts.len()
        invariant
            i <= mounts@.len(),
            forall|k: int|
                0 <= k < i ==> components(#[trigger] mounts@[k].source@)
                    != components(point@),
        decreases mounts@.len() - i,
    {
        if same_path(mounts[i].source.as_str(), point) {
            return true;
        }
        i = i + 1;
    }
    let own = path_join(bundle, "rootfs");
    same_path(own.as_str(), point)
}

/// The layers that a line of the mount table names.
fn line_overlay(line: &str, bundle: &str, mounts: &Vec<Mount>) -> (r: Option<
    (Vec<String>, String),
>)
    ensures
        layers_view(r) == line_layers(line@, bundle@, mounts@),
{
    let (left, right) = match split_once(line, " - ") {
        Some(parts) => parts,
        None => {
            return None;
        },
    };
    let place = split_whitespace(left.as_str());
    let kind = split_whitespace(right.as_str());
    proof {
        assert(texts(place@).len() == place@.len());
        assert(texts(kind@).len() == kind@.len());
    }
    if place.len() < 6 || kind.len() < 3 {
        return None;
    }
    proof {
        assert(texts(place@)[4] == place@[4]@);
        assert(texts(kind@)[0] == kind@[0]@);
        assert(texts(kind@)[2] == kind@[2]@);
    }
    if !same_text(kind[0].as_str(), "overlay") {
        return None;
    }
    if !rootfs_mount_point(place[4].as_str(), bundle, mounts) {
        return None;
    }
    let options = split(kind[2].as_str(), ',');
    let (lowers, upper) = overlay_paths(&options);
    match upper {
        Some(upper) => Some((lowers, upper)),
        None => None,
    }
}

/// The layers of a root file system could not be found.
#[derive(Debug, PartialEq, Eq)]
pub struct OverlayNotFound {
    pub bundle: String,
}

impl OverlayNotFound {
    /// The message of the error.
    pub fn message(&self) -> (r: String)
        ensures
            r@ == "cannot locate overlay upperdir for bundle "@ + self.bundle@,
    {
        concat2("cannot locate overlay upperdir for bundle ", self.bundle.as_str())
    }
}

/// Finds the layers of a root file system. The mount table is looked at only
/// where [`declared_overlay`] finds none.
pub fn rootfs_overlay_paths(bundle: &str, mounts: &Vec<Mount>, mountinfo: &str) -> (r: Result<
    (Vec<String>, String),
    OverlayNotFound,
>)
    ensures
        match r {
            Ok(layers) => layers_view(Some(layers)) == rootfs_layers(bundle@, mounts@, mountinfo@),
            Err(e) => rootfs_layers(bundle@, mounts@, mountinfo@) is None && e.bundle@ == bundle@,
        },
{
    if let Some(layers) = declared_overlay(mounts) {
        return Ok(layers);
    }
    let table = lines(mountinfo);
    let ghost all = lines_of(mountinfo@);
    let mut i: usize = 0;
    while i < table.len()
        invariant
            i <= table@.len(),
            texts(table@) == all,
            all == lines_of(mountinfo@),
            declared_layers(mounts@, 0) is None,
            rootfs_layers(bundle@, mounts@, mountinfo@) == table_layers(
                all,
                i as int,
                bundle@,
                mounts@,
            ),
        decreases table@.len() - i,
    {
        assert(all[i as int] == table@[i as int]@);
        if let Some(layers) = line_overlay(table[i].as_str(), bundle, mounts) {
            return Ok(layers);
        }
        i = i + 1;
    }
    assert(texts(table@).len() == table@.len());
    Err(OverlayNotFound { bundle: bundle.to_owned() })
}

/// What a mount names itself is taken, whatever the mount table says.
pub proof fn law_declared_layers_win(
    bundle: Seq<char>,
    mounts: Seq<Mount>,
    table: Seq<char>,
    other_table: Seq<char>,
)
    requires
        declared_layers(mounts, 0) is Some,
    ensures
        rootfs_layers(bundle, mounts, table) == declared_layers(mounts, 0),
        rootfs_layers(bundle, mounts, table) == rootfs_layers(bundle, mounts, other_table),
{
}

/// The options with which an overlay is mounted.
pub open spec fn overlay_options(
    lower_dirs: Seq<Seq<char>>,
    upper: Seq<char>,
    work: Seq<char>,
) -> Seq<char> {
    "lowerdir="@ + join_with(lower_dirs, ":"@) + ",upperdir="@ + upper + ",workdir="@
        + work
}

/// The options with which an overlay is mounted.
pub fn overlay_mount_options(lower_dirs: &Vec<String>, upper: &str, work: &str) -> (r: String)
    ensures
        r@ == overlay_options(texts(lower_dirs@), upper@, work@),
{
    let mut r = concat2("lowerdir=", join(lower_dirs, ":").as_str());
    r.append(",upperdir=");
    r.append(upper);
    r.append(",workdir=");
    r.append(work);
    r
}

/// A list without separator inside its items, whose join ends no item early.
proof fn lemma_join_free(list: Seq<Seq<char>>, sep: Seq<char>, c: char)
    requires
        forall|i: int| 0 <= i < list.len() ==> !(#[trigger] list[i]).contains(c),
        !sep.contains(c),
    ensures
        !join_with(list, sep).contains(c),
    decreases list.len(),
{
    if list.len() == 1 {
        assert(!list[0].contains(c));
    } else if list.len() > 1 {
        assert forall|i: int| 0 <= i < list.drop_last().len() implies !(
        #[trigger] list.drop_last()[i]).contains(c) by {
            assert(list.drop_last()[i] == list[i]);
        }
        lemma_join_free(list.drop_last(), sep, c);
        let head = join_with(list.drop_last(), sep);
        let last = list[list.len() - 1];
        assert(!last.contains(c));
        lemma_concat_free(head, sep, c);
        lemma_concat_free(head + sep, last, c);
    }
}

/// A character that neither part holds is not in the whole.
proof fn lemma_concat_free(a: Seq<char>, b: Seq<char>, c: char)
    requires
        !a.contains(c),
        !b.contains(c),
    ensures
        !(a + b).contains(c),
{
    if (a + b).contains(c) {
        let k = choose|k: int| 0 <= k < (a + b).len() && (a + b)[k] == c;
        if k < a.len() {
            assert(a[k] == c);
        } else {
            assert(b[k - a.len()] == c);
        }
    }
}

/// The options of an overlay name the layers that it was mounted with, when no
/// directory holds the characters that separate them.
pub proof fn law_options_name_the_layers(
    lower_dirs: Seq<Seq<char>>,
    upper: Seq<char>,
    work: Seq<char>,
)
    requires
        lower_dirs.len() > 0,
        forall|i: int|
            0 <= i < lower_dirs.len() ==> !(#[trigger] lower_dirs[i]).contains(',')
                && !lower_dirs[i].contains(':'),
        !upper.contains(','),
        !work.contains(','),
    ensures
        layers_of(split_on(overlay_options(lower_dirs, upper, work), ',')) == Some(
            (lower_dirs, upper),
        ),
{
    reveal_strlit("lowerdir=");
    reveal_strlit(",upperdir=");
    reveal_strlit("upperdir=");
    reveal_strlit(",workdir=");
    reveal_strlit("workdir=");
    reveal_strlit(":");
    let sep = seq![':'];
    assert(":"@ =~= sep);
    let lowers = join_with(lower_dirs, sep);
    lemma_join_free(lower_dirs, sep, ',');
    let a = "lowerdir="@ + lowers;
    let b = "upperdir="@ + upper;
    let c = "workdir="@ + work;
    lemma_concat_free("lowerdir="@, lowers, ',');
    lemma_concat_free("upperdir="@, upper, ',');
    lemma_concat_free("workdir="@, work, ',');
    let list = seq![a, b, c];
    let comma = seq![','];
    assert(join_with(list, comma) == overlay_options(lower_dirs, upper, work)) by {
        reveal_with_fuel(join_with, 4);
        assert(list.drop_last() =~= seq![a, b]);
        assert(seq![a, b].drop_last() =~= seq![a]);
        assert(",upperdir="@ =~= comma + "upperdir="@);
        assert(",workdir="@ =~= comma + "workdir="@);
        assert(a + comma + b + comma + c =~= overlay_options(lower_dirs, upper, work));
    }
    assert forall|i: int| 0 <= i < list.len() implies !(#[trigger] list[i]).contains(',') by {
        assert(list[i] == a || list[i] == b || list[i] == c);
    }
    law_split_undoes_join(list, ',');
    law_split_undoes_join(lower_dirs, ':');
    assert(a.subrange(0, "lowerdir="@.len() as int) =~= "lowerdir="@);
    assert(a.skip("lowerdir="@.len() as int) =~= lowers);
    assert("lowerdir="@.is_prefix_of(a));
    assert(first_value(list, "lowerdir="@) == Some(lowers));
    assert(a[0] == 'l');
    assert(!"upperdir="@.is_prefix_of(a)) by {
        if "upperdir="@.is_prefix_of(a) {
            assert(a.subrange(0, "upperdir="@.len() as int)[0] == 'u');
        }
    }
    assert(list.skip(1)[0] == b);
    assert(b.subrange(0, "upperdir="@.len() as int) =~= "upperdir="@);
    assert(b.skip("upperdir="@.len() as int) =~= upper);
    assert("upperdir="@.is_prefix_of(b));
    assert(first_value(list.skip(1), "upperdir="@) == Some(upper));
}

} // verus!
