//! What holds of the layers that are found, in terms of the options, mounts and
//! lines that name them.

use vstd::prelude::*;

use crate::overlay::{
    declared_layers, first_value, layers_of, line_layers, lower_dirs_of, overlay_options,
    rootfs_layers, table_layers, upper_dir_of, Mount,
};
use crate::text::{join_with, lines_of, split_on, split_once_at, texts, words_of};
use crate::text_laws::law_prefix_is_taken_off;
use crate::unix_path::{components, joined};

verus! {

/// Whether an option sets what the prefix stands for.
pub open spec fn sets(option: Seq<char>, prefix: Seq<char>) -> bool {
    option.len() >= prefix.len() && option.take(prefix.len() as int) == prefix
}

/// Whether an option sets what the prefix stands for, and no earlier one does.
pub open spec fn sets_first(options: Seq<Seq<char>>, k: int, prefix: Seq<char>) -> bool {
    0 <= k < options.len() && sets(options[k], prefix) && forall|j: int|
        0 <= j < k ==> !sets(#[trigger] options[j], prefix)
}

/// The value of the first option with the prefix.
proof fn lemma_first_value(options: Seq<Seq<char>>, prefix: Seq<char>, k: int)
    requires
        sets_first(options, k, prefix),
    ensures
        first_value(options, prefix) == Some(options[k].skip(prefix.len() as int)),
    decreases options.len(),
{
    law_prefix_is_taken_off(options[0], prefix, options[0].skip(prefix.len() as int));
    if k == 0 {
        assert(options[0] =~= options[0].take(prefix.len() as int) + options[0].skip(
            prefix.len() as int,
        ));
    } else {
        assert(!sets(options[0], prefix));
        let rest = options.skip(1);
        assert(rest[k - 1] == options[k]);
        assert forall|j: int| 0 <= j < k - 1 implies !sets(#[trigger] rest[j], prefix) by {
            assert(rest[j] == options[j + 1]);
        }
        lemma_first_value(rest, prefix, k - 1);
    }
}

/// There is no value where no option has the prefix, and an option where there
/// is a value.
proof fn lemma_no_value(options: Seq<Seq<char>>, prefix: Seq<char>)
    ensures
        first_value(options, prefix) is None <==> forall|j: int|
            0 <= j < options.len() ==> !sets(#[trigger] options[j], prefix),
        first_value(options, prefix) is Some ==> exists|k: int| sets_first(options, k, prefix),
    decreases options.len(),
{
    if options.len() > 0 {
        law_prefix_is_taken_off(options[0], prefix, options[0].skip(prefix.len() as int));
        let rest = options.skip(1);
        lemma_no_value(rest, prefix);
        if sets(options[0], prefix) {
            assert(sets_first(options, 0, prefix));
        } else {
            if first_value(rest, prefix) is Some {
                let k = choose|k: int| sets_first(rest, k, prefix);
                assert(options[k + 1] == rest[k]);
                assert forall|j: int| 0 <= j < k + 1 implies !sets(
                    #[trigger] options[j],
                    prefix,
                ) by {
                    if j > 0 {
                        assert(rest[j - 1] == options[j]);
                    }
                }
                assert(sets_first(options, k + 1, prefix));
            } else {
                assert forall|j: int| 0 <= j < options.len() implies !sets(
                    #[trigger] options[j],
                    prefix,
                ) by {
                    if j > 0 {
                        assert(rest[j - 1] == options[j]);
                    }
                }
            }
        }
    }
}

/// The lower directories are those that the first option `lowerdir=` names,
/// wherever it stands and whatever the other options are; they stand between
/// colons. The upper directory is the one that the first option `upperdir=`
/// names.
pub proof fn law_options_name_layers_anywhere(options: Seq<Seq<char>>, k: int, value: Seq<char>)
    requires
        0 <= k < options.len(),
    ensures
        options[k] == "lowerdir="@ + value && sets_first(options, k, "lowerdir="@)
            ==> lower_dirs_of(options) == split_on(value, ':'),
        options[k] == "upperdir="@ + value && sets_first(options, k, "upperdir="@)
            ==> upper_dir_of(options) == Some(value),
{
    if options[k] == "lowerdir="@ + value && sets_first(options, k, "lowerdir="@) {
        lemma_first_value(options, "lowerdir="@, k);
        assert(("lowerdir="@ + value).skip("lowerdir="@.len() as int) =~= value);
    }
    if options[k] == "upperdir="@ + value && sets_first(options, k, "upperdir="@) {
        lemma_first_value(options, "upperdir="@, k);
        assert(("upperdir="@ + value).skip("upperdir="@.len() as int) =~= value);
    }
}

/// Options that set no lower directories name none, and options that set no
/// upper directory name none; layers are found exactly where there is an upper
/// directory.
pub proof fn law_unset_layers_are_not_named(options: Seq<Seq<char>>)
    ensures
        (forall|j: int| 0 <= j < options.len() ==> !sets(#[trigger] options[j], "lowerdir="@))
            ==> lower_dirs_of(options) == Seq::<Seq<char>>::empty(),
        upper_dir_of(options) is None <==> forall|j: int|
            0 <= j < options.len() ==> !sets(#[trigger] options[j], "upperdir="@),
        layers_of(options) == (match upper_dir_of(options) {
            Some(upper) => Some((lower_dirs_of(options), upper)),
            None => None,
        }),
{
    lemma_no_value(options, "lowerdir="@);
    lemma_no_value(options, "upperdir="@);
}

/// The order of options does not matter, nor how often one stands there, as long
/// as no two of them set the same thing differently.
pub proof fn law_order_of_options_does_not_matter(a: Seq<Seq<char>>, b: Seq<Seq<char>>)
    requires
        forall|option: Seq<char>| #[trigger] a.contains(option) <==> b.contains(option),
        forall|i: int, j: int|
            0 <= i < a.len() && 0 <= j < a.len() && sets(#[trigger] a[i], "lowerdir="@) && sets(
                #[trigger] a[j],
                "lowerdir="@,
            ) ==> a[i] == a[j],
        forall|i: int, j: int|
            0 <= i < a.len() && 0 <= j < a.len() && sets(#[trigger] a[i], "upperdir="@) && sets(
                #[trigger] a[j],
                "upperdir="@,
            ) ==> a[i] == a[j],
    ensures
        lower_dirs_of(a) == lower_dirs_of(b),
        upper_dir_of(a) == upper_dir_of(b),
        layers_of(a) == layers_of(b),
{
    lemma_same_value(a, b, "lowerdir="@);
    lemma_same_value(a, b, "upperdir="@);
}

/// Two lists of the same options, which set one thing in one way, have the same
/// value for it.
proof fn lemma_same_value(a: Seq<Seq<char>>, b: Seq<Seq<char>>, prefix: Seq<char>)
    requires
        forall|option: Seq<char>| #[trigger] a.contains(option) <==> b.contains(option),
        forall|i: int, j: int|
            0 <= i < a.len() && 0 <= j < a.len() && sets(#[trigger] a[i], prefix) && sets(
                #[trigger] a[j],
                prefix,
            ) ==> a[i] == a[j],
    ensures
        first_value(a, prefix) == first_value(b, prefix),
{
    lemma_no_value(a, prefix);
    lemma_no_value(b, prefix);
    if first_value(a, prefix) is Some {
        let i = choose|i: int| sets_first(a, i, prefix);
        assert(a.contains(a[i]));
        assert(b.contains(a[i]));
        let m = choose|m: int| 0 <= m < b.len() && b[m] == a[i];
        assert(sets(b[m], prefix));
        let j = choose|j: int| sets_first(b, j, prefix);
        lemma_first_value(a, prefix, i);
        lemma_first_value(b, prefix, j);
        assert(b.contains(b[j]));
        assert(a.contains(b[j]));
        let n = choose|n: int| 0 <= n < a.len() && a[n] == b[j];
        assert(a[n] == a[i]);
    } else if first_value(b, prefix) is Some {
        let j = choose|j: int| sets_first(b, j, prefix);
        assert(b.contains(b[j]));
        assert(a.contains(b[j]));
        let n = choose|n: int| 0 <= n < a.len() && a[n] == b[j];
        assert(sets(a[n], prefix));
    }
}

/// Whether an option of a mount sets its upper directory.
pub open spec fn names_upper(mount: Mount) -> bool {
    exists|u: int|
        0 <= u < mount.options@.len() && sets((#[trigger] mount.options@[u])@, "upperdir="@)
}

/// A mount has layers exactly if one of its options sets an upper directory.
proof fn lemma_names_upper(mount: Mount)
    ensures
        layers_of(texts(mount.options@)) is Some <==> names_upper(mount),
{
    let options = texts(mount.options@);
    law_unset_layers_are_not_named(options);
    assert(options.len() == mount.options@.len());
    if names_upper(mount) {
        let u = choose|u: int|
            0 <= u < mount.options@.len() && sets((#[trigger] mount.options@[u])@, "upperdir="@);
        assert(options[u] == mount.options@[u]@);
    }
    if layers_of(options) is Some {
        let j = choose|j: int|
            0 <= j < options.len() && sets(#[trigger] options[j], "upperdir="@);
        assert(mount.options@[j]@ == options[j]);
    }
}

/// The first mount that names an upper directory decides: its own options name
/// both the upper and the lower directories.
pub proof fn law_first_mount_with_upper_counts(mounts: Seq<Mount>, m: int)
    requires
        0 <= m < mounts.len(),
        names_upper(mounts[m]),
        forall|j: int| 0 <= j < m ==> !names_upper(#[trigger] mounts[j]),
    ensures
        declared_layers(mounts, 0) matches Some((lowers, upper)) && lowers == lower_dirs_of(
            texts(mounts[m].options@),
        ) && upper_dir_of(texts(mounts[m].options@)) == Some(upper),
{
    lemma_declared(mounts, 0, m);
    lemma_names_upper(mounts[m]);
}

/// Mounts that name no upper directory are passed over.
proof fn lemma_declared(mounts: Seq<Mount>, from: int, m: int)
    requires
        0 <= from <= m <= mounts.len(),
        forall|j: int| from <= j < m ==> !names_upper(#[trigger] mounts[j]),
    ensures
        declared_layers(mounts, from) == declared_layers(mounts, m),
    decreases m - from,
{
    if from < m {
        assert(!names_upper(mounts[from]));
        lemma_names_upper(mounts[from]);
        lemma_declared(mounts, from + 1, m);
    }
}

/// Mounts name layers exactly if one of them names an upper directory.
pub proof fn law_layers_are_declared_with_an_upper(mounts: Seq<Mount>)
    ensures
        declared_layers(mounts, 0) is Some <==> exists|m: int|
            0 <= m < mounts.len() && names_upper(#[trigger] mounts[m]),
{
    lemma_declared_from(mounts, 0);
}

/// From a given mount on, there are layers exactly with an upper directory.
proof fn lemma_declared_from(mounts: Seq<Mount>, from: int)
    requires
        0 <= from,
    ensures
        declared_layers(mounts, from) is Some <==> exists|m: int|
            from <= m < mounts.len() && names_upper(#[trigger] mounts[m]),
    decreases mounts.len() - from,
{
    if from < mounts.len() {
        lemma_names_upper(mounts[from]);
        lemma_declared_from(mounts, from + 1);
        if names_upper(mounts[from]) {
            assert(from <= from < mounts.len() && names_upper(mounts[from]));
        }
    }
}

/// Whether a place in the mount table is that of a root file system: the source
/// of one of its mounts, or `rootfs` in the bundle.
pub open spec fn is_place_of(place: Seq<char>, bundle: Seq<char>, mounts: Seq<Mount>) -> bool {
    (exists|i: int|
        0 <= i < mounts.len() && components((#[trigger] mounts[i]).source@) == components(place))
        || components(joined(bundle, "rootfs"@)) == components(place)
}

/// A line of the mount table names layers exactly if it is that of an overlay at
/// a place of the root file system, and its last field names an upper directory.
/// The place is the fifth of at least six fields before the first separator; the
/// type and the options are the first and the third field after it.
pub proof fn law_overlay_lines_name_layers(
    line: Seq<char>,
    left: Seq<char>,
    right: Seq<char>,
    bundle: Seq<char>,
    mounts: Seq<Mount>,
)
    ensures
        split_once_at(line, " - "@) is None ==> line_layers(line, bundle, mounts) is None,
        split_once_at(line, " - "@) == Some((left, right)) ==> line_layers(line, bundle, mounts)
            == (if words_of(left).len() >= 6 && words_of(right).len() >= 3 && words_of(right)[0]
            == "overlay"@ && is_place_of(words_of(left)[4], bundle, mounts) {
            layers_of(split_on(words_of(right)[2], ','))
        } else {
            None
        }),
{
    if split_once_at(line, " - "@) == Some((left, right)) && words_of(left).len() >= 6 {
        let place = words_of(left)[4];
        if is_place_of(place, bundle, mounts) && components(joined(bundle, "rootfs"@))
            != components(place) {
            let i = choose|i: int|
                0 <= i < mounts.len() && components((#[trigger] mounts[i]).source@) == components(
                    place,
                );
            assert(components(mounts[i].source@) == components(place));
        }
    }
}

/// Lines that name no layers are passed over.
proof fn lemma_table(
    table: Seq<Seq<char>>,
    from: int,
    k: int,
    bundle: Seq<char>,
    mounts: Seq<Mount>,
)
    requires
        0 <= from <= k <= table.len(),
        forall|j: int|
            from <= j < k ==> line_layers(#[trigger] table[j], bundle, mounts) is None,
    ensures
        table_layers(table, from, bundle, mounts) == table_layers(table, k, bundle, mounts),
    decreases k - from,
{
    if from < k {
        assert(line_layers(table[from], bundle, mounts) is None);
        lemma_table(table, from + 1, k, bundle, mounts);
    }
}

/// Where no mount names an upper directory, the first line of the mount table
/// that names layers of the root file system decides, and where no line does,
/// there are none.
pub proof fn law_mount_table_is_searched(
    bundle: Seq<char>,
    mounts: Seq<Mount>,
    mountinfo: Seq<char>,
    k: int,
)
    requires
        forall|m: int| 0 <= m < mounts.len() ==> !names_upper(#[trigger] mounts[m]),
        0 <= k <= lines_of(mountinfo).len(),
        forall|j: int|
            0 <= j < k ==> line_layers(#[trigger] lines_of(mountinfo)[j], bundle, mounts) is None,
    ensures
        k < lines_of(mountinfo).len() && line_layers(lines_of(mountinfo)[k], bundle, mounts) is Some
            ==> rootfs_layers(bundle, mounts, mountinfo) == line_layers(
            lines_of(mountinfo)[k],
            bundle,
            mounts,
        ),
        k == lines_of(mountinfo).len() ==> rootfs_layers(bundle, mounts, mountinfo) is None,
{
    law_layers_are_declared_with_an_upper(mounts);
    lemma_table(lines_of(mountinfo), 0, k, bundle, mounts);
}

/// Where a mount names an upper directory, the mounts decide and the mount table
/// does not matter.
pub proof fn law_mounts_come_before_the_table(
    bundle: Seq<char>,
    mounts: Seq<Mount>,
    mountinfo: Seq<char>,
    m: int,
)
    requires
        0 <= m < mounts.len(),
        names_upper(mounts[m]),
    ensures
        rootfs_layers(bundle, mounts, mountinfo) is Some,
        rootfs_layers(bundle, mounts, mountinfo) == declared_layers(mounts, 0),
{
    law_layers_are_declared_with_an_upper(mounts);
}

/// An overlay is mounted with its lower directories between colons, its upper
/// directory and its work directory.
pub proof fn law_mount_options_name_the_directories(
    lower_dirs: Seq<Seq<char>>,
    upper: Seq<char>,
    work: Seq<char>,
)
    ensures
        overlay_options(lower_dirs, upper, work) == "lowerdir="@ + join_with(lower_dirs, seq![':'])
            + ",upperdir="@ + upper + ",workdir="@ + work,
{
    reveal_strlit(":");
    assert(":"@ =~= seq![':']);
}

} // verus!
