//! What holds of paths, in terms of their characters.

use vstd::prelude::*;

use crate::text::{lemma_split_concat, lemma_split_nonempty, lemma_split_single, split_on};
use crate::unix_path::{
    components, entry_filter, has_parent, is_absolute, is_name, joined, lemma_parent_of,
    names_entry, parent_of, path_lead,
};

verus! {

/// A relative path is seen from a directory with one slash between the two, and
/// both stay as they are; an absolute path stands for itself.
pub proof fn law_paths_are_joined_with_a_slash(base: Seq<char>, tail: Seq<char>)
    ensures
        tail.len() > 0 && tail[0] == '/' ==> joined(base, tail) == tail,
        !(tail.len() > 0 && tail[0] == '/') && base.len() > 0 && base.last() != '/' ==> joined(
            base,
            tail,
        ) == base + seq!['/'] + tail,
        !(tail.len() > 0 && tail[0] == '/') && base.len() > 0 && base.last() == '/' ==> joined(
            base,
            tail,
        ) == base + tail,
        !(tail.len() > 0 && tail[0] == '/') && base.len() == 0 ==> joined(base, tail) == tail,
{
    assert(base.push('/') + tail =~= base + seq!['/'] + tail);
    if base.len() == 0 {
        assert(base + tail =~= tail);
    }
}

/// What a piece adds to the components: itself, unless it is empty or a dot.
pub open spec fn added_by(piece: Seq<char>) -> Seq<Seq<char>> {
    if piece.len() == 0 || piece == seq!['.'] {
        Seq::empty()
    } else {
        seq![piece]
    }
}

/// A single piece is kept by the filter, or not.
proof fn lemma_filtered_piece(piece: Seq<char>)
    ensures
        seq![piece].filter(entry_filter()) == added_by(piece),
{
    reveal(Seq::filter);
    let none = Seq::<Seq<char>>::empty();
    assert(seq![piece].drop_last() =~= none);
    assert(none.filter(entry_filter()) =~= none);
    assert(seq![piece].last() == piece);
    assert(none.push(piece) =~= seq![piece]);
}

/// The components of a path are the names between its slashes, after the root of
/// an absolute path: a further piece adds itself, unless it is empty or a dot; a
/// dot counts only at the start of a relative path.
pub proof fn law_components_are_the_names(base: Seq<char>, piece: Seq<char>)
    requires
        !piece.contains('/'),
    ensures
        piece != seq!['.'] ==> components(piece) == added_by(piece),
        components(seq!['.']) == seq![seq!['.']],
        components(seq!['/'] + piece) == seq![seq!['/']] + added_by(piece),
        base.len() > 0 ==> components(base + seq!['/'] + piece) == components(base) + added_by(
            piece,
        ),
{
    let none = Seq::<Seq<char>>::empty();
    let empty = Seq::<char>::empty();
    let dot = seq!['.'];
    let pred = entry_filter();
    lemma_split_single(piece, '/');
    lemma_filtered_piece(piece);
    assert(!is_absolute(piece)) by {
        if is_absolute(piece) {
            assert(piece[0] == '/');
        }
    }
    assert(none + added_by(piece) =~= added_by(piece));
    lemma_split_single(dot, '/');
    lemma_filtered_piece(dot);
    assert(split_on(dot, '/')[0] == dot);
    assert(components(dot) =~= seq![dot]);
    let rooted = seq!['/'] + piece;
    assert(rooted =~= empty.push('/') + piece);
    lemma_split_concat(empty, piece, '/');
    lemma_split_single(empty, '/');
    lemma_filtered_piece(empty);
    Seq::filter_distributes_over_add(seq![empty], seq![piece], pred);
    assert(rooted[0] == '/');
    assert(components(rooted) =~= seq![seq!['/']] + added_by(piece));
    if base.len() > 0 {
        let whole = base + seq!['/'] + piece;
        assert(whole =~= base.push('/') + piece);
        lemma_split_concat(base, piece, '/');
        lemma_split_nonempty(base, '/');
        let a = split_on(base, '/');
        Seq::filter_distributes_over_add(a, seq![piece], pred);
        assert(whole[0] == base[0]);
        assert((a + seq![piece])[0] == a[0]);
        assert(path_lead(whole) == path_lead(base));
        assert(components(whole) =~= components(base) + added_by(piece));
    }
}

/// The directory of what is named in a directory is that directory, and is a
/// beginning of the path; the root and the empty path have none.
pub proof fn law_parent_is_the_directory(dir: Seq<char>, name: Seq<char>, path: Seq<char>)
    requires
        dir.len() > 0,
        name.len() > 0,
        name != seq!['.'],
        !name.contains('/'),
    ensures
        parent_of(dir + seq!['/'] + name) matches Some(q) && components(q) == components(dir)
            && q.is_prefix_of(dir + seq!['/'] + name),
        parent_of(path) is None <==> components(path).len() == 0 || components(path) == seq![
            seq!['/'],
        ],
        parent_of(path) matches Some(q) ==> components(q) == components(path).drop_last()
            && q.is_prefix_of(path),
{
    law_components_are_the_names(dir, name);
    let whole = dir + seq!['/'] + name;
    let parts = components(dir).push(name);
    assert(components(whole) =~= parts);
    assert(parts.drop_last() =~= components(dir));
    assert(parts.last() == name);
    if parts == seq![seq!['/']] {
        assert(name == seq!['/']);
        assert(name[0] == '/');
    }
    lemma_parent_of(whole);
    if has_parent(path) {
        lemma_parent_of(path);
    }
}

/// A text is a name exactly if it is not empty, stands neither for the directory
/// itself nor for the one above, and holds no slash.
pub proof fn law_names(s: Seq<char>)
    ensures
        is_name(s) <==> s.len() > 0 && s != seq!['.'] && s != seq!['.', '.'] && !s.contains('/'),
        names_entry(s) <==> s.len() > 0 && s != seq!['.'],
        is_absolute(s) <==> s.len() > 0 && s[0] == '/',
{
}

} // verus!
