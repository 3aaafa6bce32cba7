//! Slash-separated paths, as text.

use vstd::prelude::*;
use crate::text::{
    chars_of, concat2, lemma_split_concat, lemma_split_nonempty,
    lemma_split_pieces_free_of_separator, lemma_split_single, same_text, split, split_on, text_of,
    texts,
};

verus! {

/// Whether a path starts at the root.
pub open spec fn is_absolute(p: Seq<char>) -> bool {
    p.len() > 0 && p[0] == '/'
}

/// Whether a piece between two slashes names a directory entry: an empty
/// piece and a lone dot do not.
pub open spec fn names_entry(piece: Seq<char>) -> bool {
    piece.len() > 0 && piece != seq!['.']
}

/// [`names_entry`] as a predicate on pieces.
pub open spec fn entry_filter() -> spec_fn(Seq<char>) -> bool {
    |piece: Seq<char>| names_entry(piece)
}

/// What stands before the named entries of a path: the root of an absolute
/// path, or the lone dot with which a relative one starts.
pub open spec fn path_lead(p: Seq<char>) -> Seq<Seq<char>> {
    if is_absolute(p) {
        seq![seq!['/']]
    } else if split_on(p, '/')[0] == seq!['.'] {
        seq![seq!['.']]
    } else {
        Seq::empty()
    }
}

/// The components of a path: its lead and the entries that it names.
pub open spec fn components(p: Seq<char>) -> Seq<Seq<char>> {
    path_lead(p) + split_on(p, '/').filter(entry_filter())
}

/// Whether a path names an entry of some directory.
pub open spec fn has_parent(p: Seq<char>) -> bool {
    components(p).len() > 0 && components(p) != seq![seq!['/']]
}

/// Whether `q` is the directory of `p`: the shortest beginning of `p` that
/// has all components of `p` but the last.
pub open spec fn is_parent(p: Seq<char>, q: Seq<char>) -> bool {
    &&& q.is_prefix_of(p)
    &&& components(q) == components(p).drop_last()
    &&& forall|k: int|
        0 <= k < q.len() ==> components(#[trigger] p.take(k)) != components(p).drop_last()
}

/// The directory of `p`, where it has one.
pub open spec fn parent_of(p: Seq<char>) -> Option<Seq<char>> {
    if has_parent(p) {
        Some(choose|q: Seq<char>| is_parent(p, q))
    } else {
        None
    }
}

/// `tail` seen from the directory `base`; an absolute `tail` stands for itself.
pub open spec fn joined(base: Seq<char>, tail: Seq<char>) -> Seq<char> {
    if is_absolute(tail) {
        tail
    } else if base.len() == 0 || base.last() == '/' {
        base + tail
    } else {
        base.push('/') + tail
    }
}

/// A path has at most one directory.
pub proof fn lemma_parent_unique(p: Seq<char>, a: Seq<char>, b: Seq<char>)
    requires
        is_parent(p, a),
        is_parent(p, b),
    ensures
        a == b,
{
    assert(a == p.take(a.len() as int));
    assert(b == p.take(b.len() as int));
    if a.len() < b.len() {
        assert(components(p.take(a.len() as int)) == components(p).drop_last());
    } else if b.len() < a.len() {
        assert(components(p.take(b.len() as int)) == components(p).drop_last());
    }
}

/// Cutting off the last piece leaves a path that ends where it began.
proof fn lemma_last_piece(p: Seq<char>)
    ensures
        split_on(p, '/').len() >= 1,
        split_on(p, '/').last().len() <= p.len(),
        ({
            let pieces = split_on(p, '/');
            let base = p.take(p.len() - pieces.last().len());
            &&& split_on(base, '/') == pieces.drop_last().push(Seq::<char>::empty())
            &&& base.len() == 0 ==> pieces == seq![p]
            &&& base.len() > 0 ==> base.last() == '/' && pieces.len() > 1
        }),
    decreases p.len(),
{
    let pieces = split_on(p, '/');
    if p.len() == 0 {
        assert(p.take(0) == p);
        assert(p =~= Seq::<char>::empty());
        assert(pieces =~= seq![p]);
        assert(pieces.drop_last().push(Seq::<char>::empty()) == pieces);
    } else {
        let shorter = p.drop_last();
        lemma_last_piece(shorter);
        let before = split_on(shorter, '/');
        if p.last() == '/' {
            assert(p.take(p.len() as int) == p);
            assert(pieces.drop_last().push(Seq::<char>::empty()) == pieces);
        } else {
            assert(pieces.drop_last() == before.drop_last());
            let n = p.len() - pieces.last().len();
            assert(n == shorter.len() - before.last().len());
            assert(p.take(n) == shorter.take(n));
            if n == 0 {
                assert(before == seq![shorter]);
                assert(pieces[0] == p);
                assert(pieces == seq![p]);
            }
        }
    }
}

/// Some beginning of a path with a parent has all its components but the last.
proof fn lemma_parent_exists(p: Seq<char>) -> (k: int)
    requires
        has_parent(p),
    ensures
        0 <= k <= p.len(),
        components(p.take(k)) == components(p).drop_last(),
    decreases p.len(),
{
    reveal(Seq::filter);
    let pieces = split_on(p, '/');
    let init = pieces.drop_last();
    let cur = pieces.last();
    lemma_last_piece(p);
    let n = p.len() - cur.len();
    let base = p.take(n);
    let empty = Seq::<char>::empty();
    assert(init.push(empty).drop_last() == init);
    assert(!names_entry(empty));
    assert(init.push(empty).filter(entry_filter()) == init.filter(entry_filter()));
    if names_entry(cur) {
        assert(pieces.filter(entry_filter()) == init.filter(entry_filter()).push(cur));
        if n == 0 {
            assert(base == empty);
            assert(pieces == seq![p]);
            if is_absolute(p) {
                lemma_split_pieces_free_of_separator(p, '/');
                assert(pieces[0].contains('/'));
            }
            assert(path_lead(p) == Seq::<Seq<char>>::empty());
            assert(path_lead(base) == Seq::<Seq<char>>::empty());
        } else {
            assert(base[0] == p[0]);
            assert(split_on(base, '/')[0] == pieces[0]);
            assert(path_lead(base) == path_lead(p));
        }
        assert(components(base) == components(p).drop_last());
        n
    } else {
        assert(pieces.filter(entry_filter()) == init.filter(entry_filter()));
        if n == 0 {
            assert(base == empty);
            assert(path_lead(base) == Seq::<Seq<char>>::empty());
            assert(init == Seq::<Seq<char>>::empty());
            assert(components(base) == Seq::<Seq<char>>::empty());
            assert(components(p).drop_last() == Seq::<Seq<char>>::empty());
            0
        } else {
            let shorter = base.drop_last();
            assert(split_on(shorter, '/') == init) by {
                assert(split_on(base, '/').drop_last() == init);
                assert(split_on(shorter, '/').push(empty).drop_last()
                    == split_on(shorter, '/'));
            }
            if shorter.len() == 0 {
                assert(init == seq![empty]);
                assert(init.drop_last().filter(entry_filter()) == Seq::<Seq<char>>::empty());
                assert(is_absolute(p));
                assert(components(p) == seq![seq!['/']]);
                0
            } else {
                assert(shorter[0] == p[0]);
                assert(path_lead(shorter) == path_lead(p));
                assert(components(shorter) == components(p));
                let k = lemma_parent_exists(shorter);
                assert(shorter.take(k) == p.take(k));
                k
            }
        }
    }
}

/// The shortest of the beginnings that have all components but the last.
proof fn lemma_shortest(p: Seq<char>, k: int)
    requires
        0 <= k <= p.len(),
        components(p.take(k)) == components(p).drop_last(),
    ensures
        exists|q: Seq<char>| is_parent(p, q),
    decreases k,
{
    let q = p.take(k);
    if forall|m: int| 0 <= m < k ==> components(#[trigger] p.take(m)) != components(p).drop_last() {
        assert(q =~= p.subrange(0, k));
        assert(q.is_prefix_of(p));
        assert(is_parent(p, q));
    } else {
        let m = choose|m: int|
            0 <= m < k && components(#[trigger] p.take(m)) == components(p).drop_last();
        lemma_shortest(p, m);
    }
}

/// The directory of a path is a beginning of it with all its components but the
/// last.
pub proof fn lemma_parent_of(p: Seq<char>)
    requires
        has_parent(p),
    ensures
        parent_of(p) matches Some(q) && is_parent(p, q),
{
    let k = lemma_parent_exists(p);
    lemma_shortest(p, k);
}

/// What a relative path adds to the components of the directory that it is
/// seen from.
pub proof fn lemma_joined_components(base: Seq<char>, tail: Seq<char>)
    requires
        base.len() > 0,
        !is_absolute(tail),
    ensures
        components(joined(base, tail)) == components(base) + split_on(tail, '/').filter(
            entry_filter(),
        ),
{
    let empty = Seq::<char>::empty();
    let pred = entry_filter();
    let whole = joined(base, tail);
    let dir = if base.last() == '/' {
        base.drop_last()
    } else {
        base
    };
    assert(whole == dir.push('/') + tail) by {
        if base.last() == '/' {
            assert(dir.push('/') == base);
        }
    }
    lemma_split_concat(dir, tail, '/');
    lemma_split_nonempty(dir, '/');
    let a = split_on(dir, '/');
    let b = split_on(tail, '/');
    Seq::filter_distributes_over_add(a, b, pred);
    if base.last() == '/' {
        assert(split_on(base, '/') == a.push(empty));
        assert(a.push(empty) == a + seq![empty]);
        Seq::filter_distributes_over_add(a, seq![empty], pred);
        assert(seq![empty].filter(pred) == Seq::<Seq<char>>::empty()) by {
            reveal(Seq::filter);
            let none = Seq::<Seq<char>>::empty();
            assert(seq![empty].drop_last() == none);
            assert(none.filter(pred) == none);
            assert(!names_entry(seq![empty].last()));
        }
        assert(split_on(base, '/').filter(pred) == a.filter(pred));
        assert(split_on(base, '/')[0] == a[0]);
    }
    assert(whole[0] == base[0]);
    assert(split_on(whole, '/')[0] == a[0]);
    assert(path_lead(whole) == path_lead(base));
    assert(components(whole) == path_lead(base) + (a.filter(pred) + b.filter(pred)));
    assert(components(whole) == components(base) + b.filter(pred));
}

/// Whether a text names one entry of a directory, and not the directory above.
pub open spec fn is_name(s: Seq<char>) -> bool {
    names_entry(s) && s != seq!['.', '.'] && !s.contains('/')
}

/// A name adds itself to the components of the directory that it is seen from.
pub proof fn lemma_joined_name(base: Seq<char>, name: Seq<char>)
    requires
        base.len() > 0,
        is_name(name),
    ensures
        components(joined(base, name)) == components(base).push(name),
        joined(base, name).len() > 0,
{
    assert(!is_absolute(name)) by {
        if is_absolute(name) {
            assert(name[0] == '/');
        }
    }
    lemma_joined_components(base, name);
    lemma_split_single(name, '/');
    assert(seq![name].filter(entry_filter()) == seq![name]) by {
        reveal(Seq::filter);
        assert(seq![name].drop_last() == Seq::<Seq<char>>::empty());
    }
    assert(components(base) + seq![name] == components(base).push(name));
}

/// Whether a path starts at the root.
pub fn absolute(p: &str) -> (r: bool)
    ensures
        r == is_absolute(p@),
{
    let chars = chars_of(p);
    chars.len() > 0 && chars[0] == '/'
}

/// `tail` seen from the directory `base`.
pub fn path_join(base: &str, tail: &str) -> (r: String)
    ensures
        r@ == joined(base@, tail@),
{
    if absolute(tail) {
        return tail.to_owned();
    }
    let chars = chars_of(base);
    let n: usize = chars.len();
    if n == 0 || chars[n - 1] == '/' {
        concat2(base, tail)
    } else {
        let mut r = base.to_owned();
        r.push('/');
        r.append(tail);
        r
    }
}

/// The components of a path.
pub fn path_components(p: &str) -> (r: Vec<String>)
    ensures
        texts(r@) == components(p@),
{
    let pieces = split(p, '/');
    let ghost all = split_on(p@, '/');
    proof {
        reveal(Seq::filter);
        lemma_split_nonempty(p@, '/');
        reveal_strlit("/");
        reveal_strlit(".");
        assert("/"@ =~= seq!['/']);
        assert("."@ =~= seq!['.']);
        assert(texts(pieces@).len() == pieces@.len());
        assert(pieces@[0]@ == all[0]);
    }
    let mut r: Vec<String> = Vec::new();
    if absolute(p) {
        r.push("/".to_owned());
    } else if same_text(pieces[0].as_str(), ".") {
        r.push(".".to_owned());
    }
    assert(texts(r@) =~= path_lead(p@));
    let mut i: usize = 0;
    assert(all.take(0).filter(entry_filter()) =~= Seq::<Seq<char>>::empty());
    assert(path_lead(p@) + Seq::<Seq<char>>::empty() =~= path_lead(p@));
    while i < pieces.len()
        invariant
            i <= pieces@.len(),
            texts(pieces@) == all,
            "."@ == seq!['.'],
            texts(r@) == path_lead(p@) + all.take(i as int).filter(entry_filter()),
        decreases pieces@.len() - i,
    {
        let piece = &pieces[i];
        let ghost so_far = texts(r@);
        proof {
            reveal(Seq::filter);
            assert(piece@ == all[i as int]);
            assert(all.take(i + 1).drop_last() == all.take(i as int));
        }
        if !piece.as_str().is_empty() && !same_text(piece.as_str(), ".") {
            r.push(piece.clone());
            assert(texts(r@) == so_far.push(piece@));
            assert(texts(r@) =~= path_lead(p@) + all.take(i as int).filter(entry_filter()).push(
                piece@,
            ));
        }
        i = i + 1;
    }
    assert(all.take(all.len() as int) == all);
    r
}

/// Whether two lists of strings hold the same texts.
pub fn same_texts(a: &Vec<String>, b: &Vec<String>) -> (r: bool)
    ensures
        r == (texts(a@) == texts(b@)),
{
    if a.len() != b.len() {
        assert(texts(a@).len() != texts(b@).len());
        return false;
    }
    starts_with_texts(a, b)
}

/// Whether a list of strings starts with the items of another.
pub fn starts_with_texts(list: &Vec<String>, start: &Vec<String>) -> (r: bool)
    ensures
        r == texts(start@).is_prefix_of(texts(list@)),
        list@.len() == start@.len() ==> r == (texts(list@) == texts(start@)),
{
    if start.len() > list.len() {
        return false;
    }
    let mut i: usize = 0;
    while i < start.len()
        invariant
            i <= start@.len() <= list@.len(),
            forall|j: int| 0 <= j < i ==> (#[trigger] list@[j])@ == start@[j]@,
        decreases start@.len() - i,
    {
        if !same_text(list[i].as_str(), start[i].as_str()) {
            assert(texts(list@)[i as int] != texts(start@)[i as int]);
            assert(texts(list@).subrange(0, start@.len() as int)[i as int] == texts(
                list@,
            )[i as int]);
            return false;
        }
        i = i + 1;
    }
    assert forall|j: int| 0 <= j < start@.len() implies texts(list@)[j] == texts(start@)[j] by {
        assert(list@[j]@ == start@[j]@);
    }
    assert(texts(start@) =~= texts(list@).subrange(0, start@.len() as int));
    assert(list@.len() == start@.len() ==> texts(list@) =~= texts(start@));
    true
}

/// Whether the path `p` lies at or below the path `base`.
pub fn path_starts_with(p: &str, base: &str) -> (r: bool)
    ensures
        r == components(base@).is_prefix_of(components(p@)),
{
    starts_with_texts(&path_components(p), &path_components(base))
}

/// Whether two paths have the same components.
pub fn same_path(a: &str, b: &str) -> (r: bool)
    ensures
        r == (components(a@) == components(b@)),
{
    same_texts(&path_components(a), &path_components(b))
}

/// Whether a path has a component that goes one directory up.
pub fn goes_up(p: &str) -> (r: bool)
    ensures
        r == components(p@).contains(seq!['.', '.']),
{
    let parts = path_components(p);
    proof {
        reveal_strlit("..");
        assert(".."@ =~= seq!['.', '.']);
    }
    let mut i: usize = 0;
    while i < parts.len()
        invariant
            i <= parts@.len(),
            ".."@ == seq!['.', '.'],
            texts(parts@) == components(p@),
            forall|j: int| 0 <= j < i ==> components(p@)[j] != seq!['.', '.'],
        decreases parts@.len() - i,
    {
        if same_text(parts[i].as_str(), "..") {
            assert(components(p@)[i as int] == seq!['.', '.']);
            return true;
        }
        assert(components(p@)[i as int] == parts@[i as int]@);
        i = i + 1;
    }
    assert(texts(parts@).len() == parts@.len());
    false
}

/// The directory of a path: the shortest beginning that has all its
/// components but the last. A path without components and the root have none.
pub fn path_parent(p: &str) -> (r: Option<String>)
    ensures
        match r {
            Some(q) => parent_of(p@) == Some(q@) && is_parent(p@, q@),
            None => !has_parent(p@),
        },
        r is None <==> parent_of(p@) is None,
{
    let parts = path_components(p);
    let n: usize = parts.len();
    proof {
        reveal_strlit("/");
        assert("/"@ =~= seq!['/']);
        assert(texts(parts@).len() == n);
    }
    if n == 0 {
        return None;
    }
    if n == 1 && same_text(parts[0].as_str(), "/") {
        assert(components(p@) =~= seq![seq!['/']]);
        return None;
    }
    assert(has_parent(p@)) by {
        if components(p@) == seq![seq!['/']] {
            assert(components(p@).len() == 1);
            assert(parts@[0]@ == components(p@)[0]);
        }
    }
    let mut wanted: Vec<String> = Vec::new();
    let mut j: usize = 0;
    while j < n - 1
        invariant
            1 <= n == parts@.len(),
            j <= n - 1,
            texts(parts@) == components(p@),
            texts(wanted@) == components(p@).take(j as int),
        decreases n - 1 - j,
    {
        let ghost so_far = texts(wanted@);
        wanted.push(parts[j].clone());
        assert(texts(wanted@) == so_far.push(parts@[j as int]@));
        assert(components(p@).take(j + 1) == components(p@).take(j as int).push(
            components(p@)[j as int],
        ));
        assert(parts@[j as int]@ == components(p@)[j as int]);
        j = j + 1;
    }
    assert(components(p@).take(n - 1) == components(p@).drop_last());
    let ghost witness = lemma_parent_exists(p@);
    let chars = chars_of(p);
    let mut k: usize = 0;
    while k <= chars.len()
        invariant
            chars@ == p@,
            has_parent(p@),
            texts(wanted@) == components(p@).drop_last(),
            k <= chars@.len() + 1,
            0 <= witness <= p@.len(),
            components(p@.take(witness)) == components(p@).drop_last(),
            forall|m: int|
                0 <= m < k ==> components(#[trigger] p@.take(m)) != components(p@).drop_last(),
        decreases chars@.len() + 1 - k,
    {
        let q = text_of(&chars, 0, k);
        assert(q@ == p@.take(k as int));
        if same_texts(&path_components(q.as_str()), &wanted) {
            proof {
                assert(is_parent(p@, q@)) by {
                    assert forall|m: int| 0 <= m < q@.len() implies components(
                        #[trigger] p@.take(m),
                    ) != components(p@).drop_last() by {}
                }
                let chosen = choose|c: Seq<char>| is_parent(p@, c);
                lemma_parent_unique(p@, q@, chosen);
            }
            return Some(q);
        }
        if k == chars.len() {
            assert(components(p@.take(witness)) != components(p@).drop_last());
            return None;
        }
        k = k + 1;
    }
    None
}

} // verus!
