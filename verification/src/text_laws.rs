//! What holds of the text operations, in terms of the texts alone.

use vstd::prelude::*;

use crate::log_output::number_of;
use crate::text::{
    decimal, digit, find_from, is_space, join_with, lemma_split_concat, lemma_split_nonempty,
    lemma_split_single, lines_of, signed_decimal, split_on, split_once_at, stands_at, trimmed,
    trimmed_end, trimmed_start, without_prefix, words_of,
};

verus! {

/// A text without separator is one piece; what stands before the first
/// separator is the first piece, and the other pieces are those of the rest.
pub proof fn law_pieces_stand_between_separators(first: Seq<char>, rest: Seq<char>, sep: char)
    requires
        !first.contains(sep),
    ensures
        split_on(first, sep) == seq![first],
        split_on(first + seq![sep] + rest, sep) == seq![first] + split_on(rest, sep),
{
    lemma_split_single(first, sep);
    lemma_split_concat(first, rest, sep);
    assert(first + seq![sep] + rest =~= first.push(sep) + rest);
}

/// A single item is joined to itself, and two lists are joined with the
/// separator between them.
pub proof fn law_lists_are_joined(a: Seq<Seq<char>>, b: Seq<Seq<char>>, sep: Seq<char>)
    requires
        a.len() > 0,
        b.len() > 0,
    ensures
        join_with(Seq::empty(), sep) == Seq::<char>::empty(),
        a.len() == 1 ==> join_with(a, sep) == a[0],
        join_with(a + b, sep) == join_with(a, sep) + sep + join_with(b, sep),
    decreases b.len(),
{
    assert((a + b).drop_last() =~= a + b.drop_last());
    assert((a + b).last() == b.last());
    if b.len() == 1 {
        assert(a + b.drop_last() =~= a);
    } else {
        law_lists_are_joined(a, b.drop_last(), sep);
        let x = join_with(a, sep);
        let y = join_with(b.drop_last(), sep);
        assert(x + sep + y + sep + b.last() =~= x + sep + (y + sep + b.last()));
    }
}

/// Taking a prefix off undoes putting it in front, and there is nothing to take
/// off where it does not stand in front.
pub proof fn law_prefix_is_taken_off(s: Seq<char>, prefix: Seq<char>, rest: Seq<char>)
    ensures
        without_prefix(prefix + rest, prefix) == Some(rest),
        without_prefix(s, prefix) == Some(rest) <==> s == prefix + rest,
        without_prefix(s, prefix) is None <==> s.len() < prefix.len() || s.take(
            prefix.len() as int,
        ) != prefix,
{
    let whole = prefix + rest;
    assert(whole.subrange(0, prefix.len() as int) =~= prefix);
    assert(whole.skip(prefix.len() as int) =~= rest);
    if prefix.is_prefix_of(s) {
        assert(s =~= prefix + s.skip(prefix.len() as int));
        assert(s.take(prefix.len() as int) =~= prefix);
    } else if s.len() >= prefix.len() {
        assert(s.take(prefix.len() as int) =~= s.subrange(0, prefix.len() as int));
    }
}

/// A position that is found is the first one.
proof fn lemma_find_from(s: Seq<char>, pattern: Seq<char>, from: int)
    requires
        0 <= from,
    ensures
        match find_from(s, pattern, from) {
            Some(i) => from <= i && stands_at(s, pattern, i) && forall|k: int|
                from <= k < i ==> !#[trigger] stands_at(s, pattern, k),
            None => forall|k: int| from <= k ==> !#[trigger] stands_at(s, pattern, k),
        },
    decreases s.len() + 1 - from,
{
    if from <= s.len() && !stands_at(s, pattern, from) {
        lemma_find_from(s, pattern, from + 1);
    }
}

/// A text is parted at the first place where the pattern stands, and only if
/// there is one.
pub proof fn law_text_is_parted_at_the_first_pattern(s: Seq<char>, pattern: Seq<char>, at: int)
    ensures
        match split_once_at(s, pattern) {
            Some((left, right)) => s == left + pattern + right && (0 <= at < left.len() ==> s.subrange(
                at,
                at + pattern.len(),
            ) != pattern),
            None => 0 <= at && at + pattern.len() <= s.len() ==> s.subrange(
                at,
                at + pattern.len(),
            ) != pattern,
        },
{
    lemma_find_from(s, pattern, 0);
    if let Some(i) = find_from(s, pattern, 0) {
        assert(s =~= s.take(i) + pattern + s.skip(i + pattern.len())) by {
            assert(s.subrange(i, i + pattern.len()) == pattern);
            assert forall|k: int| 0 <= k < s.len() implies s[k] == (s.take(i) + pattern + s.skip(
                i + pattern.len(),
            ))[k] by {
                if i <= k < i + pattern.len() {
                    assert(s.subrange(i, i + pattern.len())[k - i] == s[k]);
                }
            }
        }
        if 0 <= at < i {
            assert(!stands_at(s, pattern, at));
        }
    } else if 0 <= at && at + pattern.len() <= s.len() {
        assert(!stands_at(s, pattern, at));
    }
}

/// White space is what Unicode calls so.
pub proof fn law_white_space(c: char)
    ensures
        is_space(c) <==> {
            ||| c == '\t' || c == '\n' || c == '\u{b}' || c == '\u{c}' || c == '\r' || c == ' '
            ||| c == '\u{85}' || c == '\u{a0}' || c == '\u{1680}'
            ||| '\u{2000}' <= c <= '\u{200a}'
            ||| c == '\u{2028}' || c == '\u{2029}' || c == '\u{202f}' || c == '\u{205f}'
            ||| c == '\u{3000}'
        },
{
}

/// A text that ends in no white space has a word.
proof fn lemma_has_word(s: Seq<char>)
    requires
        s.len() > 0,
        !is_space(s.last()),
    ensures
        words_of(s).len() > 0,
    decreases s.len(),
{
    if s.len() > 1 && !is_space(s[s.len() - 2]) {
        lemma_has_word(s.drop_last());
    }
}

/// Words stand between white space: a text without any is one word, an empty
/// one has none, and white space parts the words before it from those behind it.
pub proof fn law_words_stand_between_spaces(a: Seq<char>, b: Seq<char>, space: char)
    requires
        is_space(space),
    ensures
        words_of(Seq::empty()) == Seq::<Seq<char>>::empty(),
        words_of(a + seq![space] + b) == words_of(a) + words_of(b),
        a.len() > 0 && (forall|i: int| 0 <= i < a.len() ==> !is_space(#[trigger] a[i]))
            ==> words_of(a) == seq![a],
    decreases a.len() + b.len(),
{
    lemma_words_concat(a, b, space);
    if a.len() > 0 && (forall|i: int| 0 <= i < a.len() ==> !is_space(#[trigger] a[i])) {
        lemma_one_word(a);
    }
}

/// A text without white space is one word.
proof fn lemma_one_word(a: Seq<char>)
    requires
        a.len() > 0,
        forall|i: int| 0 <= i < a.len() ==> !is_space(#[trigger] a[i]),
    ensures
        words_of(a) == seq![a],
    decreases a.len(),
{
    assert(!is_space(a[a.len() - 1]));
    if a.len() == 1 {
        assert(words_of(a.drop_last()) =~= Seq::<Seq<char>>::empty());
        assert(seq![a.last()] =~= a);
        assert(words_of(a) =~= seq![a]);
    } else {
        let shorter = a.drop_last();
        assert forall|i: int| 0 <= i < shorter.len() implies !is_space(#[trigger] shorter[i]) by {
            assert(shorter[i] == a[i]);
        }
        lemma_one_word(shorter);
        assert(!is_space(a[a.len() - 2]));
        assert(seq![shorter].drop_last() =~= Seq::<Seq<char>>::empty());
        assert(shorter.push(a.last()) =~= a);
        assert(words_of(a) =~= seq![a]);
    }
}

/// White space parts words.
proof fn lemma_words_concat(a: Seq<char>, b: Seq<char>, space: char)
    requires
        is_space(space),
    ensures
        words_of(a + seq![space] + b) == words_of(a) + words_of(b),
    decreases b.len(),
{
    let whole = a + seq![space] + b;
    let none = Seq::<Seq<char>>::empty();
    if b.len() == 0 {
        assert(whole.last() == space);
        assert(whole.drop_last() =~= a);
        assert(words_of(b) =~= none);
        assert(words_of(a) + none =~= words_of(a));
    } else {
        let shorter = b.drop_last();
        lemma_words_concat(a, shorter, space);
        assert(whole.drop_last() =~= a + seq![space] + shorter);
        assert(whole.last() == b.last());
        let x = words_of(a);
        let y = words_of(shorter);
        if !is_space(b.last()) {
            if b.len() == 1 {
                assert(whole[whole.len() - 2] == space);
                assert(y =~= none);
                assert(x + none =~= x);
                assert(x.push(seq![b.last()]) =~= x + words_of(b)) by {
                    assert(words_of(b) =~= seq![seq![b.last()]]);
                }
            } else {
                assert(whole[whole.len() - 2] == b[b.len() - 2]);
                if is_space(b[b.len() - 2]) {
                    assert((x + y).push(seq![b.last()]) =~= x + y.push(seq![b.last()]));
                } else {
                    assert(shorter.last() == b[b.len() - 2]);
                    lemma_has_word(shorter);
                    let grown = y.last().push(b.last());
                    assert((x + y).drop_last() =~= x + y.drop_last());
                    assert((x + y).last() == y.last());
                    assert((x + y.drop_last()).push(grown) =~= x + y.drop_last().push(grown));
                }
            }
        }
    }
}

/// Trimming the start takes off what is white space, and no more.
proof fn lemma_trimmed_start(before: Seq<char>, rest: Seq<char>)
    requires
        forall|i: int| 0 <= i < before.len() ==> is_space(#[trigger] before[i]),
        rest.len() > 0 ==> !is_space(rest[0]),
    ensures
        trimmed_start(before + rest) == rest,
    decreases before.len(),
{
    let whole = before + rest;
    if before.len() == 0 {
        assert(whole =~= rest);
    } else {
        assert(whole[0] == before[0]);
        assert(whole.skip(1) =~= before.skip(1) + rest);
        assert forall|i: int| 0 <= i < before.skip(1).len() implies is_space(
            #[trigger] before.skip(1)[i],
        ) by {
            assert(before.skip(1)[i] == before[i + 1]);
        }
        lemma_trimmed_start(before.skip(1), rest);
    }
}

/// Trimming the end takes off what is white space, and no more.
proof fn lemma_trimmed_end(rest: Seq<char>, after: Seq<char>)
    requires
        forall|i: int| 0 <= i < after.len() ==> is_space(#[trigger] after[i]),
        rest.len() > 0 ==> !is_space(rest.last()),
    ensures
        trimmed_end(rest + after) == rest,
    decreases after.len(),
{
    let whole = rest + after;
    if after.len() == 0 {
        assert(whole =~= rest);
    } else {
        assert(whole.last() == after[after.len() - 1]);
        assert(whole.drop_last() =~= rest + after.drop_last());
        assert forall|i: int| 0 <= i < after.drop_last().len() implies is_space(
            #[trigger] after.drop_last()[i],
        ) by {
            assert(after.drop_last()[i] == after[i]);
        }
        lemma_trimmed_end(rest, after.drop_last());
    }
}

/// Trimming takes off the white space at both ends, and nothing else.
pub proof fn law_trimming_takes_off_white_space(
    before: Seq<char>,
    middle: Seq<char>,
    after: Seq<char>,
)
    requires
        forall|i: int| 0 <= i < before.len() ==> is_space(#[trigger] before[i]),
        forall|i: int| 0 <= i < after.len() ==> is_space(#[trigger] after[i]),
        middle.len() > 0 ==> !is_space(middle[0]) && !is_space(middle.last()),
    ensures
        trimmed(before + middle + after) == middle,
{
    let whole = before + middle + after;
    if middle.len() == 0 {
        let none = Seq::<char>::empty();
        let all = before + after;
        assert(whole =~= all + none);
        assert forall|i: int| 0 <= i < all.len() implies is_space(#[trigger] all[i]) by {
            if i < before.len() {
                assert(all[i] == before[i]);
            } else {
                assert(all[i] == after[i - before.len()]);
            }
        }
        lemma_trimmed_start(all, none);
        lemma_trimmed_end(none, none);
        assert(none + none =~= none);
        assert(middle =~= none);
    } else {
        assert(whole =~= before + (middle + after));
        assert((middle + after)[0] == middle[0]);
        lemma_trimmed_start(before, middle + after);
        lemma_trimmed_end(middle, after);
    }
}

/// Lines end in line feeds: the first line is what stands before the first one,
/// without the carriage return at its end, and the other lines are those of the
/// rest. A last line need not end in a line feed; after one there is no further
/// line.
pub proof fn law_lines_end_in_line_feeds(first: Seq<char>, rest: Seq<char>)
    requires
        !first.contains('\n'),
    ensures
        lines_of(Seq::empty()) == Seq::<Seq<char>>::empty(),
        first.len() > 0 ==> lines_of(first) == seq![first],
        lines_of(first + seq!['\n'] + rest) == seq![
            if first.len() > 0 && first.last() == '\r' {
                first.drop_last()
            } else {
                first
            },
        ] + lines_of(rest),
{
    law_pieces_stand_between_separators(first, rest, '\n');
    lemma_split_nonempty(rest, '\n');
    let pieces = split_on(rest, '\n');
    let all = seq![first] + pieces;
    let none = Seq::<char>::empty();
    lemma_split_single(none, '\n');
    assert(lines_of(none) =~= Seq::<Seq<char>>::empty());
    if first.len() > 0 {
        assert(lines_of(first) =~= seq![first]);
    }
    assert(all.last() == pieces.last());
    assert(all.drop_last() =~= seq![first] + pieces.drop_last());
    let line = if first.len() > 0 && first.last() == '\r' {
        first.drop_last()
    } else {
        first
    };
    assert(lines_of(first + seq!['\n'] + rest) =~= seq![line] + lines_of(rest));
}

/// The number that decimal digits stand for.
pub open spec fn digits_value(digits: Seq<char>) -> int
    decreases digits.len(),
{
    if digits.len() == 0 {
        0
    } else {
        digits_value(digits.drop_last()) * 10 + (digits.last() as int - '0' as int)
    }
}

/// Whether a text consists of decimal digits.
pub open spec fn all_digits(s: Seq<char>) -> bool {
    s.len() > 0 && forall|i: int| 0 <= i < s.len() ==> '0' <= #[trigger] s[i] <= '9'
}

/// A number is written in digits that stand for it, without zeros in front; a
/// negative one has a minus sign before them.
pub proof fn law_numbers_are_written_in_digits(n: nat)
    ensures
        all_digits(decimal(n)),
        digits_value(decimal(n)) == n,
        n > 0 ==> decimal(n)[0] != '0',
        signed_decimal(n as int) == decimal(n),
        n > 0 ==> signed_decimal(-n) == seq!['-'] + decimal(n),
    decreases n,
{
    reveal_strlit("-");
    assert("-"@ =~= seq!['-']);
    let last = digit((n % 10) as int);
    assert('0' <= last <= '9');
    assert(last as int - '0' as int == n % 10);
    let none = Seq::<char>::empty();
    if n < 10 {
        assert(decimal(n) =~= none.push(last));
        assert(decimal(n).drop_last() =~= none);
        assert(digits_value(none) == 0);
    } else {
        law_numbers_are_written_in_digits(n / 10);
        let all = decimal(n);
        assert(all.drop_last() =~= decimal(n / 10));
        assert forall|i: int| 0 <= i < all.len() implies '0' <= #[trigger] all[i] <= '9' by {
            if i < all.len() - 1 {
                assert(all[i] == decimal(n / 10)[i]);
            }
        }
    }
}

/// What digits stand for is never negative.
proof fn lemma_digits_value(s: Seq<char>)
    requires
        forall|i: int| 0 <= i < s.len() ==> '0' <= #[trigger] s[i] <= '9',
    ensures
        digits_value(s) >= 0,
    decreases s.len(),
{
    if s.len() > 0 {
        assert('0' <= s[s.len() - 1] <= '9');
        assert forall|i: int| 0 <= i < s.drop_last().len() implies '0' <= #[trigger] s.drop_last()[i]
            <= '9' by {
            assert(s.drop_last()[i] == s[i]);
        }
        lemma_digits_value(s.drop_last());
    }
}

/// A text is read as a number exactly if it consists of digits and the number
/// has 32 bits; and then it is that number.
pub proof fn law_digits_are_read_as_their_number(s: Seq<char>)
    ensures
        number_of(s) is Some <==> all_digits(s) && digits_value(s) <= u32::MAX,
        number_of(s) matches Some(n) ==> n == digits_value(s),
    decreases s.len(),
{
    if s.len() > 0 {
        let before = s.drop_last();
        assert(s.last() == s[s.len() - 1]);
        if s.len() == 1 {
            assert(before =~= Seq::<char>::empty());
            assert(digits_value(before) == 0);
        } else {
            law_digits_are_read_as_their_number(before);
            if all_digits(s) {
                assert forall|i: int| 0 <= i < before.len() implies '0' <= #[trigger] before[i]
                    <= '9' by {
                    assert(before[i] == s[i]);
                }
                lemma_digits_value(before);
            }
            if all_digits(before) && '0' <= s.last() <= '9' {
                assert forall|i: int| 0 <= i < s.len() implies '0' <= #[trigger] s[i] <= '9' by {
                    if i < s.len() - 1 {
                        assert(before[i] == s[i]);
                    }
                }
            }
        }
    }
}

} // verus!
