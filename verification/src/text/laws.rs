//! What cutting a text into pieces leaves of it.

use vstd::prelude::*;
use crate::text::{
    find_char_from, find_char_in_range, is_char, is_space, is_white_space, join, lines, lines_from,
    rfind_char_before, rsplit_once, split, split_from, split_once, starts_with, strip_prefix,
    strip_suffix, trim, trim_end_matches, trim_end_where, trim_matches, trim_start_where, word_end,
    words, words_from,
};

verus! {

// ---------------------------------------------------------------------------
// Pieces between separators
// ---------------------------------------------------------------------------

proof fn join_first(first: Seq<char>, rest: Seq<Seq<char>>, sep: Seq<char>)
    requires
        rest.len() > 0,
    ensures
        join(seq![first] + rest, sep) == first + sep + join(rest, sep),
    decreases rest.len(),
{
    let all = seq![first] + rest;
    assert(all.drop_last() =~= seq![first] + rest.drop_last());
    assert(all.last() == rest.last());
    if rest.len() == 1 {
        assert(all.drop_last() =~= seq![first]);
        assert(join(seq![first], sep) == first);
        assert(join(all, sep) == join(all.drop_last(), sep) + sep + all.last());
        assert(join(rest, sep) == rest[0]);
    } else {
        join_first(first, rest.drop_last(), sep);
        assert(join(all, sep) =~= first + sep + join(rest, sep));
    }
}

proof fn pieces_from(s: Seq<char>, sep: char, from: int)
    requires
        0 <= from <= s.len(),
    ensures
        split_from(s, sep, from).len() >= 1,
        join(split_from(s, sep, from), seq![sep]) == s.skip(from),
        forall|i: int|
            0 <= i < split_from(s, sep, from).len() ==> !(
            #[trigger] split_from(s, sep, from)[i]).contains(sep),
    decreases s.len() - from,
{
    find_char_in_range(s, sep, from);
    let pieces = split_from(s, sep, from);
    match find_char_from(s, sep, from) {
        Some(k) => {
            pieces_from(s, sep, k + 1);
            let rest = split_from(s, sep, k + 1);
            let first = s.subrange(from, k);
            assert(pieces == seq![first] + rest);
            join_first(first, rest, seq![sep]);
            assert(first + seq![sep] + s.skip(k + 1) =~= s.skip(from));
            assert forall|i: int| 0 <= i < pieces.len() implies !(#[trigger] pieces[i]).contains(
                sep,
            ) by {
                if i == 0 {
                    assert(pieces[0] == first);
                } else {
                    assert(pieces[i] == rest[i - 1]);
                }
            }
        },
        None => {
            assert(pieces == seq![s.skip(from)]);
            assert(pieces[0] == s.skip(from));
        },
    }
}

/// The pieces of a text hold no separator, and with the separators between them they
/// are the text.
pub proof fn pieces_make_the_text(s: Seq<char>, sep: char)
    ensures
        split(s, sep).len() >= 1,
        join(split(s, sep), seq![sep]) == s,
        forall|i: int|
            0 <= i < split(s, sep).len() ==> !(#[trigger] split(s, sep)[i]).contains(sep),
{
    pieces_from(s, sep, 0);
    assert(s.skip(0) =~= s);
}

proof fn found_behind(a: Seq<char>, b: Seq<char>, sep: char, from: int)
    requires
        0 <= from <= b.len(),
    ensures
        find_char_from(a + b, sep, a.len() + from) == match find_char_from(b, sep, from) {
            Some(i) => Some(a.len() + i),
            None => None,
        },
    decreases b.len() - from,
{
    if from < b.len() {
        assert((a + b)[a.len() + from] == b[from]);
        if b[from] != sep {
            found_behind(a, b, sep, from + 1);
        }
    }
}

proof fn pieces_behind(a: Seq<char>, b: Seq<char>, sep: char, from: int)
    requires
        0 <= from <= b.len(),
    ensures
        split_from(a + b, sep, a.len() + from) == split_from(b, sep, from),
    decreases b.len() - from,
{
    found_behind(a, b, sep, from);
    find_char_in_range(b, sep, from);
    match find_char_from(b, sep, from) {
        Some(i) => {
            pieces_behind(a, b, sep, i + 1);
            assert((a + b).subrange(a.len() + from, a.len() + i) =~= b.subrange(from, i));
        },
        None => {
            assert((a + b).skip(a.len() + from) =~= b.skip(from));
        },
    }
}

proof fn not_found_in(s: Seq<char>, c: char, from: int, until: int)
    requires
        0 <= from <= until <= s.len(),
        forall|i: int| from <= i < until ==> s[i] != c,
    ensures
        find_char_from(s, c, from) == find_char_from(s, c, until),
    decreases until - from,
{
    if from < until {
        not_found_in(s, c, from + 1, until);
    }
}

/// What stands before a separator is the first piece, and the rest is cut by itself.
pub proof fn pieces_come_one_by_one(first: Seq<char>, rest: Seq<char>, sep: char)
    requires
        !first.contains(sep),
    ensures
        split(first + seq![sep] + rest, sep) == seq![first] + split(rest, sep),
        split(first, sep) == seq![first],
{
    let head = first + seq![sep];
    let s = head + rest;
    assert forall|i: int| 0 <= i < first.len() implies s[i] != sep by {
        assert(s[i] == first[i]);
        assert(first.contains(first[i]));
    }
    assert(s[first.len() as int] == sep);
    not_found_in(s, sep, 0, first.len() as int);
    assert(s.subrange(0, first.len() as int) =~= first);
    pieces_behind(head, rest, sep, 0);
    assert forall|i: int| 0 <= i < first.len() implies first[i] != sep by {
        assert(first.contains(first[i]));
    }
    not_found_in(first, sep, 0, first.len() as int);
    assert(first.skip(0) =~= first);
}

/// A text is cut once at its first separator, or at its last.
pub proof fn texts_are_cut_at_a_separator(s: Seq<char>, sep: char)
    ensures
        match split_once(s, sep) {
            Some((a, b)) => s == a + seq![sep] + b && !a.contains(sep),
            None => !s.contains(sep),
        },
        match rsplit_once(s, sep) {
            Some((a, b)) => s == a + seq![sep] + b && !b.contains(sep),
            None => !s.contains(sep),
        },
{
    find_char_in_range(s, sep, 0);
    last_found(s, sep, s.len() as int);
    if let Some((a, b)) = split_once(s, sep) {
        assert(s =~= a + seq![sep] + b);
    }
    if let Some((a, b)) = rsplit_once(s, sep) {
        assert(s =~= a + seq![sep] + b);
    }
}

proof fn last_found(s: Seq<char>, c: char, end: int)
    requires
        0 <= end <= s.len(),
    ensures
        rfind_char_before(s, c, end) matches Some(i) ==> 0 <= i < end && s[i] == c && forall|j: int|
            i < j < end ==> s[j] != c,
        rfind_char_before(s, c, end) is None ==> forall|j: int| 0 <= j < end ==> s[j] != c,
    decreases end,
{
    if end > 0 && s[end - 1] != c {
        last_found(s, c, end - 1);
    }
}

/// A prefix or a suffix is cut off exactly where the text has it.
pub proof fn ends_are_cut_off(s: Seq<char>, pat: Seq<char>, rest: Seq<char>)
    ensures
        strip_prefix(pat + rest, pat) == Some(rest),
        strip_prefix(s, pat) matches Some(tail) ==> s == pat + tail,
        strip_suffix(rest + pat, pat) == Some(rest),
        strip_suffix(s, pat) matches Some(head) ==> s == head + pat,
        starts_with(pat + rest, pat),
{
    assert((pat + rest).take(pat.len() as int) =~= pat);
    assert((pat + rest).skip(pat.len() as int) =~= rest);
    assert((rest + pat).skip(rest.len() as int) =~= pat);
    assert((rest + pat).take(rest.len() as int) =~= rest);
    if let Some(tail) = strip_prefix(s, pat) {
        assert(s =~= pat + tail);
    }
    if let Some(head) = strip_suffix(s, pat) {
        assert(s =~= head + pat);
    }
}

// ---------------------------------------------------------------------------
// Trimming
// ---------------------------------------------------------------------------

proof fn start_trimmed(s: Seq<char>, drop: spec_fn(char) -> bool) -> (n: int)
    ensures
        0 <= n <= s.len(),
        trim_start_where(s, drop) == s.skip(n),
        forall|i: int| 0 <= i < n ==> drop(#[trigger] s[i]),
        n < s.len() ==> !drop(s[n]),
    decreases s.len(),
{
    if s.len() > 0 && drop(s[0]) {
        let n = start_trimmed(s.skip(1), drop);
        assert(s.skip(1).skip(n) =~= s.skip(n + 1));
        assert forall|i: int| 0 <= i < n + 1 implies drop(#[trigger] s[i]) by {
            if i > 0 {
                assert(s.skip(1)[i - 1] == s[i]);
            }
        }
        if n + 1 < s.len() {
            assert(s.skip(1)[n] == s[n + 1]);
        }
        n + 1
    } else {
        assert(s.skip(0) =~= s);
        0
    }
}

proof fn end_trimmed(s: Seq<char>, drop: spec_fn(char) -> bool) -> (n: int)
    ensures
        0 <= n <= s.len(),
        trim_end_where(s, drop) == s.take(n),
        forall|i: int| n <= i < s.len() ==> drop(#[trigger] s[i]),
        n > 0 ==> !drop(s[n - 1]),
    decreases s.len(),
{
    if s.len() > 0 && drop(s.last()) {
        let n = end_trimmed(s.drop_last(), drop);
        assert(s.drop_last().take(n) =~= s.take(n));
        assert forall|i: int| n <= i < s.len() implies drop(#[trigger] s[i]) by {
            if i < s.len() - 1 {
                assert(s.drop_last()[i] == s[i]);
            }
        }
        n
    } else {
        assert(s.take(s.len() as int) =~= s);
        s.len() as int
    }
}

/// Trimming cuts off white space at both ends, all of it and nothing else.
pub proof fn trimming_cuts_off_white_space(s: Seq<char>) -> (r: (int, int))
    ensures
        0 <= r.0 <= r.1 <= s.len(),
        trim(s) == s.subrange(r.0, r.1),
        forall|i: int|
            0 <= i < r.0 || r.1 <= i < s.len() ==> is_white_space(#[trigger] s[i]),
        trim(s).len() > 0 ==> !is_white_space(trim(s)[0]) && !is_white_space(trim(s).last()),
{
    let a = start_trimmed(s, is_space());
    let t = s.skip(a);
    let n = end_trimmed(t, is_space());
    assert(t.take(n) =~= s.subrange(a, a + n));
    assert forall|i: int| 0 <= i < a || a + n <= i < s.len() implies is_white_space(
        #[trigger] s[i],
    ) by {
        if i < a {
            assert(is_space()(s[i]));
        } else {
            assert(t[i - a] == s[i]);
            assert(is_space()(t[i - a]));
        }
    }
    if n > 0 {
        assert(a < s.len());
        assert(t[0] == s[a]);
        assert(!is_space()(s[a]));
        assert(!is_space()(t[n - 1]));
    }
    (a, a + n)
}

/// A text without white space at its ends is not changed by trimming, nor one without
/// the character by cutting that off.
pub proof fn trimmed_texts_stay(s: Seq<char>, d: char)
    ensures
        s.len() == 0 || (!is_white_space(s[0]) && !is_white_space(s.last())) ==> trim(s) == s,
        s.len() == 0 || (s[0] != d && s.last() != d) ==> trim_matches(s, d) == s,
        s.len() == 0 || s.last() != d ==> trim_end_matches(s, d) == s,
{
    assert(s.len() > 0 ==> is_space()(s[0]) == is_white_space(s[0]));
    assert(s.len() > 0 ==> is_space()(s.last()) == is_white_space(s.last()));
    assert(s.len() > 0 ==> is_char(d)(s[0]) == (s[0] == d));
    assert(s.len() > 0 ==> is_char(d)(s.last()) == (s.last() == d));
}

// ---------------------------------------------------------------------------
// Words
// ---------------------------------------------------------------------------

proof fn word_ends(s: Seq<char>, from: int)
    requires
        0 <= from <= s.len(),
    ensures
        from <= word_end(s, from) <= s.len(),
        forall|i: int| from <= i < word_end(s, from) ==> !is_white_space(#[trigger] s[i]),
        word_end(s, from) < s.len() ==> is_white_space(s[word_end(s, from)]),
    decreases s.len() - from,
{
    if from < s.len() && !is_white_space(s[from]) {
        word_ends(s, from + 1);
    }
}

/// A text that is not empty, without white space.
pub open spec fn is_word(w: Seq<char>) -> bool {
    w.len() > 0 && forall|j: int| 0 <= j < w.len() ==> !is_white_space(#[trigger] w[j])
}

proof fn words_behind(s: Seq<char>, from: int)
    requires
        0 <= from <= s.len(),
    ensures
        forall|i: int|
            0 <= i < words_from(s, from).len() ==> is_word(#[trigger] words_from(s, from)[i]),
    decreases s.len() - from,
{
    if from < s.len() {
        if is_white_space(s[from]) {
            words_behind(s, from + 1);
            assert(words_from(s, from) == words_from(s, from + 1));
        } else {
            word_ends(s, from);
            let end = word_end(s, from);
            assert(from < end) by {
                assert(word_end(s, from) == word_end(s, from + 1));
                word_ends(s, from + 1);
            }
            words_behind(s, end);
            let all = words_from(s, from);
            let rest = words_from(s, end);
            let first = s.subrange(from, end);
            assert(all == seq![first] + rest);
            assert forall|j: int| 0 <= j < first.len() implies !is_white_space(
                #[trigger] first[j],
            ) by {
                assert(first[j] == s[from + j]);
            }
            assert(is_word(first));
            assert forall|i: int| 0 <= i < all.len() implies is_word(#[trigger] all[i]) by {
                if i > 0 {
                    assert(all[i] == rest[i - 1]);
                }
            }
        }
    } else {
        assert(words_from(s, from).len() == 0);
    }
}

/// A word is not empty, and holds no white space.
pub proof fn words_hold_no_white_space(s: Seq<char>, i: int)
    requires
        0 <= i < words(s).len(),
    ensures
        is_word(words(s)[i]),
{
    words_behind(s, 0);
}

proof fn words_shift(a: Seq<char>, b: Seq<char>, from: int)
    requires
        0 <= from <= b.len(),
    ensures
        words_from(a + b, a.len() + from) == words_from(b, from),
        word_end(a + b, a.len() + from) == a.len() + word_end(b, from),
    decreases b.len() - from,
{
    if from < b.len() {
        assert((a + b)[a.len() + from] == b[from]);
        words_shift(a, b, from + 1);
        if !is_white_space(b[from]) {
            word_ends(b, from);
            let end = word_end(b, from);
            assert(from < end) by {
                assert(word_end(b, from) == word_end(b, from + 1));
                word_ends(b, from + 1);
            }
            words_shift(a, b, end);
            assert((a + b).subrange(a.len() + from, a.len() + end) =~= b.subrange(from, end));
        }
    }
}

proof fn word_reaches(s: Seq<char>, from: int, until: int)
    requires
        0 <= from <= until <= s.len(),
        forall|i: int| from <= i < until ==> !is_white_space(#[trigger] s[i]),
        until == s.len() || is_white_space(s[until]),
    ensures
        word_end(s, from) == until,
    decreases until - from,
{
    if from < until {
        word_reaches(s, from + 1, until);
    }
}

/// What stands before white space is the first word, and the rest follows by itself.
pub proof fn words_come_one_by_one(first: Seq<char>, gap: char, rest: Seq<char>)
    requires
        first.len() > 0,
        forall|i: int| 0 <= i < first.len() ==> !is_white_space(#[trigger] first[i]),
        is_white_space(gap),
    ensures
        words(first + seq![gap] + rest) == seq![first] + words(rest),
        words(first) == seq![first],
{
    let head = first + seq![gap];
    let s = head + rest;
    assert forall|i: int| 0 <= i < first.len() implies !is_white_space(#[trigger] s[i]) by {
        assert(s[i] == first[i]);
    }
    assert(s[first.len() as int] == gap);
    word_reaches(s, 0, first.len() as int);
    assert(s.subrange(0, first.len() as int) =~= first);
    words_shift(head, rest, 0);
    assert(words_from(s, first.len() as int) == words_from(s, first.len() as int + 1));
    word_reaches(first, 0, first.len() as int);
    assert(first.subrange(0, first.len() as int) =~= first);
    assert(words_from(first, first.len() as int) =~= seq![]);
    assert(words(first) =~= seq![first]);
}

// ---------------------------------------------------------------------------
// Lines
// ---------------------------------------------------------------------------

proof fn lines_behind(a: Seq<char>, b: Seq<char>, from: int)
    requires
        0 <= from <= b.len(),
    ensures
        lines_from(a + b, a.len() + from) == lines_from(b, from),
    decreases b.len() - from,
{
    found_behind(a, b, '\n', from);
    find_char_in_range(b, '\n', from);
    if from < b.len() {
        match find_char_from(b, '\n', from) {
            Some(i) => {
                lines_behind(a, b, i + 1);
                assert((a + b).subrange(a.len() + from, a.len() + i) =~= b.subrange(from, i));
            },
            None => {
                assert((a + b).skip(a.len() + from) =~= b.skip(from));
            },
        }
    }
}

/// What stands before a line feed is the first line, without a carriage return at its
/// end, and the rest follows by itself.
pub proof fn lines_come_one_by_one(first: Seq<char>, rest: Seq<char>)
    requires
        !first.contains('\n'),
    ensures
        lines(first + seq!['\n'] + rest) == seq![
            if first.len() > 0 && first.last() == '\r' {
                first.drop_last()
            } else {
                first
            },
        ] + lines(rest),
        first.len() > 0 ==> lines(first) == seq![first],
{
    let head = first + seq!['\n'];
    let s = head + rest;
    assert forall|i: int| 0 <= i < first.len() implies s[i] != '\n' by {
        assert(s[i] == first[i]);
        assert(first.contains(first[i]));
    }
    assert(s[first.len() as int] == '\n');
    not_found_in(s, '\n', 0, first.len() as int);
    assert(s.subrange(0, first.len() as int) =~= first);
    lines_behind(head, rest, 0);
    assert forall|i: int| 0 <= i < first.len() implies first[i] != '\n' by {
        assert(first.contains(first[i]));
    }
    not_found_in(first, '\n', 0, first.len() as int);
    assert(first.skip(0) =~= first);
}

} // verus!
