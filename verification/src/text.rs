//! Operations on text, stated over sequences of characters.

pub mod laws;

use vstd::prelude::*;
use vstd::slice::slice_subrange;

verus! {

/// `String::push` appends one character to the end of the string.
pub assume_specification[ String::push ](s: &mut String, c: char)
    ensures
        final(s)@ == old(s)@.push(c),
;

// ---------------------------------------------------------------------------
// Characters
// ---------------------------------------------------------------------------

/// The characters with the Unicode property `White_Space`.
#[verifier::opaque]
pub open spec fn is_white_space(c: char) -> bool {
    let n = c as u32;
    ||| 0x9 <= n <= 0xd
    ||| n == 0x20
    ||| n == 0x85
    ||| n == 0xa0
    ||| n == 0x1680
    ||| 0x2000 <= n <= 0x200a
    ||| n == 0x2028
    ||| n == 0x2029
    ||| n == 0x202f
    ||| n == 0x205f
    ||| n == 0x3000
}

/// The characters of the Unicode category `Cc`.
pub open spec fn is_control(c: char) -> bool {
    let n = c as u32;
    n <= 0x1f || 0x7f <= n <= 0x9f
}

/// The decimal digits of ASCII.
pub open spec fn is_digit(c: char) -> bool {
    '0' as u32 <= c as u32 <= '9' as u32
}

/// The hexadecimal digits of ASCII, in either case.
pub open spec fn is_hex_digit(c: char) -> bool {
    let n = c as u32;
    ||| is_digit(c)
    ||| 'a' as u32 <= n <= 'f' as u32
    ||| 'A' as u32 <= n <= 'F' as u32
}

/// An ASCII capital becomes its small letter; any other character stays.
pub open spec fn lower_char(c: char) -> char {
    if 'A' as u32 <= c as u32 <= 'Z' as u32 {
        ((c as u32 + 32) as u32) as char
    } else {
        c
    }
}

pub fn char_is_white_space(c: char) -> (r: bool)
    ensures
        r == is_white_space(c),
{
    reveal(is_white_space);
    let n: u32 = c as u32;
    (0x9 <= n && n <= 0xd) || n == 0x20 || n == 0x85 || n == 0xa0 || n == 0x1680 || (0x2000 <= n
        && n <= 0x200a) || n == 0x2028 || n == 0x2029 || n == 0x202f || n == 0x205f || n == 0x3000
}

pub fn char_is_control(c: char) -> (r: bool)
    ensures
        r == is_control(c),
{
    let n: u32 = c as u32;
    n <= 0x1f || (0x7f <= n && n <= 0x9f)
}

pub fn char_is_hex_digit(c: char) -> (r: bool)
    ensures
        r == is_hex_digit(c),
{
    let n: u32 = c as u32;
    (0x30 <= n && n <= 0x39) || (0x61 <= n && n <= 0x66) || (0x41 <= n && n <= 0x46)
}

pub fn char_to_lower(c: char) -> (r: char)
    ensures
        r == lower_char(c),
{
    let n: u32 = c as u32;
    if 0x41 <= n && n <= 0x5a {
        (n as u8 + 32) as char
    } else {
        c
    }
}

// ---------------------------------------------------------------------------
// From and to strings
// ---------------------------------------------------------------------------

/// The texts that a sequence of strings holds.
pub open spec fn texts(v: Seq<String>) -> Seq<Seq<char>> {
    v.map_values(|s: String| s@)
}

/// The text that an optional string holds.
pub open spec fn opt_text(o: Option<String>) -> Option<Seq<char>> {
    match o {
        Some(s) => Some(s@),
        None => None,
    }
}

pub fn chars_of(s: &str) -> (r: Vec<char>)
    ensures
        r@ == s@,
{
    let mut r: Vec<char> = Vec::new();
    for c in it: s.chars()
        invariant
            it.seq() == s@,
            r@ == s@.take(it.index() as int),
    {
        r.push(c);
        assert(s@.take(it.index() as int).push(c) =~= s@.take(it.index() as int + 1));
    }
    assert(s@.take(s@.len() as int) =~= s@);
    r
}

pub fn string_of(chars: &[char]) -> (r: String)
    ensures
        r@ == chars@,
{
    let mut r = String::new();
    let mut i: usize = 0;
    while i < chars.len()
        invariant
            i <= chars@.len(),
            r@ == chars@.take(i as int),
        decreases chars@.len() - i,
    {
        r.push(chars[i]);
        i += 1;
        assert(chars@.take(i as int - 1).push(chars@[i as int - 1]) =~= chars@.take(i as int));
    }
    assert(chars@.take(chars@.len() as int) =~= chars@);
    r
}

/// The string that holds `chars[from..to]`.
pub fn slice_of(chars: &Vec<char>, from: usize, to: usize) -> (r: String)
    requires
        from <= to <= chars@.len(),
    ensures
        r@ == chars@.subrange(from as int, to as int),
{
    string_of(slice_subrange(chars.as_slice(), from, to))
}


pub fn str_eq(a: &str, b: &str) -> (r: bool)
    ensures
        r == (a@ == b@),
{
    let x = chars_of(a);
    let y = chars_of(b);
    chars_eq(x.as_slice(), y.as_slice())
}

fn chars_eq(x: &[char], y: &[char]) -> (r: bool)
    ensures
        r == (x@ == y@),
{
    if x.len() != y.len() {
        return false;
    }
    let mut i: usize = 0;
    while i < x.len()
        invariant
            x@.len() == y@.len(),
            i <= x@.len(),
            forall|j: int| 0 <= j < i ==> x@[j] == y@[j],
        decreases x@.len() - i,
    {
        if x[i] != y[i] {
            return false;
        }
        i += 1;
    }
    assert(x@ =~= y@);
    true
}

pub fn list_contains(list: &Vec<String>, value: &str) -> (r: bool)
    ensures
        r == texts(list@).contains(value@),
{
    let mut i: usize = 0;
    while i < list.len()
        invariant
            i <= list@.len(),
            forall|j: int| 0 <= j < i ==> texts(list@)[j] != value@,
        decreases list@.len() - i,
    {
        if str_eq(list[i].as_str(), value) {
            assert(texts(list@)[i as int] == value@);
            return true;
        }
        i += 1;
    }
    assert(!texts(list@).contains(value@));
    false
}

/// A list with the same texts.
pub fn list_clone(list: &Vec<String>) -> (r: Vec<String>)
    ensures
        r@ == list@,
{
    let mut r: Vec<String> = Vec::new();
    let mut i: usize = 0;
    while i < list.len()
        invariant
            i <= list@.len(),
            r@ == list@.take(i as int),
        decreases list@.len() - i,
    {
        r.push(list[i].clone());
        i += 1;
        assert(r@ =~= list@.take(i as int));
    }
    assert(list@.take(list@.len() as int) =~= list@);
    r
}

/// Adds a text to a list.
pub fn push_text(list: &mut Vec<String>, s: &str)
    ensures
        texts(final(list)@) == texts(old(list)@).push(s@),
{
    let ghost before = list@;
    list.push(s.to_owned());
    assert(texts(list@) =~= texts(before).push(s@));
}

pub fn opt_clone(o: &Option<String>) -> (r: Option<String>)
    ensures
        r == *o,
{
    match o {
        Some(s) => Some(s.clone()),
        None => None,
    }
}

// ---------------------------------------------------------------------------
// Searching
// ---------------------------------------------------------------------------

/// The first position, from `from` on, at which `pat` stands in `s`.
pub open spec fn find_from(s: Seq<char>, pat: Seq<char>, from: int) -> Option<int>
    decreases s.len() + 1 - from,
{
    if from < 0 || from + pat.len() > s.len() {
        None
    } else if s.subrange(from, from + pat.len()) == pat {
        Some(from)
    } else {
        find_from(s, pat, from + 1)
    }
}

/// The first position at which `pat` stands in `s`.
pub open spec fn find(s: Seq<char>, pat: Seq<char>) -> Option<int> {
    find_from(s, pat, 0)
}

pub open spec fn starts_with(s: Seq<char>, pat: Seq<char>) -> bool {
    pat.len() <= s.len() && s.take(pat.len() as int) == pat
}

pub open spec fn ends_with(s: Seq<char>, pat: Seq<char>) -> bool {
    pat.len() <= s.len() && s.skip(s.len() - pat.len()) == pat
}

pub open spec fn strip_prefix(s: Seq<char>, pat: Seq<char>) -> Option<Seq<char>> {
    if starts_with(s, pat) {
        Some(s.skip(pat.len() as int))
    } else {
        None
    }
}

pub open spec fn strip_suffix(s: Seq<char>, pat: Seq<char>) -> Option<Seq<char>> {
    if ends_with(s, pat) {
        Some(s.take(s.len() - pat.len()))
    } else {
        None
    }
}

/// The first position, from `from` on, of the character `c`.
pub open spec fn find_char_from(s: Seq<char>, c: char, from: int) -> Option<int>
    decreases s.len() - from,
{
    if from < 0 || from >= s.len() {
        None
    } else if s[from] == c {
        Some(from)
    } else {
        find_char_from(s, c, from + 1)
    }
}

/// The last position of the character `c` before `end`.
pub open spec fn rfind_char_before(s: Seq<char>, c: char, end: int) -> Option<int>
    decreases end,
{
    if end <= 0 || end > s.len() {
        None
    } else if s[end - 1] == c {
        Some(end - 1)
    } else {
        rfind_char_before(s, c, end - 1)
    }
}

pub open spec fn split_once(s: Seq<char>, sep: char) -> Option<(Seq<char>, Seq<char>)> {
    match find_char_from(s, sep, 0) {
        Some(i) => Some((s.take(i), s.skip(i + 1))),
        None => None,
    }
}

pub open spec fn rsplit_once(s: Seq<char>, sep: char) -> Option<(Seq<char>, Seq<char>)> {
    match rfind_char_before(s, sep, s.len() as int) {
        Some(i) => Some((s.take(i), s.skip(i + 1))),
        None => None,
    }
}

/// The pieces of `s[from..]` between the separators: always one more than
/// there are separators.
pub open spec fn split_from(s: Seq<char>, sep: char, from: int) -> Seq<Seq<char>>
    decreases s.len() - from,
{
    match find_char_from(s, sep, from) {
        Some(i) => if from <= i < s.len() {
            seq![s.subrange(from, i)] + split_from(s, sep, i + 1)
        } else {
            seq![]
        },
        None => seq![s.skip(from)],
    }
}

/// The pieces of `s` between the separators.
pub open spec fn split(s: Seq<char>, sep: char) -> Seq<Seq<char>> {
    split_from(s, sep, 0)
}

pub proof fn find_char_in_range(s: Seq<char>, c: char, from: int)
    ensures
        find_char_from(s, c, from) matches Some(i) ==> from <= i < s.len() && 0 <= i && s[i] == c
            && forall|j: int| from <= j < i ==> s[j] != c,
        find_char_from(s, c, from) is None && 0 <= from ==> forall|j: int|
            from <= j < s.len() ==> s[j] != c,
    decreases s.len() - from,
{
    if from < 0 || from >= s.len() || s[from] == c {
    } else {
        find_char_in_range(s, c, from + 1);
    }
}

fn chars_find(s: &[char], pat: &[char], from: usize) -> (r: Option<usize>)
    requires
        from <= s@.len(),
    ensures
        match r {
            Some(i) => find_from(s@, pat@, from as int) == Some(i as int) && from <= i && i
                + pat@.len() <= s@.len(),
            None => find_from(s@, pat@, from as int) is None,
        },
{
    let mut i: usize = from;
    while pat.len() <= s.len() - i
        invariant
            from <= i <= s@.len(),
            find_from(s@, pat@, from as int) == find_from(s@, pat@, i as int),
        decreases s@.len() - i,
    {
        if chars_eq(slice_subrange(s, i, i + pat.len()), pat) {
            return Some(i);
        }
        if i == s.len() {
            assert(s@.subrange(i as int, i as int) =~= pat@);
            return None;
        }
        i += 1;
    }
    None
}

/// The position is counted in characters.
pub fn str_find(s: &str, pat: &str) -> (r: Option<usize>)
    ensures
        match r {
            Some(i) => find(s@, pat@) == Some(i as int),
            None => find(s@, pat@) is None,
        },
{
    let x = chars_of(s);
    let p = chars_of(pat);
    chars_find(x.as_slice(), p.as_slice(), 0)
}

pub fn str_contains(s: &str, pat: &str) -> (r: bool)
    ensures
        r == (find(s@, pat@) is Some),
{
    str_find(s, pat).is_some()
}

pub fn str_starts_with(s: &str, pat: &str) -> (r: bool)
    ensures
        r == starts_with(s@, pat@),
{
    let x = chars_of(s);
    let p = chars_of(pat);
    if p.len() > x.len() {
        return false;
    }
    assert(x@.subrange(0, p@.len() as int) =~= x@.take(p@.len() as int));
    chars_eq(slice_subrange(x.as_slice(), 0, p.len()), p.as_slice())
}

pub fn str_ends_with(s: &str, pat: &str) -> (r: bool)
    ensures
        r == ends_with(s@, pat@),
{
    let x = chars_of(s);
    let p = chars_of(pat);
    if p.len() > x.len() {
        return false;
    }
    let at: usize = x.len() - p.len();
    assert(x@.subrange(at as int, x@.len() as int) =~= x@.skip(at as int));
    chars_eq(slice_subrange(x.as_slice(), at, x.len()), p.as_slice())
}

/// The rest of the string behind its first `n` characters.
pub fn str_skip(s: &str, n: usize) -> (r: String)
    requires
        n <= s@.len(),
    ensures
        r@ == s@.skip(n as int),
{
    let x = chars_of(s);
    assert(x@.subrange(n as int, x@.len() as int) =~= x@.skip(n as int));
    slice_of(&x, n, x.len())
}

/// The first `n` characters of the string.
pub fn str_take(s: &str, n: usize) -> (r: String)
    requires
        n <= s@.len(),
    ensures
        r@ == s@.take(n as int),
{
    let x = chars_of(s);
    assert(x@.subrange(0, n as int) =~= x@.take(n as int));
    slice_of(&x, 0, n)
}

pub fn str_strip_prefix(s: &str, pat: &str) -> (r: Option<String>)
    ensures
        opt_text(r) == strip_prefix(s@, pat@),
{
    if str_starts_with(s, pat) {
        Some(str_skip(s, pat.unicode_len()))
    } else {
        None
    }
}

pub fn str_strip_suffix(s: &str, pat: &str) -> (r: Option<String>)
    ensures
        opt_text(r) == strip_suffix(s@, pat@),
{
    if str_ends_with(s, pat) {
        Some(str_take(s, s.unicode_len() - pat.unicode_len()))
    } else {
        None
    }
}

fn chars_find_char(s: &Vec<char>, c: char, from: usize) -> (r: Option<usize>)
    requires
        from <= s@.len(),
    ensures
        match r {
            Some(i) => find_char_from(s@, c, from as int) == Some(i as int) && from <= i < s@.len(),
            None => find_char_from(s@, c, from as int) is None,
        },
{
    let mut i: usize = from;
    while i < s.len()
        invariant
            from <= i <= s@.len(),
            find_char_from(s@, c, from as int) == find_char_from(s@, c, i as int),
        decreases s@.len() - i,
    {
        if s[i] == c {
            return Some(i);
        }
        i += 1;
    }
    None
}

pub fn str_contains_char(s: &str, c: char) -> (r: bool)
    ensures
        r == s@.contains(c),
{
    let x = chars_of(s);
    proof {
        find_char_in_range(x@, c, 0);
    }
    chars_find_char(&x, c, 0).is_some()
}

pub fn str_split_once(s: &str, sep: char) -> (r: Option<(String, String)>)
    ensures
        match r {
            Some((a, b)) => split_once(s@, sep) == Some((a@, b@)),
            None => split_once(s@, sep) is None,
        },
{
    let x = chars_of(s);
    match chars_find_char(&x, sep, 0) {
        Some(i) => {
            assert(i < x.len());
            assert(x@.subrange(0, i as int) =~= x@.take(i as int));
            assert(x@.subrange(i as int + 1, x@.len() as int) =~= x@.skip(i as int + 1));
            Some((slice_of(&x, 0, i), slice_of(&x, i + 1, x.len())))
        },
        None => None,
    }
}

pub fn str_rsplit_once(s: &str, sep: char) -> (r: Option<(String, String)>)
    ensures
        match r {
            Some((a, b)) => rsplit_once(s@, sep) == Some((a@, b@)),
            None => rsplit_once(s@, sep) is None,
        },
{
    let x = chars_of(s);
    let mut end: usize = x.len();
    while end > 0
        invariant
            x@ == s@,
            end <= x@.len(),
            rfind_char_before(x@, sep, x@.len() as int) == rfind_char_before(x@, sep, end as int),
        decreases end,
    {
        if x[end - 1] == sep {
            let i: usize = end - 1;
            assert(x@.subrange(0, i as int) =~= x@.take(i as int));
            assert(x@.subrange(i as int + 1, x@.len() as int) =~= x@.skip(i as int + 1));
            return Some((slice_of(&x, 0, i), slice_of(&x, i + 1, x.len())));
        }
        end -= 1;
    }
    None
}

pub fn str_split(s: &str, sep: char) -> (r: Vec<String>)
    ensures
        texts(r@) == split(s@, sep),
        r@.len() >= 1,
{
    let x = chars_of(s);
    let mut r: Vec<String> = Vec::new();
    let mut from: usize = 0;
    loop
        invariant
            x@ == s@,
            from <= x@.len(),
            texts(r@) + split_from(s@, sep, from as int) == split(s@, sep),
        decreases x@.len() - from,
    {
        match chars_find_char(&x, sep, from) {
            Some(i) => {
                let ghost before = r@;
                r.push(slice_of(&x, from, i));
                assert(texts(r@) =~= texts(before) + seq![s@.subrange(from as int, i as int)]);
                assert(texts(before) + (seq![s@.subrange(from as int, i as int)] + split_from(
                    s@,
                    sep,
                    i as int + 1,
                )) =~= texts(r@) + split_from(s@, sep, i as int + 1));
                assert(i < x.len());
                from = i + 1;
            },
            None => {
                let ghost before = r@;
                assert(x@.subrange(from as int, x@.len() as int) =~= x@.skip(from as int));
                r.push(slice_of(&x, from, x.len()));
                assert(texts(r@) =~= texts(before) + seq![s@.skip(from as int)]);
                return r;
            },
        }
    }
}

// ---------------------------------------------------------------------------
// Trimming
// ---------------------------------------------------------------------------

/// `s` without the leading characters that `drop` holds of.
pub open spec fn trim_start_where(s: Seq<char>, drop: spec_fn(char) -> bool) -> Seq<char>
    decreases s.len(),
{
    if s.len() > 0 && drop(s[0]) {
        trim_start_where(s.skip(1), drop)
    } else {
        s
    }
}

/// `s` without the trailing characters that `drop` holds of.
pub open spec fn trim_end_where(s: Seq<char>, drop: spec_fn(char) -> bool) -> Seq<char>
    decreases s.len(),
{
    if s.len() > 0 && drop(s.last()) {
        trim_end_where(s.drop_last(), drop)
    } else {
        s
    }
}

/// The test for one character.
pub open spec fn is_char(d: char) -> spec_fn(char) -> bool {
    |c: char| c == d
}

/// The test for white space.
pub open spec fn is_space() -> spec_fn(char) -> bool {
    |c: char| is_white_space(c)
}

/// `s` without white space at either end.
pub open spec fn trim(s: Seq<char>) -> Seq<char> {
    trim_end_where(trim_start_where(s, is_space()), is_space())
}

/// `s` without the character `d` at either end.
pub open spec fn trim_matches(s: Seq<char>, d: char) -> Seq<char> {
    trim_end_where(trim_start_where(s, is_char(d)), is_char(d))
}

/// `s` without the character `d` at its end.
pub open spec fn trim_end_matches(s: Seq<char>, d: char) -> Seq<char> {
    trim_end_where(s, is_char(d))
}

pub fn str_trim(s: &str) -> (r: String)
    ensures
        r@ == trim(s@),
{
    let x = chars_of(s);
    let ghost drop = is_space();
    assert(x@.skip(0) =~= x@);
    let mut from: usize = 0;
    while from < x.len() && char_is_white_space(x[from])
        invariant
            x@ == s@,
            drop == is_space(),
            from <= x@.len(),
            trim_start_where(x@, drop) == trim_start_where(x@.skip(from as int), drop),
        decreases x@.len() - from,
    {
        assert(x@.skip(from as int).skip(1) =~= x@.skip(from as int + 1));
        from += 1;
    }
    let mut to: usize = x.len();
    assert(x@.skip(from as int) =~= x@.subrange(from as int, to as int));
    while to > from && char_is_white_space(x[to - 1])
        invariant
            x@ == s@,
            drop == is_space(),
            from <= to <= x@.len(),
            trim_end_where(x@.skip(from as int), drop) == trim_end_where(
                x@.subrange(from as int, to as int),
                drop,
            ),
        decreases to,
    {
        assert(x@.subrange(from as int, to as int).drop_last() =~= x@.subrange(
            from as int,
            to as int - 1,
        ));
        to -= 1;
    }
    slice_of(&x, from, to)
}

pub fn str_trim_matches(s: &str, d: char) -> (r: String)
    ensures
        r@ == trim_matches(s@, d),
{
    let x = chars_of(s);
    let ghost drop = is_char(d);
    assert(x@.skip(0) =~= x@);
    let mut from: usize = 0;
    while from < x.len() && x[from] == d
        invariant
            x@ == s@,
            drop == is_char(d),
            from <= x@.len(),
            trim_start_where(x@, drop) == trim_start_where(x@.skip(from as int), drop),
        decreases x@.len() - from,
    {
        assert(x@.skip(from as int).skip(1) =~= x@.skip(from as int + 1));
        from += 1;
    }
    assert(x@.skip(from as int) =~= x@.subrange(from as int, x@.len() as int));
    str_trim_end_matches(slice_of(&x, from, x.len()).as_str(), d)
}

pub fn str_trim_end_matches(s: &str, d: char) -> (r: String)
    ensures
        r@ == trim_end_matches(s@, d),
{
    let x = chars_of(s);
    let ghost drop = is_char(d);
    let mut to: usize = x.len();
    assert(x@ =~= x@.subrange(0, to as int));
    while to > 0 && x[to - 1] == d
        invariant
            x@ == s@,
            drop == is_char(d),
            to <= x@.len(),
            trim_end_where(x@, drop) == trim_end_where(x@.subrange(0, to as int), drop),
        decreases to,
    {
        assert(x@.subrange(0, to as int).drop_last() =~= x@.subrange(0, to as int - 1));
        to -= 1;
    }
    slice_of(&x, 0, to)
}

/// White space stands somewhere in `s`.
pub open spec fn has_white_space(s: Seq<char>) -> bool {
    exists|i: int| 0 <= i < s.len() && is_white_space(#[trigger] s[i])
}

pub fn str_has_white_space(s: &str) -> (r: bool)
    ensures
        r == has_white_space(s@),
{
    let x = chars_of(s);
    let mut i: usize = 0;
    while i < x.len()
        invariant
            x@ == s@,
            i <= x@.len(),
            forall|j: int| 0 <= j < i ==> !is_white_space(#[trigger] s@[j]),
        decreases x@.len() - i,
    {
        if char_is_white_space(x[i]) {
            assert(is_white_space(s@[i as int]));
            return true;
        }
        i += 1;
    }
    false
}

// ---------------------------------------------------------------------------
// Case
// ---------------------------------------------------------------------------

/// `s` with ASCII capitals turned into small letters.
pub open spec fn lower(s: Seq<char>) -> Seq<char> {
    s.map_values(|c: char| lower_char(c))
}

pub fn str_to_lower(s: &str) -> (r: String)
    ensures
        r@ == lower(s@),
{
    let x = chars_of(s);
    let mut r = String::new();
    let mut i: usize = 0;
    while i < x.len()
        invariant
            x@ == s@,
            i <= x@.len(),
            r@ == lower(s@).take(i as int),
        decreases x@.len() - i,
    {
        r.push(char_to_lower(x[i]));
        i += 1;
        assert(r@ =~= lower(s@).take(i as int));
    }
    assert(lower(s@).take(i as int) =~= lower(s@));
    r
}

pub fn str_eq_ignore_case(a: &str, b: &str) -> (r: bool)
    ensures
        r == (lower(a@) == lower(b@)),
{
    str_eq(str_to_lower(a).as_str(), str_to_lower(b).as_str())
}

// ---------------------------------------------------------------------------
// Words and lines
// ---------------------------------------------------------------------------

/// The end of the word that stands in `s` at `from`.
pub open spec fn word_end(s: Seq<char>, from: int) -> int
    decreases s.len() - from,
{
    if from < 0 || from >= s.len() || is_white_space(s[from]) {
        from
    } else {
        word_end(s, from + 1)
    }
}

/// The words of `s[from..]`: the pieces between white space that are not
/// empty.
pub open spec fn words_from(s: Seq<char>, from: int) -> Seq<Seq<char>>
    decreases s.len() - from,
{
    if from < 0 || from >= s.len() {
        seq![]
    } else if is_white_space(s[from]) {
        words_from(s, from + 1)
    } else {
        let end = word_end(s, from);
        if from < end <= s.len() {
            seq![s.subrange(from, end)] + words_from(s, end)
        } else {
            seq![]
        }
    }
}

pub open spec fn words(s: Seq<char>) -> Seq<Seq<char>> {
    words_from(s, 0)
}

pub fn str_words(s: &str) -> (r: Vec<String>)
    ensures
        texts(r@) == words(s@),
{
    let x = chars_of(s);
    let mut r: Vec<String> = Vec::new();
    let mut from: usize = 0;
    assert(texts(r@) + words(s@) =~= words(s@));
    while from < x.len()
        invariant
            x@ == s@,
            from <= x@.len(),
            texts(r@) + words_from(s@, from as int) == words(s@),
        decreases x@.len() - from,
    {
        if char_is_white_space(x[from]) {
            from += 1;
        } else {
            let mut end: usize = from;
            while end < x.len() && !char_is_white_space(x[end])
                invariant
                    x@ == s@,
                    from <= end <= x@.len(),
                    from < x@.len(),
                    !is_white_space(x@[from as int]),
                    word_end(s@, from as int) == word_end(s@, end as int),
                decreases x@.len() - end,
            {
                end += 1;
            }
            assert(word_end(s@, from as int) == end);
            let ghost before = r@;
            r.push(slice_of(&x, from, end));
            assert(texts(r@) =~= texts(before) + seq![s@.subrange(from as int, end as int)]);
            assert(texts(before) + (seq![s@.subrange(from as int, end as int)] + words_from(
                s@,
                end as int,
            )) =~= texts(r@) + words_from(s@, end as int));
            from = end;
        }
    }
    assert(texts(r@) + words_from(s@, from as int) =~= texts(r@));
    r
}

/// A line without the carriage return of its end.
pub open spec fn chop(s: Seq<char>) -> Seq<char> {
    if s.len() > 0 && s.last() == '\r' {
        s.drop_last()
    } else {
        s
    }
}

/// The lines of `s[from..]`. A line ends with a line feed, which a carriage
/// return may precede; the end of the last line may be missing.
pub open spec fn lines_from(s: Seq<char>, from: int) -> Seq<Seq<char>>
    decreases s.len() - from,
{
    if from < 0 || from >= s.len() {
        seq![]
    } else {
        match find_char_from(s, '\n', from) {
            Some(i) => if from <= i < s.len() {
                seq![chop(s.subrange(from, i))] + lines_from(s, i + 1)
            } else {
                seq![]
            },
            None => seq![s.skip(from)],
        }
    }
}

pub open spec fn lines(s: Seq<char>) -> Seq<Seq<char>> {
    lines_from(s, 0)
}

pub fn str_lines(s: &str) -> (r: Vec<String>)
    ensures
        texts(r@) == lines(s@),
{
    let x = chars_of(s);
    let mut r: Vec<String> = Vec::new();
    let mut from: usize = 0;
    assert(texts(r@) + lines(s@) =~= lines(s@));
    while from < x.len()
        invariant
            x@ == s@,
            from <= x@.len(),
            texts(r@) + lines_from(s@, from as int) == lines(s@),
        decreases x@.len() - from,
    {
        let ghost before = r@;
        match chars_find_char(&x, '\n', from) {
            Some(i) => {
                let to: usize = if i > from && x[i - 1] == '\r' {
                    i - 1
                } else {
                    i
                };
                let ghost line = chop(s@.subrange(from as int, i as int));
                assert(s@.subrange(from as int, to as int) =~= line);
                r.push(slice_of(&x, from, to));
                assert(texts(r@) =~= texts(before) + seq![line]);
                assert(texts(before) + (seq![line] + lines_from(s@, i as int + 1)) =~= texts(r@)
                    + lines_from(s@, i as int + 1));
                assert(i < x.len());
                from = i + 1;
            },
            None => {
                assert(x@.subrange(from as int, x@.len() as int) =~= x@.skip(from as int));
                r.push(slice_of(&x, from, x.len()));
                assert(texts(r@) =~= texts(before) + seq![s@.skip(from as int)]);
                from = x.len();
                assert(texts(r@) + lines_from(s@, from as int) =~= texts(r@));
            },
        }
    }
    assert(texts(r@) + lines_from(s@, from as int) =~= texts(r@));
    r
}

// ---------------------------------------------------------------------------
// Joining, quoting, ordering
// ---------------------------------------------------------------------------

/// The parts one after another, with `sep` between two of them.
pub open spec fn join(parts: Seq<Seq<char>>, sep: Seq<char>) -> Seq<char>
    decreases parts.len(),
{
    if parts.len() == 0 {
        seq![]
    } else if parts.len() == 1 {
        parts[0]
    } else {
        join(parts.drop_last(), sep) + sep + parts.last()
    }
}

pub fn str_join(parts: &Vec<String>, sep: &str) -> (r: String)
    ensures
        r@ == join(texts(parts@), sep@),
{
    let mut r = String::new();
    let mut i: usize = 0;
    while i < parts.len()
        invariant
            i <= parts@.len(),
            r@ == join(texts(parts@).take(i as int), sep@),
        decreases parts@.len() - i,
    {
        if i > 0 {
            r.append(sep);
        }
        r.append(parts[i].as_str());
        i += 1;
        let ghost now = texts(parts@).take(i as int);
        assert(now.drop_last() =~= texts(parts@).take(i as int - 1));
        assert(now.last() == parts@[i as int - 1]@);
        if i == 1 {
            assert(r@ =~= now[0]);
        }
    }
    assert(texts(parts@).take(i as int) =~= texts(parts@));
    r
}

/// What `{:?}` prints of a text: the text in double quotes, with escapes for
/// the characters that do not print as they are.
pub uninterp spec fn debug_text(s: Seq<char>) -> Seq<char>;

/// `format!` with `{:?}` on a `str`. The escapes follow tables of Unicode, so
/// the result is only named: the same text is always printed the same way.
#[verifier::external_body]
pub(crate) fn str_debug(s: &str) -> (r: String)
    ensures
        r@ == debug_text(s@),
{
    format!("{:?}", s)
}

/// `a` stands before `b`, or is `b`, in the order of their code points. This is
/// the order of their UTF-8 bytes too.
pub open spec fn text_le(a: Seq<char>, b: Seq<char>) -> bool
    decreases a.len(),
{
    if a.len() == 0 {
        true
    } else if b.len() == 0 {
        false
    } else if a[0] == b[0] {
        text_le(a.skip(1), b.skip(1))
    } else {
        (a[0] as int) < (b[0] as int)
    }
}

pub proof fn text_le_total(a: Seq<char>, b: Seq<char>)
    ensures
        text_le(a, b) || text_le(b, a),
    decreases a.len(),
{
    if a.len() > 0 && b.len() > 0 && a[0] == b[0] {
        text_le_total(a.skip(1), b.skip(1));
    }
}

pub proof fn text_le_transitive(a: Seq<char>, b: Seq<char>, c: Seq<char>)
    requires
        text_le(a, b),
        text_le(b, c),
    ensures
        text_le(a, c),
    decreases a.len(),
{
    if a.len() > 0 && b.len() > 0 && c.len() > 0 && a[0] == b[0] && b[0] == c[0] {
        text_le_transitive(a.skip(1), b.skip(1), c.skip(1));
    }
}

pub proof fn text_le_antisymmetric(a: Seq<char>, b: Seq<char>)
    requires
        text_le(a, b),
        text_le(b, a),
    ensures
        a == b,
    decreases a.len(),
{
    if a.len() > 0 && b.len() > 0 {
        text_le_antisymmetric(a.skip(1), b.skip(1));
        assert(a =~= seq![a[0]] + a.skip(1));
        assert(b =~= seq![b[0]] + b.skip(1));
    } else {
        assert(a =~= b);
    }
}

pub fn str_le(a: &str, b: &str) -> (r: bool)
    ensures
        r == text_le(a@, b@),
{
    let x = chars_of(a);
    let y = chars_of(b);
    let mut i: usize = 0;
    assert(x@.skip(0) =~= x@);
    assert(y@.skip(0) =~= y@);
    while i < x.len() && i < y.len()
        invariant
            x@ == a@,
            y@ == b@,
            i <= x@.len(),
            i <= y@.len(),
            text_le(a@, b@) == text_le(x@.skip(i as int), y@.skip(i as int)),
        decreases x@.len() - i,
    {
        let m: char = x[i];
        let n: char = y[i];
        if m != n {
            return m < n;
        }
        assert(x@.skip(i as int).skip(1) =~= x@.skip(i as int + 1));
        assert(y@.skip(i as int).skip(1) =~= y@.skip(i as int + 1));
        i += 1;
    }
    i == x.len()
}

// ---------------------------------------------------------------------------
// Laws
// ---------------------------------------------------------------------------

proof fn found_from(s: Seq<char>, pat: Seq<char>, from: int)
    requires
        0 <= from,
    ensures
        find_from(s, pat, from) matches Some(i) ==> from <= i <= s.len() - pat.len() && s.subrange(
            i,
            i + pat.len(),
        ) == pat && forall|j: int| from <= j < i ==> #[trigger] s.subrange(j, j + pat.len()) != pat,
        find_from(s, pat, from) is None ==> forall|j: int|
            from <= j <= s.len() - pat.len() ==> #[trigger] s.subrange(j, j + pat.len()) != pat,
    decreases s.len() + 1 - from,
{
    if from + pat.len() <= s.len() && s.subrange(from, from + pat.len()) != pat {
        found_from(s, pat, from + 1);
    }
}

/// A text is found at the first place where it stands, and not found exactly where
/// it stands nowhere.
pub proof fn found_where_it_stands(s: Seq<char>, pat: Seq<char>)
    ensures
        find(s, pat) matches Some(i) ==> 0 <= i <= s.len() - pat.len() && s.subrange(
            i,
            i + pat.len(),
        ) == pat && forall|j: int| 0 <= j < i ==> #[trigger] s.subrange(j, j + pat.len()) != pat,
        find(s, pat) is Some <==> exists|i: int|
            0 <= i <= s.len() - pat.len() && #[trigger] s.subrange(i, i + pat.len()) == pat,
{
    found_from(s, pat, 0);
}

/// Lower case changes the capitals of ASCII, and nothing else.
pub proof fn lower_case_changes_capitals(s: Seq<char>, i: int)
    requires
        0 <= i < s.len(),
    ensures
        lower(s).len() == s.len(),
        0x41 <= s[i] as u32 <= 0x5a ==> lower(s)[i] as u32 == s[i] as u32 + 0x20,
        !(0x41 <= s[i] as u32 <= 0x5a) ==> lower(s)[i] == s[i],
{
}

/// A text before another is, up to the first place where they differ, the same,
/// and has the smaller character there or ends there.
pub proof fn texts_are_ordered_by_their_first_difference(a: Seq<char>, b: Seq<char>, k: int)
    requires
        0 <= k <= a.len(),
        k <= b.len(),
        a.take(k) == b.take(k),
    ensures
        k == a.len() ==> text_le(a, b),
        k == b.len() && k < a.len() ==> !text_le(a, b),
        k < a.len() && k < b.len() && (a[k] as int) < (b[k] as int) ==> text_le(a, b),
        k < a.len() && k < b.len() && (a[k] as int) > (b[k] as int) ==> !text_le(a, b),
    decreases k,
{
    if k > 0 {
        assert(a[0] == a.take(k)[0]);
        assert(b[0] == b.take(k)[0]);
        assert(a.skip(1).take(k - 1) =~= a.take(k).skip(1));
        assert(b.skip(1).take(k - 1) =~= b.take(k).skip(1));
        texts_are_ordered_by_their_first_difference(a.skip(1), b.skip(1), k - 1);
    }
}

} // verus!
