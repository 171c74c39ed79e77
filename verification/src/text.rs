//! Texts as sequences of characters: conversion to and from strings,
//! splitting, white space and trimming.

use vstd::prelude::*;
use vstd::std_specs::iter::IteratorSpec;

verus! {

/// What std's `String::push` does, taken from its documentation and not
/// proved here: the string afterwards is the string before with `ch` at its
/// end.
pub assume_specification[ String::push ](s: &mut String, ch: char)
    ensures
        final(s)@ == old(s)@.push(ch),
;

/// The characters of `s`, in order.
pub fn chars_of(s: &str) -> (out: Vec<char>)
    ensures
        out@ == s@,
{
    let mut out: Vec<char> = Vec::new();
    let mut it = s.chars();
    loop
        invariant
            out@ + it.remaining() == s@,
            it.decrease() is Some,
        ensures
            out@ == s@,
        decreases it.decrease()->0,
    {
        match it.next() {
            Some(c) => {
                out.push(c);
            },
            None => {
                assert(out@ =~= s@);
                break;
            },
        }
    }
    out
}

/// The string made of the characters `chars[from..to]`.
pub fn string_of(chars: &Vec<char>, from: usize, to: usize) -> (out: String)
    requires
        from <= to <= chars.len(),
    ensures
        out@ == chars@.subrange(from as int, to as int),
{
    let mut out = String::new();
    let mut i: usize = from;
    while i < to
        invariant
            from <= i <= to <= chars.len(),
            out@ == chars@.subrange(from as int, i as int),
        decreases to - i,
    {
        out.push(chars[i]);
        i += 1;
        assert(out@ =~= chars@.subrange(from as int, i as int));
    }
    out
}

/// The views of a list of character vectors.
pub open spec fn views(v: Seq<Vec<char>>) -> Seq<Seq<char>> {
    Seq::new(v.len(), |i: int| v[i]@)
}

/// The pieces of `s[start..]` between occurrences of `sep`, where
/// `s[start..i]` holds no `sep`.
pub open spec fn split_from(s: Seq<char>, sep: char, start: int, i: int) -> Seq<Seq<char>>
    decreases s.len() - i,
{
    if i < 0 || i >= s.len() {
        seq![s.subrange(start, s.len() as int)]
    } else if s[i] == sep {
        seq![s.subrange(start, i)] + split_from(s, sep, i + 1, i + 1)
    } else {
        split_from(s, sep, start, i + 1)
    }
}

/// The pieces of `s` between occurrences of `sep`: one more than there are
/// occurrences, empty pieces included.
pub open spec fn split(s: Seq<char>, sep: char) -> Seq<Seq<char>> {
    split_from(s, sep, 0, 0)
}

/// Splits `s` at every occurrence of `sep`.
pub fn split_chars(s: &Vec<char>, sep: char) -> (out: Vec<Vec<char>>)
    ensures
        views(out@) == split(s@, sep),
{
    let mut out: Vec<Vec<char>> = Vec::new();
    let mut cur: Vec<char> = Vec::new();
    let ghost mut start: int = 0;
    let mut i: usize = 0;
    while i < s.len()
        invariant
            0 <= start <= i <= s.len(),
            cur@ == s@.subrange(start, i as int),
            split(s@, sep) == views(out@) + split_from(s@, sep, start, i as int),
        decreases s.len() - i,
    {
        if s[i] == sep {
            let ghost before = views(out@);
            out.push(cur);
            assert(views(out@) =~= before + seq![s@.subrange(start, i as int)]);
            assert(split(s@, sep) =~= views(out@) + split_from(s@, sep, i + 1, i + 1));
            cur = Vec::new();
            proof {
                start = i + 1;
            }
            assert(cur@ =~= s@.subrange(start, i + 1));
        } else {
            cur.push(s[i]);
            assert(cur@ =~= s@.subrange(start, i + 1));
        }
        i += 1;
    }
    let ghost before = views(out@);
    out.push(cur);
    assert(views(out@) =~= before + seq![s@.subrange(start, s@.len() as int)]);
    out
}

/// White space as Unicode defines it (the property `White_Space`).
pub open spec fn is_space(c: char) -> bool {
    let n = c as u32;
    ||| 0x09 <= n <= 0x0d
    ||| n == 0x20
    ||| n == 0x85
    ||| n == 0xa0
    ||| n == 0x1680
    ||| 0x2000 <= n <= 0x200a
    ||| n == 0x2028
    ||| n == 0x2029
    ||| n == 0x202f
    ||| n == 0x205f
    ||| n == 0x3000
}

/// Whether `c` is white space.
pub fn space(c: char) -> (r: bool)
    ensures
        r == is_space(c),
{
    let n: u32 = c as u32;
    (0x09 <= n && n <= 0x0d) || n == 0x20 || n == 0x85 || n == 0xa0 || n == 0x1680 || (0x2000 <= n
        && n <= 0x200a) || n == 0x2028 || n == 0x2029 || n == 0x202f || n == 0x205f || n
        == 0x3000
}

/// Whether `s` is made of white space only.
pub open spec fn all_spaces(s: Seq<char>) -> bool {
    forall|i: int| 0 <= i < s.len() ==> is_space(#[trigger] s[i])
}

/// The first index at or after `i` that holds no white space, or the length
/// of `s`.
pub open spec fn after_spaces(s: Seq<char>, i: int) -> int
    decreases s.len() - i,
{
    if i < 0 || i >= s.len() {
        s.len() as int
    } else if is_space(s[i]) {
        after_spaces(s, i + 1)
    } else {
        i
    }
}

/// The end of the last stretch of `s[..j]` that is no trailing white space.
pub open spec fn before_spaces(s: Seq<char>, j: int) -> int
    decreases j,
{
    if j <= 0 || j > s.len() {
        0
    } else if is_space(s[j - 1]) {
        before_spaces(s, j - 1)
    } else {
        j
    }
}

/// The first index at or after `i` that holds `c`, or the length of `s`.
pub open spec fn index_of(s: Seq<char>, c: char, i: int) -> int
    decreases s.len() - i,
{
    if i < 0 || i >= s.len() {
        s.len() as int
    } else if s[i] == c {
        i
    } else {
        index_of(s, c, i + 1)
    }
}

/// `s` without leading and trailing white space.
pub open spec fn trim(s: Seq<char>) -> Seq<char> {
    let a = after_spaces(s, 0);
    let b = before_spaces(s, s.len() as int);
    if a < b {
        s.subrange(a, b)
    } else {
        Seq::empty()
    }
}

/// What `after_spaces` gives: white space before it, none at it.
pub proof fn lemma_after_spaces(s: Seq<char>, i: int)
    requires
        0 <= i <= s.len(),
    ensures
        i <= after_spaces(s, i) <= s.len(),
        after_spaces(s, i) < s.len() ==> !is_space(s[after_spaces(s, i)]),
        forall|j: int| i <= j < after_spaces(s, i) ==> is_space(#[trigger] s[j]),
    decreases s.len() - i,
{
    if i < s.len() && is_space(s[i]) {
        lemma_after_spaces(s, i + 1);
    }
}

/// What `before_spaces` gives: white space from it on, none before it.
pub proof fn lemma_before_spaces(s: Seq<char>, j: int)
    requires
        0 <= j <= s.len(),
    ensures
        0 <= before_spaces(s, j) <= j,
        before_spaces(s, j) > 0 ==> !is_space(s[before_spaces(s, j) - 1]),
        forall|k: int| before_spaces(s, j) <= k < j ==> is_space(#[trigger] s[k]),
    decreases j,
{
    if j > 0 && is_space(s[j - 1]) {
        lemma_before_spaces(s, j - 1);
    }
}

/// What `index_of` gives: the first place of `c` at or after `i`.
pub proof fn lemma_index_of(s: Seq<char>, c: char, i: int)
    requires
        0 <= i <= s.len(),
    ensures
        i <= index_of(s, c, i) <= s.len(),
        index_of(s, c, i) < s.len() ==> s[index_of(s, c, i)] == c,
        forall|j: int| i <= j < index_of(s, c, i) ==> #[trigger] s[j] != c,
    decreases s.len() - i,
{
    if i < s.len() && s[i] != c {
        lemma_index_of(s, c, i + 1);
    }
}

/// Trimming takes white space, and nothing else, from both ends: `s` is
/// white space, then `trim(s)`, then white space, and `trim(s)` neither
/// starts nor ends with white space.
pub proof fn lemma_trim(s: Seq<char>)
    ensures
        exists|before: Seq<char>, after: Seq<char>|
            #![trigger before + trim(s) + after]
            s == before + trim(s) + after && all_spaces(before) && all_spaces(after),
        trim(s).len() > 0 ==> !is_space(trim(s)[0]) && !is_space(trim(s).last()),
{
    let a = after_spaces(s, 0);
    let b = before_spaces(s, s.len() as int);
    lemma_after_spaces(s, 0);
    lemma_before_spaces(s, s.len() as int);
    if a < b {
        let before = s.subrange(0, a);
        let after = s.subrange(b, s.len() as int);
        assert(s =~= before + trim(s) + after);
        assert(all_spaces(before) && all_spaces(after));
    } else {
        let before = s;
        let after = Seq::<char>::empty();
        assert(s =~= before + trim(s) + after);
        assert forall|i: int| 0 <= i < s.len() implies is_space(#[trigger] s[i]) by {
            if i < a {
            } else {
                assert(b <= i);
            }
        }
        assert(all_spaces(before) && all_spaces(after));
    }
}

/// The pieces with `sep` between each two of them.
pub open spec fn join(pieces: Seq<Seq<char>>, sep: char) -> Seq<char>
    decreases pieces.len(),
{
    if pieces.len() == 0 {
        Seq::empty()
    } else if pieces.len() == 1 {
        pieces[0]
    } else {
        pieces[0] + seq![sep] + join(pieces.drop_first(), sep)
    }
}

/// Splitting loses nothing: the pieces hold no `sep`, there is at least
/// one, and with `sep` between them they are the text again.
pub proof fn lemma_split_from(s: Seq<char>, sep: char, start: int, i: int)
    requires
        0 <= start <= i <= s.len(),
        forall|j: int| start <= j < i ==> #[trigger] s[j] != sep,
    ensures
        split_from(s, sep, start, i).len() >= 1,
        join(split_from(s, sep, start, i), sep) == s.subrange(start, s.len() as int),
        forall|k: int|
            0 <= k < split_from(s, sep, start, i).len() ==> !(#[trigger] split_from(
                s,
                sep,
                start,
                i,
            )[k]).contains(sep),
    decreases s.len() - i,
{
    let pieces = split_from(s, sep, start, i);
    if i >= s.len() {
    } else if s[i] == sep {
        lemma_split_from(s, sep, i + 1, i + 1);
        let rest = split_from(s, sep, i + 1, i + 1);
        assert(pieces.drop_first() =~= rest);
        assert(join(pieces, sep) =~= s.subrange(start, s.len() as int));
        assert forall|k: int| 0 <= k < pieces.len() implies !(#[trigger] pieces[k]).contains(
            sep,
        ) by {
            if k > 0 {
                assert(pieces[k] == rest[k - 1]);
            }
        }
    } else {
        lemma_split_from(s, sep, start, i + 1);
    }
}

/// Splitting a text and joining the pieces gives the text.
pub proof fn lemma_split_join(s: Seq<char>, sep: char)
    ensures
        join(split(s, sep), sep) == s,
        forall|k: int| 0 <= k < split(s, sep).len() ==> !(#[trigger] split(s, sep)[k]).contains(sep),
{
    lemma_split_from(s, sep, 0, 0);
    assert(s.subrange(0, s.len() as int) =~= s);
}

/// The first index at or after `i` that holds no white space.
pub fn skip_spaces(s: &Vec<char>, i: usize) -> (j: usize)
    requires
        i <= s.len(),
    ensures
        j == after_spaces(s@, i as int),
        i <= j <= s.len(),
{
    let mut j: usize = i;
    while j < s.len() && space(s[j])
        invariant
            i <= j <= s.len(),
            after_spaces(s@, i as int) == after_spaces(s@, j as int),
        decreases s.len() - j,
    {
        j += 1;
    }
    j
}

/// The first index at or after `i` that holds `c`.
pub fn find_char(s: &Vec<char>, c: char, i: usize) -> (j: usize)
    requires
        i <= s.len(),
    ensures
        j == index_of(s@, c, i as int),
        i <= j <= s.len(),
{
    let mut j: usize = i;
    while j < s.len() && s[j] != c
        invariant
            i <= j <= s.len(),
            index_of(s@, c, i as int) == index_of(s@, c, j as int),
        decreases s.len() - j,
    {
        j += 1;
    }
    j
}

/// A copy of `s[from..to]`.
pub fn slice_of(s: &Vec<char>, from: usize, to: usize) -> (out: Vec<char>)
    requires
        from <= to <= s.len(),
    ensures
        out@ == s@.subrange(from as int, to as int),
{
    let mut out: Vec<char> = Vec::new();
    let mut i: usize = from;
    while i < to
        invariant
            from <= i <= to <= s.len(),
            out@ == s@.subrange(from as int, i as int),
        decreases to - i,
    {
        out.push(s[i]);
        i += 1;
        assert(out@ =~= s@.subrange(from as int, i as int));
    }
    out
}

/// `s` without leading and trailing white space.
pub fn trim_chars(s: &Vec<char>) -> (out: Vec<char>)
    ensures
        out@ == trim(s@),
{
    let a = skip_spaces(s, 0);
    let mut b: usize = s.len();
    while b > 0 && space(s[b - 1])
        invariant
            b <= s.len(),
            before_spaces(s@, s@.len() as int) == before_spaces(s@, b as int),
        decreases b,
    {
        b -= 1;
    }
    if a < b {
        slice_of(s, a, b)
    } else {
        Vec::new()
    }
}

} // verus!
