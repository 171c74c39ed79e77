//! The grammar of manifest lines, written out as texts.
//!
//! Each shape of `line` is a function of positions in the line. Here the
//! same shapes are given as the texts they accept, and the two are shown to
//! agree: every text of a shape is read as that shape, and whatever is read
//! as a shape is such a text.

use vstd::prelude::*;
use crate::line::{
    arrow, attribute_shape, is_quote, key_of, keyword, last_quote, module_word,
    next_quote, registry_shape, source_shape, starts_with, value_shape, Attr,
};
use crate::text::{after_spaces, all_spaces, is_space, lemma_after_spaces};

verus! {

/// Whether `s` holds no quote.
pub open spec fn no_quote(s: Seq<char>) -> bool {
    forall|i: int| 0 <= i < s.len() ==> !is_quote(#[trigger] s[i])
}

/// The line `mod`, `gap1`, the name between the quotes `q1` and `q2`, a
/// comma, `gap2`, the version between the quotes `q3` and `q4`, and `rest`.
pub open spec fn registry_text(
    gap1: Seq<char>,
    q1: char,
    name: Seq<char>,
    q2: char,
    gap2: Seq<char>,
    q3: char,
    version: Seq<char>,
    q4: char,
    rest: Seq<char>,
) -> Seq<char> {
    module_word() + gap1 + seq![q1] + name + seq![q2, ','] + gap2 + seq![q3] + version + seq![q4]
        + rest
}

/// What makes the pieces of `registry_text` a registry line: both gaps are
/// white space and not empty, the four marks are quotes, the name is not
/// empty and holds no quote, and `rest` holds no quote, so that the version
/// ends at the last quote of the line.
pub open spec fn registry_pieces(
    gap1: Seq<char>,
    q1: char,
    name: Seq<char>,
    q2: char,
    gap2: Seq<char>,
    q3: char,
    q4: char,
    rest: Seq<char>,
) -> bool {
    &&& gap1.len() > 0
    &&& all_spaces(gap1)
    &&& gap2.len() > 0
    &&& all_spaces(gap2)
    &&& is_quote(q1)
    &&& is_quote(q2)
    &&& is_quote(q3)
    &&& is_quote(q4)
    &&& name.len() > 0
    &&& no_quote(name)
    &&& no_quote(rest)
}

/// Whether `l` is a registry line with this name and this version text.
pub open spec fn is_registry_line(l: Seq<char>, name: Seq<char>, version: Seq<char>) -> bool {
    exists|
        gap1: Seq<char>,
        q1: char,
        q2: char,
        gap2: Seq<char>,
        q3: char,
        q4: char,
        rest: Seq<char>,
    |
        l == #[trigger] registry_text(gap1, q1, name, q2, gap2, q3, version, q4, rest)
            && registry_pieces(gap1, q1, name, q2, gap2, q3, q4, rest)
}

/// The line `mod`, `gap1`, the name between the quotes `q1` and `q2`,
/// `gap2`, and a comma.
pub open spec fn source_text(gap1: Seq<char>, q1: char, name: Seq<char>, q2: char, gap2: Seq<char>) -> Seq<
    char,
> {
    module_word() + gap1 + seq![q1] + name + seq![q2] + gap2 + seq![',']
}

/// What makes the pieces of `source_text` a source-module line: the first
/// gap is white space and not empty, the second is white space, the marks
/// are quotes, and the name is not empty and holds no quote.
pub open spec fn source_pieces(gap1: Seq<char>, q1: char, name: Seq<char>, q2: char, gap2: Seq<char>) -> bool {
    &&& gap1.len() > 0
    &&& all_spaces(gap1)
    &&& all_spaces(gap2)
    &&& is_quote(q1)
    &&& is_quote(q2)
    &&& name.len() > 0
    &&& no_quote(name)
}

/// Whether `l` is a line that opens the source-controlled module `name`.
pub open spec fn is_source_line(l: Seq<char>, name: Seq<char>) -> bool {
    exists|gap1: Seq<char>, q1: char, q2: char, gap2: Seq<char>|
        l == #[trigger] source_text(gap1, q1, name, q2, gap2) && source_pieces(
            gap1,
            q1,
            name,
            q2,
            gap2,
        )
}

/// `after_spaces` is the end of the white space that starts at `i`.
pub proof fn lemma_after_spaces_is(s: Seq<char>, i: int, k: int)
    requires
        0 <= i <= k <= s.len(),
        forall|j: int| i <= j < k ==> is_space(#[trigger] s[j]),
        k < s.len() ==> !is_space(s[k]),
    ensures
        after_spaces(s, i) == k,
    decreases k - i,
{
    if i < k {
        lemma_after_spaces_is(s, i + 1, k);
    }
}

/// `next_quote` is the first quote at or after `i`.
pub proof fn lemma_next_quote_is(s: Seq<char>, i: int, k: int)
    requires
        0 <= i <= k <= s.len(),
        forall|j: int| i <= j < k ==> !is_quote(#[trigger] s[j]),
        k < s.len() ==> is_quote(s[k]),
    ensures
        next_quote(s, i) == k,
    decreases k - i,
{
    if i < k {
        lemma_next_quote_is(s, i + 1, k);
    }
}

/// `last_quote` is the last quote before `j`.
pub proof fn lemma_last_quote_is(s: Seq<char>, j: int, k: int)
    requires
        -1 <= k < j <= s.len(),
        forall|i: int| k < i < j ==> !is_quote(#[trigger] s[i]),
        k >= 0 ==> is_quote(s[k]),
    ensures
        last_quote(s, j) == k,
    decreases j - k,
{
    if k + 1 < j {
        lemma_last_quote_is(s, j - 1, k);
    }
}

/// What `next_quote` gives: no quote before it, a quote at it.
pub proof fn lemma_next_quote(s: Seq<char>, i: int)
    requires
        0 <= i <= s.len(),
    ensures
        i <= next_quote(s, i) <= s.len(),
        next_quote(s, i) < s.len() ==> is_quote(s[next_quote(s, i)]),
        forall|j: int| i <= j < next_quote(s, i) ==> !is_quote(#[trigger] s[j]),
    decreases s.len() - i,
{
    if i < s.len() && !is_quote(s[i]) {
        lemma_next_quote(s, i + 1);
    }
}

/// What `last_quote` gives: a quote at it, none after it.
pub proof fn lemma_last_quote(s: Seq<char>, j: int)
    requires
        0 <= j <= s.len(),
    ensures
        -1 <= last_quote(s, j) < j,
        last_quote(s, j) >= 0 ==> is_quote(s[last_quote(s, j)]),
        forall|i: int| last_quote(s, j) < i < j ==> !is_quote(#[trigger] s[i]),
    decreases j,
{
    if j > 0 && !is_quote(s[j - 1]) {
        lemma_last_quote(s, j - 1);
    }
}

/// Every registry line is read as one, with its name and its version text.
pub proof fn lemma_registry_text_is_read(
    gap1: Seq<char>,
    q1: char,
    name: Seq<char>,
    q2: char,
    gap2: Seq<char>,
    q3: char,
    version: Seq<char>,
    q4: char,
    rest: Seq<char>,
)
    requires
        registry_pieces(gap1, q1, name, q2, gap2, q3, q4, rest),
    ensures
        registry_shape(registry_text(gap1, q1, name, q2, gap2, q3, version, q4, rest)) == Some(
            (name, version),
        ),
{
    let l = registry_text(gap1, q1, name, q2, gap2, q3, version, q4, rest);
    let a: int = 3 + gap1.len() as int;
    let b: int = a + 1 + name.len();
    let c: int = b + 2 + gap2.len();
    let d: int = c + 1 + version.len();
    assert(l.len() == d + 1 + rest.len());
    assert(l.subrange(0, 3) =~= module_word());
    assert forall|j: int| 3 <= j < a implies is_space(#[trigger] l[j]) by {
        assert(l[j] == gap1[j - 3]);
    }
    assert(l[a] == q1);
    lemma_after_spaces_is(l, 3, a);
    assert forall|j: int| a + 1 <= j < b implies !is_quote(#[trigger] l[j]) by {
        assert(l[j] == name[j - a - 1]);
    }
    assert(l[b] == q2);
    lemma_next_quote_is(l, a + 1, b);
    assert(l[b + 1] == ',');
    assert forall|j: int| b + 2 <= j < c implies is_space(#[trigger] l[j]) by {
        assert(l[j] == gap2[j - b - 2]);
    }
    assert(l[c] == q3);
    lemma_after_spaces_is(l, b + 2, c);
    assert(l[d] == q4);
    assert forall|j: int| d < j < l.len() implies !is_quote(#[trigger] l[j]) by {
        assert(l[j] == rest[j - d - 1]);
    }
    lemma_last_quote_is(l, l.len() as int, d);
    assert(l.subrange(a + 1, b) =~= name);
    assert(l.subrange(c + 1, d) =~= version);
}

/// Whatever is read as a registry line is one, with the name and the
/// version text that were read.
pub proof fn lemma_registry_shape_is_text(l: Seq<char>)
    ensures
        registry_shape(l) matches Some((name, version)) ==> is_registry_line(l, name, version),
{
    if registry_shape(l) is Some {
        let a = after_spaces(l, 3);
        let b = next_quote(l, a + 1);
        let c = after_spaces(l, b + 2);
        let d = last_quote(l, l.len() as int);
        lemma_after_spaces(l, 3);
        lemma_next_quote(l, a + 1);
        lemma_after_spaces(l, b + 2);
        lemma_last_quote(l, l.len() as int);
        let gap1 = l.subrange(3, a);
        let name = l.subrange(a + 1, b);
        let gap2 = l.subrange(b + 2, c);
        let version = l.subrange(c + 1, d);
        let rest = l.subrange(d + 1, l.len() as int);
        assert(l.subrange(0, 3) == module_word());
        assert(l =~= registry_text(gap1, l[a], name, l[b], gap2, l[c], version, l[d], rest)) by {
            assert(l.subrange(0, 3) =~= module_word());
        }
        assert(registry_pieces(gap1, l[a], name, l[b], gap2, l[c], l[d], rest));
    }
}

/// Every source-module line is read as one.
pub proof fn lemma_source_text_is_read(gap1: Seq<char>, q1: char, name: Seq<char>, q2: char, gap2: Seq<char>)
    requires
        source_pieces(gap1, q1, name, q2, gap2),
    ensures
        source_shape(source_text(gap1, q1, name, q2, gap2)) == Some(name),
{
    let l = source_text(gap1, q1, name, q2, gap2);
    let a: int = 3 + gap1.len() as int;
    let b: int = a + 1 + name.len();
    let c: int = b + 1 + gap2.len();
    assert(l.len() == c + 1);
    assert(l.subrange(0, 3) =~= module_word());
    assert forall|j: int| 3 <= j < a implies is_space(#[trigger] l[j]) by {
        assert(l[j] == gap1[j - 3]);
    }
    assert(l[a] == q1);
    lemma_after_spaces_is(l, 3, a);
    assert forall|j: int| a + 1 <= j < b implies !is_quote(#[trigger] l[j]) by {
        assert(l[j] == name[j - a - 1]);
    }
    assert(l[b] == q2);
    lemma_next_quote_is(l, a + 1, b);
    assert forall|j: int| b + 1 <= j < c implies is_space(#[trigger] l[j]) by {
        assert(l[j] == gap2[j - b - 1]);
    }
    assert(l[c] == ',');
    lemma_after_spaces_is(l, b + 1, c);
    assert(l.subrange(a + 1, b) =~= name);
}

/// Whatever is read as a source-module line is one, with the name that was
/// read.
pub proof fn lemma_source_shape_is_text(l: Seq<char>)
    ensures
        source_shape(l) matches Some(name) ==> is_source_line(l, name),
{
    if source_shape(l) is Some {
        let a = after_spaces(l, 3);
        let b = next_quote(l, a + 1);
        let c = after_spaces(l, b + 1);
        lemma_after_spaces(l, 3);
        lemma_next_quote(l, a + 1);
        lemma_after_spaces(l, b + 1);
        let gap1 = l.subrange(3, a);
        let name = l.subrange(a + 1, b);
        let gap2 = l.subrange(b + 1, c);
        assert(l =~= source_text(gap1, l[a], name, l[b], gap2)) by {
            assert(l.subrange(0, 3) =~= module_word());
        }
        assert(source_pieces(gap1, l[a], name, l[b], gap2));
    }
}

/// No source-module line is read as a registry line.
pub proof fn lemma_source_text_is_no_registry_line(
    gap1: Seq<char>,
    q1: char,
    name: Seq<char>,
    q2: char,
    gap2: Seq<char>,
)
    requires
        source_pieces(gap1, q1, name, q2, gap2),
    ensures
        registry_shape(source_text(gap1, q1, name, q2, gap2)) is None,
{
    let l = source_text(gap1, q1, name, q2, gap2);
    let a: int = 3 + gap1.len() as int;
    let b: int = a + 1 + name.len();
    assert(l.len() == b + 2 + gap2.len());
    assert forall|j: int| 3 <= j < a implies is_space(#[trigger] l[j]) by {
        assert(l[j] == gap1[j - 3]);
    }
    assert(l[a] == q1);
    lemma_after_spaces_is(l, 3, a);
    assert forall|j: int| a + 1 <= j < b implies !is_quote(#[trigger] l[j]) by {
        assert(l[j] == name[j - a - 1]);
    }
    assert(l[b] == q2);
    lemma_next_quote_is(l, a + 1, b);
    if gap2.len() > 0 {
        assert(l[b + 1] == gap2[0]);
    } else {
        assert(b + 2 == l.len());
    }
}

/// One quote, or nothing.
pub open spec fn mark(q: Option<char>) -> Seq<char> {
    match q {
        Some(c) => seq![c],
        None => Seq::empty(),
    }
}

/// The line `:`, the attribute's word, `gap1`, the arrow, `gap2`, and the
/// value with or without a quote before it and after it.
pub open spec fn attribute_text(
    key: Attr,
    gap1: Seq<char>,
    gap2: Seq<char>,
    before: Option<char>,
    value: Seq<char>,
    after: Option<char>,
) -> Seq<char> {
    seq![':'] + keyword(key) + gap1 + arrow() + gap2 + mark(before) + value + mark(after)
}

/// What makes the pieces of `attribute_text` an attribute line: the gaps
/// are white space, the marks are quotes, and the value is not empty, holds
/// no quote and, where no quote stands before it, starts with no white
/// space.
pub open spec fn attribute_pieces(
    gap1: Seq<char>,
    gap2: Seq<char>,
    before: Option<char>,
    value: Seq<char>,
    after: Option<char>,
) -> bool {
    &&& all_spaces(gap1)
    &&& all_spaces(gap2)
    &&& (before matches Some(q) ==> is_quote(q))
    &&& (after matches Some(q) ==> is_quote(q))
    &&& value.len() > 0
    &&& no_quote(value)
    &&& (before is None ==> !is_space(value[0]))
}

/// The line `:`, the attribute's word, `gap1`, the arrow, `gap2`, and one
/// quote with nothing behind it.
pub open spec fn lone_quote_text(key: Attr, gap1: Seq<char>, gap2: Seq<char>, q: char) -> Seq<char> {
    seq![':'] + keyword(key) + gap1 + arrow() + gap2 + seq![q]
}

/// Whether `l` is a line that sets the attribute `key` to `value`: an
/// attribute text with that value, or a text that ends in a lone quote
/// after white space, whose value is the last character of that white
/// space.
pub open spec fn is_attribute_line(l: Seq<char>, key: Attr, value: Seq<char>) -> bool {
    ||| exists|gap1: Seq<char>, gap2: Seq<char>, before: Option<char>, after: Option<char>|
        l == #[trigger] attribute_text(key, gap1, gap2, before, value, after) && attribute_pieces(
            gap1,
            gap2,
            before,
            value,
            after,
        )
    ||| exists|gap1: Seq<char>, gap2: Seq<char>, q: char|
        l == #[trigger] lone_quote_text(key, gap1, gap2, q) && all_spaces(gap1) && all_spaces(gap2)
            && gap2.len() > 0 && is_quote(q) && value == seq![gap2.last()]
}

/// A line that holds an attribute's word behind its first character has
/// that attribute as its key: no word is the start of another.
pub proof fn lemma_key_is_read(l: Seq<char>, key: Attr)
    requires
        starts_with(l, keyword(key), 1),
    ensures
        key_of(l) == Some(key),
{
    assert(l[1] == l.subrange(1, 1 + keyword(key).len() as int)[0]);
    assert(l[1] == keyword(key)[0]);
    lemma_first_letter(l, Attr::Git);
    lemma_first_letter(l, Attr::Commit);
    lemma_first_letter(l, Attr::Tag);
    lemma_first_letter(l, Attr::Branch);
    lemma_first_letter(l, Attr::Ref);
    lemma_first_letter(l, Attr::Link);
    lemma_first_letter(l, Attr::Fallback);
}

/// A line that holds an attribute's word behind its first character holds
/// the word's first letter there.
proof fn lemma_first_letter(l: Seq<char>, key: Attr)
    ensures
        starts_with(l, keyword(key), 1) ==> l[1] == keyword(key)[0],
{
    if starts_with(l, keyword(key), 1) {
        assert(l[1] == l.subrange(1, 1 + keyword(key).len() as int)[0]);
    }
}

/// A line that starts with `:`, an attribute's word, white space and the
/// arrow is read up to the arrow: the key is the word's, and the arrow is
/// found behind the white space.
proof fn lemma_head_is_read(key: Attr, gap1: Seq<char>, tail: Seq<char>)
    requires
        all_spaces(gap1),
    ensures
        ({
            let l = seq![':'] + keyword(key) + gap1 + arrow() + tail;
            let e: int = 1 + keyword(key).len() as int + gap1.len() as int;
            &&& l[0] == ':'
            &&& key_of(l) == Some(key)
            &&& after_spaces(l, 1 + keyword(key).len() as int) == e
            &&& starts_with(l, arrow(), e)
        }),
{
    let l = seq![':'] + keyword(key) + gap1 + arrow() + tail;
    let k: int = 1 + keyword(key).len() as int;
    let e: int = k + gap1.len();
    assert(l.subrange(1, k) =~= keyword(key));
    lemma_key_is_read(l, key);
    assert forall|j: int| k <= j < e implies is_space(#[trigger] l[j]) by {
        assert(l[j] == gap1[j - k]);
    }
    assert(l[e] == '=' && l[e + 1] == '>');
    lemma_after_spaces_is(l, k, e);
    assert(l.subrange(e, e + 2) =~= arrow());
}

/// Behind any head, white space and a value with or without quotes round
/// it are read as that value.
proof fn lemma_value_is_read(
    head: Seq<char>,
    gap2: Seq<char>,
    before: Option<char>,
    value: Seq<char>,
    after: Option<char>,
)
    requires
        all_spaces(gap2),
        before matches Some(q) ==> is_quote(q),
        after matches Some(q) ==> is_quote(q),
        value.len() > 0,
        no_quote(value),
        before is None ==> !is_space(value[0]),
    ensures
        value_shape(head + gap2 + mark(before) + value + mark(after), head.len() as int) == Some(
            value,
        ),
{
    let l = head + gap2 + mark(before) + value + mark(after);
    let base: int = head.len() as int;
    let w: int = base + gap2.len();
    let v: int = w + mark(before).len();
    let q: int = v + value.len();
    assert(l.len() == q + mark(after).len());
    assert forall|j: int| base <= j < w implies is_space(#[trigger] l[j]) by {
        assert(l[j] == gap2[j - base]);
    }
    assert forall|j: int| v <= j < q implies !is_quote(#[trigger] l[j]) by {
        assert(l[j] == value[j - v]);
    }
    if after is Some {
        assert(l[q] == after->0);
    }
    match before {
        Some(c) => {
            assert(l[w] == c);
            lemma_after_spaces_is(l, base, w);
            lemma_next_quote_is(l, w + 1, q);
        },
        None => {
            assert(l[w] == value[0]);
            lemma_after_spaces_is(l, base, w);
            lemma_next_quote_is(l, w, q);
        },
    }
    assert(l.subrange(v, q) =~= value);
}

/// Every attribute text is read as an attribute line, with its key and its
/// value.
pub proof fn lemma_attribute_text_is_read(
    key: Attr,
    gap1: Seq<char>,
    gap2: Seq<char>,
    before: Option<char>,
    value: Seq<char>,
    after: Option<char>,
)
    requires
        attribute_pieces(gap1, gap2, before, value, after),
    ensures
        attribute_shape(attribute_text(key, gap1, gap2, before, value, after)) == Some(
            (key, value),
        ),
{
    let l = attribute_text(key, gap1, gap2, before, value, after);
    let head = seq![':'] + keyword(key) + gap1 + arrow();
    let tail = gap2 + mark(before) + value + mark(after);
    assert(l =~= seq![':'] + keyword(key) + gap1 + arrow() + tail);
    lemma_head_is_read(key, gap1, tail);
    lemma_value_is_read(head, gap2, before, value, after);
}

/// A text that ends in a lone quote after white space is read as an
/// attribute line whose value is the last character of that white space.
pub proof fn lemma_lone_quote_text_is_read(key: Attr, gap1: Seq<char>, gap2: Seq<char>, q: char)
    requires
        all_spaces(gap1),
        all_spaces(gap2),
        gap2.len() > 0,
        is_quote(q),
    ensures
        attribute_shape(lone_quote_text(key, gap1, gap2, q)) == Some((key, seq![gap2.last()])),
{
    let l = lone_quote_text(key, gap1, gap2, q);
    let e: int = 1 + keyword(key).len() as int + gap1.len() as int;
    let w: int = e + 2 + gap2.len();
    assert(l =~= seq![':'] + keyword(key) + gap1 + arrow() + (gap2 + seq![q]));
    lemma_head_is_read(key, gap1, gap2 + seq![q]);
    assert(l.len() == w + 1);
    assert forall|j: int| e + 2 <= j < w implies is_space(#[trigger] l[j]) by {
        assert(l[j] == gap2[j - e - 2]);
    }
    assert(l[w] == q);
    lemma_after_spaces_is(l, e + 2, w);
    assert(next_quote(l, w + 1) == w + 1);
    assert(l.subrange(w - 1, w) =~= seq![gap2.last()]);
}

/// Whatever is read as an attribute line is one, with the key and the value
/// that were read.
pub proof fn lemma_attribute_shape_is_text(l: Seq<char>)
    ensures
        attribute_shape(l) matches Some((key, value)) ==> is_attribute_line(l, key, value),
{
    if attribute_shape(l) is Some {
        let key = key_of(l)->0;
        let k: int = 1 + keyword(key).len() as int;
        let e = after_spaces(l, k);
        let w = after_spaces(l, e + 2);
        lemma_after_spaces(l, k);
        lemma_after_spaces(l, e + 2);
        let gap1 = l.subrange(k, e);
        let gap2 = l.subrange(e + 2, w);
        let value = value_shape(l, e + 2)->0;
        let end = l.len() as int;
        assert(l.subrange(1, k) == keyword(key));
        assert(l.subrange(e, e + 2) == arrow());
        assert(seq![':'] + keyword(key) + gap1 + arrow() + gap2 =~= l.subrange(0, w)) by {
            assert(l.subrange(1, k) =~= keyword(key));
            assert(l.subrange(e, e + 2) =~= arrow());
        }
        if !is_quote(l[w]) {
            let q = next_quote(l, w);
            lemma_next_quote(l, w);
            let after = if q < end {
                Some(l[q])
            } else {
                None
            };
            assert(l =~= l.subrange(0, w) + mark(None) + value + mark(after));
            assert(l == attribute_text(key, gap1, gap2, None, value, after));
            assert(attribute_pieces(gap1, gap2, None, value, after));
        } else {
            let q = next_quote(l, w + 1);
            lemma_next_quote(l, w + 1);
            if w + 1 < q && q >= end - 1 {
                let after = if q < end {
                    Some(l[q])
                } else {
                    None
                };
                assert(l =~= l.subrange(0, w) + mark(Some(l[w])) + value + mark(after));
                assert(l == attribute_text(key, gap1, gap2, Some(l[w]), value, after));
                assert(attribute_pieces(gap1, gap2, Some(l[w]), value, after));
            } else {
                assert(l =~= l.subrange(0, w) + seq![l[w]]);
                assert(l == lone_quote_text(key, gap1, gap2, l[w]));
                assert(value =~= seq![gap2.last()]);
            }
        }
    }
}

} // verus!
