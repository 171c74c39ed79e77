//! The three shapes of a manifest line.
//!
//! A line is read after its comment is cut off and the white space around it
//! removed. Positions are counted in characters.

use vstd::prelude::*;
use crate::text::{
    after_spaces, find_char, index_of, is_space, lemma_index_of, lemma_trim, skip_spaces,
    string_of, trim, trim_chars,
};

verus! {

/// The attributes that a source-controlled module can carry.
#[derive(Clone, Copy, Debug, PartialEq, Eq, Structural)]
pub enum Attr {
    Git,
    Commit,
    Tag,
    Branch,
    Ref,
    Link,
    Fallback,
}

/// The word that names an attribute in a manifest.
pub open spec fn keyword(k: Attr) -> Seq<char> {
    match k {
        Attr::Git => seq!['g', 'i', 't'],
        Attr::Commit => seq!['c', 'o', 'm', 'm', 'i', 't'],
        Attr::Tag => seq!['t', 'a', 'g'],
        Attr::Branch => seq!['b', 'r', 'a', 'n', 'c', 'h'],
        Attr::Ref => seq!['r', 'e', 'f'],
        Attr::Link => seq!['l', 'i', 'n', 'k'],
        Attr::Fallback => seq!['f', 'a', 'l', 'l', 'b', 'a', 'c', 'k'],
    }
}

/// The word that opens a module declaration.
pub open spec fn module_word() -> Seq<char> {
    seq!['m', 'o', 'd']
}

/// The sign between an attribute's name and its value.
pub open spec fn arrow() -> Seq<char> {
    seq!['=', '>']
}

pub open spec fn is_quote(c: char) -> bool {
    c == '\'' || c == '"'
}

/// The first index at or after `i` that holds a quote, or the length of `s`.
pub open spec fn next_quote(s: Seq<char>, i: int) -> int
    decreases s.len() - i,
{
    if i < 0 || i >= s.len() {
        s.len() as int
    } else if is_quote(s[i]) {
        i
    } else {
        next_quote(s, i + 1)
    }
}

/// The last index before `j` that holds a quote, or -1.
pub open spec fn last_quote(s: Seq<char>, j: int) -> int
    decreases j,
{
    if j <= 0 || j > s.len() {
        -1
    } else if is_quote(s[j - 1]) {
        j - 1
    } else {
        last_quote(s, j - 1)
    }
}

/// Whether `word` stands in `s` at index `at`.
pub open spec fn starts_with(s: Seq<char>, word: Seq<char>, at: int) -> bool {
    0 <= at && at + word.len() <= s.len() && s.subrange(at, at + word.len()) == word
}

/// A line that declares a registry module: the word `mod`, white space, the
/// quoted name, which is not empty, a comma, white space, and the quoted
/// version, which runs to the last quote of the line. Gives the name and the
/// version text.
pub open spec fn registry_shape(l: Seq<char>) -> Option<(Seq<char>, Seq<char>)> {
    let a = after_spaces(l, 3);
    let b = next_quote(l, a + 1);
    let c = after_spaces(l, b + 2);
    let d = last_quote(l, l.len() as int);
    if starts_with(l, module_word(), 0) && 3 < a < l.len() && is_quote(l[a]) && a + 1 < b
        < l.len() && b + 1 < l.len() && l[b + 1] == ',' && b + 2 < c < l.len() && is_quote(l[c])
        && c < d {
        Some((l.subrange(a + 1, b), l.subrange(c + 1, d)))
    } else {
        None
    }
}

/// A line that opens a source-controlled module: the word `mod`, white
/// space, the quoted name, and a comma that ends the line. Gives the name.
pub open spec fn source_shape(l: Seq<char>) -> Option<Seq<char>> {
    let a = after_spaces(l, 3);
    let b = next_quote(l, a + 1);
    let c = after_spaces(l, b + 1);
    if starts_with(l, module_word(), 0) && 3 < a < l.len() && is_quote(l[a]) && a + 1 < b
        < l.len() && c == l.len() - 1 && l[c] == ',' {
        Some(l.subrange(a + 1, b))
    } else {
        None
    }
}

/// The attribute whose word stands behind the colon of `l`.
pub open spec fn key_of(l: Seq<char>) -> Option<Attr> {
    if starts_with(l, keyword(Attr::Git), 1) {
        Some(Attr::Git)
    } else if starts_with(l, keyword(Attr::Commit), 1) {
        Some(Attr::Commit)
    } else if starts_with(l, keyword(Attr::Tag), 1) {
        Some(Attr::Tag)
    } else if starts_with(l, keyword(Attr::Branch), 1) {
        Some(Attr::Branch)
    } else if starts_with(l, keyword(Attr::Ref), 1) {
        Some(Attr::Ref)
    } else if starts_with(l, keyword(Attr::Link), 1) {
        Some(Attr::Link)
    } else if starts_with(l, keyword(Attr::Fallback), 1) {
        Some(Attr::Fallback)
    } else {
        None
    }
}

/// The value that ends the line `l`, where the arrow ends at `base`: white
/// space, then the value with or without a quote before it and after it.
/// The value holds no quote and is not empty. Where the rest of the line is
/// nothing but white space and one quote, the value is the last white space
/// character.
pub open spec fn value_shape(l: Seq<char>, base: int) -> Option<Seq<char>> {
    let w = after_spaces(l, base);
    if w >= l.len() {
        None
    } else if !is_quote(l[w]) {
        let q = next_quote(l, w);
        if q >= l.len() - 1 {
            Some(l.subrange(w, q))
        } else {
            None
        }
    } else {
        let q = next_quote(l, w + 1);
        if w + 1 < q && q >= l.len() - 1 {
            Some(l.subrange(w + 1, q))
        } else if base < w && w == l.len() - 1 {
            Some(l.subrange(w - 1, w))
        } else {
            None
        }
    }
}

/// A line that sets an attribute: a colon, the attribute's word, the arrow
/// `=>` with or without white space round it, and the value.
pub open spec fn attribute_shape(l: Seq<char>) -> Option<(Attr, Seq<char>)> {
    if l.len() > 0 && l[0] == ':' && key_of(l) is Some {
        let k = key_of(l)->0;
        let e = after_spaces(l, 1 + keyword(k).len() as int);
        if starts_with(l, arrow(), e) && value_shape(l, e + 2) is Some {
            Some((k, value_shape(l, e + 2)->0))
        } else {
            None
        }
    } else {
        None
    }
}

/// What a line of a manifest says.
pub enum LineView {
    /// A registry module, with its name as written and its version text.
    Registry { name: Seq<char>, version: Seq<char> },
    /// The opening of a source-controlled module.
    Source { name: Seq<char> },
    /// An attribute of the module that is open.
    Attribute { key: Attr, value: Seq<char> },
    /// Something that fits no shape.
    Other,
    /// Nothing, or nothing but a comment.
    Blank,
}

/// The shape of a line without comment and surrounding white space. The
/// shapes are tried in the order registry module, source module, attribute.
pub open spec fn shape_of(l: Seq<char>) -> LineView {
    match registry_shape(l) {
        Some((name, version)) => LineView::Registry { name, version },
        None => match source_shape(l) {
            Some(name) => LineView::Source { name },
            None => match attribute_shape(l) {
                Some((key, value)) => LineView::Attribute { key, value },
                None => LineView::Other,
            },
        },
    }
}

/// The part of a raw line that is read: what stands before the first `#`,
/// without the white space around it.
pub open spec fn body_of(raw: Seq<char>) -> Seq<char> {
    trim(raw.subrange(0, index_of(raw, '#', 0)))
}

/// The part of a line that is read holds no `#` and neither starts nor ends
/// with white space.
pub proof fn lemma_body_of(raw: Seq<char>)
    ensures
        !body_of(raw).contains('#'),
        body_of(raw).len() > 0 ==> !is_space(body_of(raw)[0]) && !is_space(body_of(raw).last()),
{
    let cut = raw.subrange(0, index_of(raw, '#', 0));
    lemma_index_of(raw, '#', 0);
    lemma_trim(cut);
    let (before, after) = choose|before: Seq<char>, after: Seq<char>|
        #![trigger before + trim(cut) + after]
        cut == before + trim(cut) + after;
    assert forall|i: int| 0 <= i < trim(cut).len() implies trim(cut)[i] != '#' by {
        assert(cut[before.len() + i] == trim(cut)[i]);
    }
}

/// What a raw line of a manifest says.
pub open spec fn line_of(raw: Seq<char>) -> LineView {
    if body_of(raw).len() == 0 {
        LineView::Blank
    } else {
        shape_of(body_of(raw))
    }
}

/// What a line of a manifest says.
#[derive(Debug, Clone, PartialEq, Eq)]
pub enum Line {
    /// A registry module, with its name as written and its version text.
    Registry { name: String, version: String },
    /// The opening of a source-controlled module.
    Source { name: String },
    /// An attribute of the module that is open.
    Attribute { key: Attr, value: String },
    /// Something that fits no shape.
    Other,
    /// Nothing, or nothing but a comment.
    Blank,
}

impl View for Line {
    type V = LineView;

    open spec fn view(&self) -> LineView {
        match self {
            Line::Registry { name, version } => LineView::Registry {
                name: name@,
                version: version@,
            },
            Line::Source { name } => LineView::Source { name: name@ },
            Line::Attribute { key, value } => LineView::Attribute { key: *key, value: value@ },
            Line::Other => LineView::Other,
            Line::Blank => LineView::Blank,
        }
    }
}

fn quote(c: char) -> (r: bool)
    ensures
        r == is_quote(c),
{
    c == '\'' || c == '"'
}

fn find_quote(s: &Vec<char>, i: usize) -> (j: usize)
    requires
        i <= s.len(),
    ensures
        j == next_quote(s@, i as int),
        i <= j <= s.len(),
{
    let mut j: usize = i;
    while j < s.len() && !quote(s[j])
        invariant
            i <= j <= s.len(),
            next_quote(s@, i as int) == next_quote(s@, j as int),
        decreases s.len() - j,
    {
        j += 1;
    }
    j
}

/// One more than the index of the last quote of `s`, or 0 where it has none.
fn after_last_quote(s: &Vec<char>) -> (j: usize)
    ensures
        j == last_quote(s@, s@.len() as int) + 1,
        j <= s.len(),
{
    let mut j: usize = s.len();
    while j > 0 && !quote(s[j - 1])
        invariant
            j <= s.len(),
            last_quote(s@, s@.len() as int) == last_quote(s@, j as int),
        decreases j,
    {
        j -= 1;
    }
    j
}

fn starts_at(s: &Vec<char>, word: &Vec<char>, at: usize) -> (r: bool)
    ensures
        r == starts_with(s@, word@, at as int),
{
    if at > s.len() || word.len() > s.len() - at {
        return false;
    }
    let ghost piece = s@.subrange(at as int, at + word.len());
    let mut i: usize = 0;
    while i < word.len()
        invariant
            i <= word.len(),
            at + word.len() <= s.len(),
            piece == s@.subrange(at as int, at + word.len()),
            forall|j: int| 0 <= j < i ==> piece[j] == word@[j],
        decreases word.len() - i,
    {
        if s[at + i] != word[i] {
            assert(piece[i as int] != word@[i as int]);
            return false;
        }
        i += 1;
    }
    assert(piece =~= word@);
    true
}

/// The characters of an attribute's word.
fn keyword_chars(k: Attr) -> (w: Vec<char>)
    ensures
        w@ == keyword(k),
{
    let w = match k {
        Attr::Git => vec!['g', 'i', 't'],
        Attr::Commit => vec!['c', 'o', 'm', 'm', 'i', 't'],
        Attr::Tag => vec!['t', 'a', 'g'],
        Attr::Branch => vec!['b', 'r', 'a', 'n', 'c', 'h'],
        Attr::Ref => vec!['r', 'e', 'f'],
        Attr::Link => vec!['l', 'i', 'n', 'k'],
        Attr::Fallback => vec!['f', 'a', 'l', 'l', 'b', 'a', 'c', 'k'],
    };
    assert(w@ =~= keyword(k));
    w
}

/// The view of an optional pair of strings.
pub open spec fn pair_view(p: Option<(String, String)>) -> Option<(Seq<char>, Seq<char>)> {
    match p {
        Some((a, b)) => Some((a@, b@)),
        None => None,
    }
}

fn read_registry(l: &Vec<char>) -> (r: Option<(String, String)>)
    ensures
        pair_view(r) == registry_shape(l@),
{
    let word = vec!['m', 'o', 'd'];
    assert(word@ =~= module_word());
    if !starts_at(l, &word, 0) {
        return None;
    }
    let a = skip_spaces(l, 3);
    if !(3 < a && a < l.len() && quote(l[a])) {
        return None;
    }
    let b = find_quote(l, a + 1);
    if !(a + 1 < b && b < l.len() && b + 1 < l.len() && l[b + 1] == ',') {
        return None;
    }
    let c = skip_spaces(l, b + 2);
    if !(b + 2 < c && c < l.len() && quote(l[c])) {
        return None;
    }
    let d = after_last_quote(l);
    if !(c + 1 < d) {
        return None;
    }
    Some((string_of(l, a + 1, b), string_of(l, c + 1, d - 1)))
}

fn read_source(l: &Vec<char>) -> (r: Option<String>)
    ensures
        (match r {
            Some(name) => Some(name@),
            None => None,
        }) == source_shape(l@),
{
    let word = vec!['m', 'o', 'd'];
    assert(word@ =~= module_word());
    if !starts_at(l, &word, 0) {
        return None;
    }
    let a = skip_spaces(l, 3);
    if !(3 < a && a < l.len() && quote(l[a])) {
        return None;
    }
    let b = find_quote(l, a + 1);
    if !(a + 1 < b && b < l.len()) {
        return None;
    }
    let c = skip_spaces(l, b + 1);
    if !(c < l.len() && c == l.len() - 1 && l[c] == ',') {
        return None;
    }
    Some(string_of(l, a + 1, b))
}

fn read_key(l: &Vec<char>) -> (r: Option<Attr>)
    ensures
        r == key_of(l@),
{
    if starts_at(l, &keyword_chars(Attr::Git), 1) {
        Some(Attr::Git)
    } else if starts_at(l, &keyword_chars(Attr::Commit), 1) {
        Some(Attr::Commit)
    } else if starts_at(l, &keyword_chars(Attr::Tag), 1) {
        Some(Attr::Tag)
    } else if starts_at(l, &keyword_chars(Attr::Branch), 1) {
        Some(Attr::Branch)
    } else if starts_at(l, &keyword_chars(Attr::Ref), 1) {
        Some(Attr::Ref)
    } else if starts_at(l, &keyword_chars(Attr::Link), 1) {
        Some(Attr::Link)
    } else if starts_at(l, &keyword_chars(Attr::Fallback), 1) {
        Some(Attr::Fallback)
    } else {
        None
    }
}

fn read_value(l: &Vec<char>, base: usize) -> (r: Option<String>)
    requires
        base <= l.len(),
    ensures
        (match r {
            Some(value) => Some(value@),
            None => None,
        }) == value_shape(l@, base as int),
{
    let w = skip_spaces(l, base);
    if w >= l.len() {
        return None;
    }
    if !quote(l[w]) {
        let q = find_quote(l, w);
        if q >= l.len() - 1 {
            Some(string_of(l, w, q))
        } else {
            None
        }
    } else {
        let q = find_quote(l, w + 1);
        if w + 1 < q && q >= l.len() - 1 {
            Some(string_of(l, w + 1, q))
        } else if base < w && w == l.len() - 1 {
            Some(string_of(l, w - 1, w))
        } else {
            None
        }
    }
}

fn read_attribute(l: &Vec<char>) -> (r: Option<(Attr, String)>)
    ensures
        (match r {
            Some((key, value)) => Some((key, value@)),
            None => None,
        }) == attribute_shape(l@),
{
    if !(l.len() > 0 && l[0] == ':') {
        return None;
    }
    match read_key(l) {
        None => None,
        Some(k) => {
            let word = keyword_chars(k);
            let e = skip_spaces(l, 1 + word.len());
            let sign = vec!['=', '>'];
            assert(sign@ =~= arrow());
            if !starts_at(l, &sign, e) {
                return None;
            }
            match read_value(l, e + 2) {
                Some(value) => Some((k, value)),
                None => None,
            }
        },
    }
}

/// Reads a line that has no comment and no white space round it.
fn read_shape(l: &Vec<char>) -> (r: Line)
    ensures
        r@ == shape_of(l@),
{
    match read_registry(l) {
        Some((name, version)) => Line::Registry { name, version },
        None => match read_source(l) {
            Some(name) => Line::Source { name },
            None => match read_attribute(l) {
                Some((key, value)) => Line::Attribute { key, value },
                None => Line::Other,
            },
        },
    }
}

/// Reads one raw line of a manifest.
pub fn read_line(raw: &Vec<char>) -> (r: Line)
    ensures
        r@ == line_of(raw@),
{
    let h = find_char(raw, '#', 0);
    let cut = crate::text::slice_of(raw, 0, h);
    let body = trim_chars(&cut);
    if body.len() == 0 {
        Line::Blank
    } else {
        read_shape(&body)
    }
}

} // verus!
