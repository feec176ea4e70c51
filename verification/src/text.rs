//! Text as sequences of characters: decoding, comparison, search and padding.
//!
//! Every contract here speaks of a string through its view, the `Seq<char>` of
//! its Unicode scalar values, so positions and widths count characters, never
//! bytes.

use vstd::prelude::*;
use vstd::string::*;

verus! {

/// The character that opens a terminal control sequence.
pub const ESCAPE: char = '\u{1b}';

/// A text without any terminal control sequence of its own.
pub open spec fn is_plain(s: Seq<char>) -> bool {
    forall|i: int| 0 <= i < s.len() ==> s[i] != ESCAPE
}

/// `needle` stands in `hay` at position `at`.
pub open spec fn occurs_at(hay: Seq<char>, needle: Seq<char>, at: int) -> bool {
    &&& 0 <= at
    &&& at + needle.len() <= hay.len()
    &&& hay.subrange(at, at + needle.len()) =~= needle
}

/// `needle` is a contiguous part of `hay`.
pub open spec fn contains_seq(hay: Seq<char>, needle: Seq<char>) -> bool {
    exists|at: int| occurs_at(hay, needle, at)
}

/// The characters of `s`, in order.
pub fn chars_of(s: &str) -> (out: Vec<char>)
    ensures
        out@ == s@,
{
    broadcast use vstd::string::group_string_axioms;

    let mut out: Vec<char> = Vec::new();
    for c in it: s.chars()
        invariant
            out@ == it.seq().take(it.index() as int),
            it.seq() == s@,
    {
        out.push(c);
    }
    out
}

/// Whether two character vectors hold the same text.
pub fn same_chars(a: &Vec<char>, b: &Vec<char>) -> (r: bool)
    ensures
        r == (a@ == b@),
{
    if a.len() != b.len() {
        return false;
    }
    let mut i: usize = 0;
    while i < a.len()
        invariant
            a.len() == b.len(),
            i <= a.len(),
            forall|k: int| 0 <= k < i ==> a@[k] == b@[k],
        decreases a.len() - i,
    {
        if a[i] != b[i] {
            return false;
        }
        i = i + 1;
    }
    assert(a@ =~= b@);
    true
}

/// Whether `needle` stands in `hay` at `at`.
fn occurs_at_index(hay: &Vec<char>, needle: &Vec<char>, at: usize) -> (r: bool)
    requires
        at + needle.len() <= hay.len(),
    ensures
        r == occurs_at(hay@, needle@, at as int),
{
    let mut k: usize = 0;
    while k < needle.len()
        invariant
            at + needle.len() <= hay.len(),
            k <= needle.len(),
            forall|j: int| 0 <= j < k ==> hay@[at + j] == needle@[j],
        decreases needle.len() - k,
    {
        if hay[at + k] != needle[k] {
            assert(hay@.subrange(at as int, at + needle.len())[k as int] == hay@[at + k]);
            return false;
        }
        k = k + 1;
    }
    assert(hay@.subrange(at as int, at + needle.len()) =~= needle@);
    true
}

/// The first position at which `needle` stands in `hay`, if there is one.
pub fn find_chars(hay: &Vec<char>, needle: &Vec<char>) -> (r: Option<usize>)
    ensures
        match r {
            Some(at) => occurs_at(hay@, needle@, at as int) && forall|j: int|
                0 <= j < at ==> !occurs_at(hay@, needle@, j),
            None => !contains_seq(hay@, needle@),
        },
{
    if needle.len() > hay.len() {
        return None;
    }
    let last: usize = hay.len() - needle.len();
    let mut at: usize = 0;
    while at <= last
        invariant
            needle.len() <= hay.len(),
            last == hay.len() - needle.len(),
            at <= last + 1,
            forall|j: int| 0 <= j < at ==> !occurs_at(hay@, needle@, j),
        decreases last + 1 - at,
    {
        if occurs_at_index(hay, needle, at) {
            return Some(at);
        }
        at = at + 1;
    }
    None
}

/// Substring containment on decoded text.
pub fn contains_chars(hay: &Vec<char>, needle: &Vec<char>) -> (r: bool)
    ensures
        r == contains_seq(hay@, needle@),
{
    find_chars(hay, needle).is_some()
}

/// Substring containment: whether `needle` is a contiguous part of `hay`.
pub fn contains(hay: &str, needle: &str) -> (r: bool)
    ensures
        r == contains_seq(hay@, needle@),
{
    let h: Vec<char> = chars_of(hay);
    let n: Vec<char> = chars_of(needle);
    contains_chars(&h, &n)
}

/// The empty text is a part of every text.
pub proof fn lemma_empty_is_contained(hay: Seq<char>)
    ensures
        contains_seq(hay, Seq::<char>::empty()),
{
    assert(occurs_at(hay, Seq::<char>::empty(), 0));
}

/// `n` spaces.
pub open spec fn spaces(n: nat) -> Seq<char> {
    Seq::new(n, |i: int| ' ')
}

/// `s` left-aligned in a field of `width` characters: spaces are added on the
/// right until the field is full, and a text that is already as wide is kept
/// whole.
pub open spec fn pad_right(s: Seq<char>, width: nat) -> Seq<char> {
    if s.len() >= width {
        s
    } else {
        s + spaces((width - s.len()) as nat)
    }
}

/// Left-aligns `s` in a field of `width` characters.
pub fn pad_to(s: &str, width: usize) -> (out: String)
    ensures
        out@ == pad_right(s@, width as nat),
{
    let len: usize = s.unicode_len();
    let mut out: String = String::from_str(s);
    if len >= width {
        return out;
    }
    let missing: usize = width - len;
    let mut added: usize = 0;
    while added < missing
        invariant
            added <= missing,
            out@ == s@ + spaces(added as nat),
        decreases missing - added,
    {
        proof {
            reveal_strlit(" ");
            assert(spaces(added as nat) + " "@ =~= spaces((added + 1) as nat));
        }
        out.append(" ");
        added = added + 1;
    }
    out
}

/// Padding adds spaces only, so a plain text stays plain.
pub proof fn lemma_padding_keeps_plain(s: Seq<char>, width: nat)
    requires
        is_plain(s),
    ensures
        is_plain(pad_right(s, width)),
{
}

/// Padding never shortens a text and fills the field exactly when the text
/// is narrower than it.
pub proof fn lemma_pad_right_len(s: Seq<char>, width: nat)
    ensures
        pad_right(s, width).len() == if s.len() >= width {
            s.len()
        } else {
            width
        },
        s.is_prefix_of(pad_right(s, width)),
{
}

} // verus!
