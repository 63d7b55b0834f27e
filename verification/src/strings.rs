//! Character-level string utilities: equality, lexicographic order, and
//! blankness, each stated over the `Seq<char>` view of the string.

use vstd::prelude::*;

verus! {

/// True when `a` and `b` hold the same characters.
pub fn str_eq(a: &str, b: &str) -> (r: bool)
    ensures
        r == (a@ == b@),
{
    let alen = a.unicode_len();
    let blen = b.unicode_len();
    if alen != blen {
        return false;
    }
    let mut i: usize = 0;
    while i < alen
        invariant
            i <= alen,
            alen == a@.len(),
            alen == b@.len(),
            forall|j: int| 0 <= j < i ==> a@[j] == b@[j],
        decreases alen - i,
    {
        if a.get_char(i) != b.get_char(i) {
            return false;
        }
        i += 1;
    }
    proof {
        assert(a@ =~= b@);
    }
    true
}

/// Lexicographic order on character sequences, by code point. This is the
/// order in which file lists are emitted and the order behind the
/// newest-first sort of timestamps.
pub open spec fn lex_le(a: Seq<char>, b: Seq<char>) -> bool
    decreases a.len(),
{
    if a.len() == 0 {
        true
    } else if b.len() == 0 {
        false
    } else if a[0] == b[0] {
        lex_le(a.drop_first(), b.drop_first())
    } else {
        (a[0] as u32) < (b[0] as u32)
    }
}

/// Two sequences that agree on their first `i` characters compare the way
/// their tails do: the order is decided at the first difference, or by
/// length when one is a prefix of the other.
proof fn lemma_lex_le_common_prefix(a: Seq<char>, b: Seq<char>, i: int)
    requires
        0 <= i <= a.len(),
        i <= b.len(),
        forall|j: int| 0 <= j < i ==> a[j] == b[j],
    ensures
        i < a.len() && i < b.len() && a[i] != b[i] ==> lex_le(a, b) == ((a[i] as u32) < (b[i]
            as u32)),
        i == a.len() ==> lex_le(a, b),
        i == b.len() && i < a.len() ==> !lex_le(a, b),
    decreases i,
{
    if i == 0 {
    } else {
        assert(a[0] == b[0]);
        lemma_lex_le_common_prefix(a.drop_first(), b.drop_first(), i - 1);
    }
}

/// True when `a` is at or before `b` in lexicographic order.
pub fn str_le(a: &str, b: &str) -> (r: bool)
    ensures
        r == lex_le(a@, b@),
{
    let alen = a.unicode_len();
    let blen = b.unicode_len();
    let mut i: usize = 0;
    while i < alen && i < blen
        invariant
            i <= alen,
            i <= blen,
            alen == a@.len(),
            blen == b@.len(),
            forall|j: int| 0 <= j < i ==> a@[j] == b@[j],
        decreases alen - i,
    {
        let ca = a.get_char(i);
        let cb = b.get_char(i);
        if ca != cb {
            proof {
                lemma_lex_le_common_prefix(a@, b@, i as int);
            }
            return (ca as u32) < (cb as u32);
        }
        i += 1;
    }
    proof {
        lemma_lex_le_common_prefix(a@, b@, i as int);
    }
    alen <= blen
}

/// What `char::is_whitespace` decides: the Unicode `White_Space` property
/// of the character, a fixed function of the character alone.
pub uninterp spec fn is_space_char(c: char) -> bool;

/// The ASCII part of the Unicode `White_Space` property: space, horizontal
/// tab, line feed, vertical tab, form feed and carriage return.
pub open spec fn is_ascii_space_char(c: char) -> bool {
    c == ' ' || c == '\t' || c == '\n' || c == '\r' || c as u32 == 0xB || c as u32 == 0xC
}

/// Relies on char::is_whitespace: true exactly for characters with the
/// Unicode `White_Space` property; on the ASCII range that property holds
/// of exactly the six characters `is_ascii_space_char` lists.
#[verifier::external_body]
fn char_is_whitespace(c: char) -> (r: bool)
    ensures
        r == is_space_char(c),
        (c as u32) < 128 ==> r == is_ascii_space_char(c),
{
    c.is_whitespace()
}

/// A sequence of characters that trims to nothing.
pub open spec fn is_blank_seq(s: Seq<char>) -> bool {
    forall|i: int| 0 <= i < s.len() ==> is_space_char(s[i])
}

/// True when `s` is empty or entirely whitespace: a prompt with such text
/// never opens a session. The second clause pins the answer on ASCII
/// characters, so blankness of concrete ASCII text is decidable at the
/// call site.
pub fn is_blank(s: &str) -> (r: bool)
    ensures
        r == is_blank_seq(s@),
        forall|i: int|
            0 <= i < s@.len() && (s@[i] as u32) < 128 ==> is_space_char(s@[i])
                == is_ascii_space_char(s@[i]),
{
    let len = s.unicode_len();
    let mut i: usize = 0;
    let mut all: bool = true;
    while i < len
        invariant
            i <= len,
            len == s@.len(),
            all == (forall|j: int| 0 <= j < i ==> is_space_char(s@[j])),
            forall|j: int|
                0 <= j < i && (s@[j] as u32) < 128 ==> is_space_char(s@[j])
                    == is_ascii_space_char(s@[j]),
        decreases len - i,
    {
        let w = char_is_whitespace(s.get_char(i));
        all = all && w;
        i += 1;
    }
    all
}

/// Relies on String::push: appends exactly the one character at the end.
#[verifier::external_body]
pub fn push_char(s: &mut String, c: char)
    ensures
        final(s)@ == old(s)@.push(c),
{
    s.push(c);
}

} // verus!
