//! Byte strings: searching, trimming and comparing. Text is taken as
//! UTF-8.

use vstd::prelude::*;
use vstd::slice::slice_subrange;

verus! {

/// The line feed that ends a line.
pub const NEWLINE: u8 = 10;

/// The sign between a name and its value.
pub const EQUALS: u8 = 61;

/// Whether `b` is a blank of one byte: a space, a tab, a line feed, a
/// vertical tab, a form feed or a carriage return.
pub open spec fn is_blank(b: u8) -> bool {
    b == 32 || (9 <= b && b <= 13)
}

/// Whether the two bytes are a blank: the next-line sign or the no-break
/// space.
pub open spec fn is_blank_pair(a: u8, b: u8) -> bool {
    a == 0xC2 && (b == 0x85 || b == 0xA0)
}

/// Whether the three bytes are a blank: the ogham space mark, one of the
/// spaces from the en quad to the hair space, the line or the paragraph
/// separator, the narrow no-break space, the medium mathematical space or
/// the ideographic space.
pub open spec fn is_blank_triple(a: u8, b: u8, c: u8) -> bool {
    ||| a == 0xE1 && b == 0x9A && c == 0x80
    ||| a == 0xE2 && b == 0x80 && ((0x80 <= c && c <= 0x8A) || c == 0xA8 || c == 0xA9 || c
        == 0xAF)
    ||| a == 0xE2 && b == 0x81 && c == 0x9F
    ||| a == 0xE3 && b == 0x80 && c == 0x80
}

/// Number of bytes of the blank that `s` starts with; zero if it starts
/// with none.
pub open spec fn blank_start(s: Seq<u8>) -> int {
    if s.len() >= 1 && is_blank(s[0]) {
        1
    } else if s.len() >= 2 && is_blank_pair(s[0], s[1]) {
        2
    } else if s.len() >= 3 && is_blank_triple(s[0], s[1], s[2]) {
        3
    } else {
        0
    }
}

/// Number of bytes of the blank that `s` ends with; zero if it ends with
/// none.
pub open spec fn blank_end(s: Seq<u8>) -> int {
    let n = s.len() as int;
    if n >= 1 && is_blank(s[n - 1]) {
        1
    } else if n >= 2 && is_blank_pair(s[n - 2], s[n - 1]) {
        2
    } else if n >= 3 && is_blank_triple(s[n - 3], s[n - 2], s[n - 1]) {
        3
    } else {
        0
    }
}

/// Whether `s` is a word: not empty, of plain letters and signs of one
/// byte each, and free of blanks and of the equals sign.
pub open spec fn is_word(s: Seq<u8>) -> bool {
    &&& s.len() > 0
    &&& forall|i: int|
        0 <= i < s.len() ==> (#[trigger] s[i]) < 128 && !is_blank(s[i]) && s[i] != EQUALS
}

/// Index of the first `b` in `s`, or the length of `s` if there is none.
pub open spec fn position(s: Seq<u8>, b: u8) -> int
    decreases s.len(),
{
    if s.len() == 0 {
        0
    } else if s[0] == b {
        0
    } else {
        1 + position(s.drop_first(), b)
    }
}

/// `s` without the blanks at its start and at its end.
pub open spec fn trimmed(s: Seq<u8>) -> Seq<u8>
    decreases s.len(),
{
    if blank_start(s) > 0 {
        trimmed(s.skip(blank_start(s)))
    } else if blank_end(s) > 0 {
        trimmed(s.take(s.len() - blank_end(s)))
    } else {
        s
    }
}

/// `position` finds the first occurrence: nothing before it is `b`, and it
/// is `b` unless it is the end.
pub proof fn lemma_position(s: Seq<u8>, b: u8)
    ensures
        0 <= position(s, b) <= s.len(),
        forall|i: int| 0 <= i < position(s, b) ==> s[i] != b,
        position(s, b) < s.len() ==> s[position(s, b)] == b,
    decreases s.len(),
{
    if s.len() > 0 && s[0] != b {
        let rest = s.drop_first();
        lemma_position(rest, b);
        assert forall|i: int| 0 <= i < position(s, b) implies s[i] != b by {
            if i > 0 {
                assert(s[i] == rest[i - 1]);
            }
        }
    }
}

/// The first occurrence is where `position` says: an index that holds `b`
/// with no `b` before it, or the end with no `b` at all.
pub proof fn lemma_position_is(s: Seq<u8>, b: u8, at: int)
    requires
        0 <= at <= s.len(),
        forall|i: int| 0 <= i < at ==> s[i] != b,
        at < s.len() ==> s[at] == b,
    ensures
        position(s, b) == at,
{
    lemma_position(s, b);
    let p = position(s, b);
    if p < at {
        assert(s[p] != b);
    }
}

/// A word stays as it is when trimmed.
pub proof fn lemma_word_is_trimmed(s: Seq<u8>)
    requires
        is_word(s),
    ensures
        trimmed(s) == s,
{
    assert(s[0] < 128 && !is_blank(s[0]));
    assert(s[s.len() - 1] < 128 && !is_blank(s[s.len() - 1]));
}

/// Index of the first `b` in `s`, or the length of `s` if there is none.
pub fn find(s: &[u8], b: u8) -> (r: usize)
    ensures
        r == position(s@, b),
        r <= s@.len(),
{
    let mut i: usize = 0;
    while i < s.len() && s[i] != b
        invariant
            0 <= i <= s@.len(),
            forall|j: int| 0 <= j < i ==> s@[j] != b,
        decreases s.len() - i,
    {
        i = i + 1;
    }
    proof {
        lemma_position_is(s@, b, i as int);
    }
    i
}

/// Number of bytes of the blank that `s` starts with; zero if it starts
/// with none.
pub fn leading_blank(s: &[u8]) -> (r: usize)
    ensures
        r == blank_start(s@),
        r <= s@.len(),
{
    let n: usize = s.len();
    if n >= 1 && (s[0] == 32 || (9 <= s[0] && s[0] <= 13)) {
        1
    } else if n >= 2 && s[0] == 0xC2 && (s[1] == 0x85 || s[1] == 0xA0) {
        2
    } else if n >= 3 && blank_triple(s[0], s[1], s[2]) {
        3
    } else {
        0
    }
}

/// Number of bytes of the blank that `s` ends with; zero if it ends with
/// none.
pub fn trailing_blank(s: &[u8]) -> (r: usize)
    ensures
        r == blank_end(s@),
        r <= s@.len(),
{
    let n: usize = s.len();
    if n >= 1 && (s[n - 1] == 32 || (9 <= s[n - 1] && s[n - 1] <= 13)) {
        1
    } else if n >= 2 && s[n - 2] == 0xC2 && (s[n - 1] == 0x85 || s[n - 1] == 0xA0) {
        2
    } else if n >= 3 && blank_triple(s[n - 3], s[n - 2], s[n - 1]) {
        3
    } else {
        0
    }
}

/// Whether the three bytes are a blank.
fn blank_triple(a: u8, b: u8, c: u8) -> (r: bool)
    ensures
        r == is_blank_triple(a, b, c),
{
    (a == 0xE1 && b == 0x9A && c == 0x80) || (a == 0xE2 && b == 0x80 && ((0x80 <= c && c <= 0x8A)
        || c == 0xA8 || c == 0xA9 || c == 0xAF)) || (a == 0xE2 && b == 0x81 && c == 0x9F) || (a
        == 0xE3 && b == 0x80 && c == 0x80)
}

/// `s` without the blanks at its start and at its end.
pub fn trim(s: &[u8]) -> (r: &[u8])
    ensures
        r@ == trimmed(s@),
{
    let mut rest: &[u8] = s;
    let mut p: usize = leading_blank(rest);
    while p > 0
        invariant
            p == blank_start(rest@),
            p <= rest@.len(),
            trimmed(s@) == trimmed(rest@),
        decreases rest@.len(),
    {
        rest = slice_subrange(rest, p, rest.len());
        p = leading_blank(rest);
    }
    let mut q: usize = trailing_blank(rest);
    while q > 0
        invariant
            blank_start(rest@) == 0,
            q == blank_end(rest@),
            q <= rest@.len(),
            trimmed(s@) == trimmed(rest@),
        decreases rest@.len(),
    {
        let ghost whole = rest@;
        rest = slice_subrange(rest, 0, rest.len() - q);
        proof {
            assert(rest@ == whole.take(whole.len() - q));
            assert(blank_start(rest@) == 0);
        }
        q = trailing_blank(rest);
    }
    rest
}

/// Whether two byte strings are equal.
pub fn same_bytes(a: &[u8], b: &[u8]) -> (r: bool)
    ensures
        r <==> a@ == b@,
{
    if a.len() != b.len() {
        return false;
    }
    let mut i: usize = 0;
    while i < a.len()
        invariant
            a@.len() == b@.len(),
            0 <= i <= a@.len(),
            forall|j: int| 0 <= j < i ==> a@[j] == b@[j],
        decreases a.len() - i,
    {
        if a[i] != b[i] {
            return false;
        }
        i = i + 1;
    }
    assert(a@ =~= b@);
    true
}

/// Appends the bytes of `s` to `out`.
pub fn append(out: &mut Vec<u8>, s: &[u8])
    ensures
        final(out)@ == old(out)@ + s@,
{
    let mut i: usize = 0;
    while i < s.len()
        invariant
            0 <= i <= s@.len(),
            out@ == old(out)@ + s@.take(i as int),
        decreases s.len() - i,
    {
        out.push(s[i]);
        i = i + 1;
        assert(s@.take(i as int) == s@.take(i - 1).push(s@[i - 1]));
    }
    assert(s@.take(i as int) == s@);
}

} // verus!
