//! Nickname comparison as IRC servers do it: ASCII letters compare without
//! case, and the brackets and backslash count as the lower-case forms of the
//! braces and the bar (`{` is `[`, `}` is `]`, `|` is `\`).

use vstd::prelude::*;
use vstd::string::StringSliceAdditionalSpecFns;

verus! {

/// Two bytes differ at most in ASCII case.
pub open spec fn ascii_case_eq(a: u8, b: u8) -> bool {
    a == b || (0x41 <= a <= 0x5a && b == a + 0x20) || (0x41 <= b <= 0x5a && a == b + 0x20)
}

/// One of the three pairs that IRC adds to ASCII case.
pub open spec fn bracket_pair(a: u8, b: u8) -> bool {
    (a == 0x7b && b == 0x5b) || (a == 0x5b && b == 0x7b) || (a == 0x7d && b == 0x5d) || (a == 0x5d
        && b == 0x7d) || (a == 0x5c && b == 0x7c) || (a == 0x7c && b == 0x5c)
}

/// Two bytes are the same character to an IRC server.
pub open spec fn irc_byte_eq(a: u8, b: u8) -> bool {
    ascii_case_eq(a, b) || bracket_pair(a, b)
}

/// Two byte strings are the same nickname to an IRC server.
pub open spec fn irc_eq(a: Seq<u8>, b: Seq<u8>) -> bool {
    a.len() == b.len() && forall|i: int| 0 <= i < a.len() ==> irc_byte_eq(#[trigger] a[i], b[i])
}

/// Two strings are the same nickname to an IRC server: their UTF-8 bytes are.
pub open spec fn nick_eq(a: Seq<char>, b: Seq<char>) -> bool {
    irc_eq(vstd::utf8::encode_utf8(a), vstd::utf8::encode_utf8(b))
}

/// The byte that stands for every byte IRC holds equal to `b`: the lower-case
/// letter, brace or bar.
pub open spec fn irc_fold(b: u8) -> u8 {
    if 0x41 <= b <= 0x5d {
        (b + 0x20) as u8
    } else {
        b
    }
}

pub fn byte_eq_ignore_irc_case(a: u8, b: u8) -> (same: bool)
    ensures
        same == irc_byte_eq(a, b),
{
    if a == b {
        return true;
    }
    if a >= 0x41 && a <= 0x5a && b == a + 0x20 {
        return true;
    }
    if b >= 0x41 && b <= 0x5a && a == b + 0x20 {
        return true;
    }
    (a == 0x7b && b == 0x5b) || (a == 0x5b && b == 0x7b) || (a == 0x7d && b == 0x5d) || (a == 0x5d
        && b == 0x7d) || (a == 0x5c && b == 0x7c) || (a == 0x7c && b == 0x5c)
}

pub fn bytes_eq_ignore_irc_case(a: &[u8], b: &[u8]) -> (same: bool)
    ensures
        same == irc_eq(a@, b@),
{
    if a.len() != b.len() {
        return false;
    }
    let mut i: usize = 0;
    while i < a.len()
        invariant
            a.len() == b.len(),
            i <= a.len(),
            forall|k: int| 0 <= k < i ==> irc_byte_eq(#[trigger] a@[k], b@[k]),
        decreases a.len() - i,
    {
        if !byte_eq_ignore_irc_case(a[i], b[i]) {
            assert(!irc_byte_eq(a@[i as int], b@[i as int]));
            return false;
        }
        i += 1;
    }
    true
}

pub fn eq_ignore_irc_case(a: &str, b: &str) -> (same: bool)
    ensures
        same == nick_eq(a@, b@),
{
    bytes_eq_ignore_irc_case(a.as_bytes(), b.as_bytes())
}

/// Bytes are equal to IRC exactly when they fold to the same byte.
pub proof fn lemma_byte_eq_is_fold_eq(a: u8, b: u8)
    ensures
        irc_byte_eq(a, b) <==> irc_fold(a) == irc_fold(b),
{
}

/// Every nickname equals itself.
pub proof fn lemma_irc_eq_reflexive(a: Seq<u8>)
    ensures
        irc_eq(a, a),
{
}

/// Nickname equality does not depend on the side a name stands on.
pub proof fn lemma_irc_eq_symmetric(a: Seq<u8>, b: Seq<u8>)
    ensures
        irc_eq(a, b) == irc_eq(b, a),
{
    if irc_eq(a, b) {
        assert forall|i: int| 0 <= i < b.len() implies irc_byte_eq(#[trigger] b[i], a[i]) by {
            assert(irc_byte_eq(a[i], b[i]));
        }
    }
    if irc_eq(b, a) {
        assert forall|i: int| 0 <= i < a.len() implies irc_byte_eq(#[trigger] a[i], b[i]) by {
            assert(irc_byte_eq(b[i], a[i]));
        }
    }
}

/// Two names equal to a third are equal to each other.
pub proof fn lemma_irc_eq_transitive(a: Seq<u8>, b: Seq<u8>, c: Seq<u8>)
    requires
        irc_eq(a, b),
        irc_eq(b, c),
    ensures
        irc_eq(a, c),
{
    assert forall|i: int| 0 <= i < a.len() implies irc_byte_eq(#[trigger] a[i], c[i]) by {
        assert(irc_byte_eq(a[i], b[i]));
        assert(irc_byte_eq(b[i], c[i]));
        lemma_byte_eq_is_fold_eq(a[i], b[i]);
        lemma_byte_eq_is_fold_eq(b[i], c[i]);
        lemma_byte_eq_is_fold_eq(a[i], c[i]);
    }
}

/// To an IRC server, being the same nickname is an equivalence: every name
/// is itself, the order of two names does not matter, and two names that are
/// a third are each other.
pub proof fn lemma_nick_eq_is_equivalence(a: Seq<char>, b: Seq<char>, c: Seq<char>)
    ensures
        nick_eq(a, a),
        nick_eq(a, b) == nick_eq(b, a),
        nick_eq(a, b) && nick_eq(b, c) ==> nick_eq(a, c),
{
    let x = vstd::utf8::encode_utf8(a);
    let y = vstd::utf8::encode_utf8(b);
    let z = vstd::utf8::encode_utf8(c);
    lemma_irc_eq_reflexive(x);
    lemma_irc_eq_symmetric(x, y);
    if nick_eq(a, b) && nick_eq(b, c) {
        lemma_irc_eq_transitive(x, y, z);
    }
}

} // verus!
