//! Shared text-level spec functions: the bridge between byte sequences and
//! character sequences for ASCII data, and small byte classifications.

use vstd::prelude::*;

verus! {

/// The characters of an ASCII byte sequence, one character per byte.
pub open spec fn ascii_chars(b: Seq<u8>) -> Seq<char> {
    Seq::new(b.len(), |i: int| b[i] as char)
}

/// The bytes of a character sequence known to be ASCII, one byte per
/// character.
pub open spec fn ascii_bytes(s: Seq<char>) -> Seq<u8> {
    Seq::new(s.len(), |i: int| s[i] as u8)
}

/// Every byte is below 128.
pub open spec fn all_ascii(b: Seq<u8>) -> bool {
    forall|i: int| 0 <= i < b.len() ==> b[i] < 128
}

pub open spec fn is_dec_digit(b: u8) -> bool {
    48 <= b <= 57
}

/// A decimal-digit character (used for one-time codes, which are text).
pub open spec fn is_dec_digit_char(c: char) -> bool {
    '0' <= c <= '9'
}

pub proof fn lemma_ascii_chars_bytes(b: Seq<u8>)
    requires
        all_ascii(b),
    ensures
        ascii_bytes(ascii_chars(b)) =~= b,
        vstd::utf8::is_ascii_chars(ascii_chars(b)),
{
    assert forall|i: int| 0 <= i < b.len() implies (ascii_chars(b)[i] as u8) == b[i] by {
        assert(b[i] < 128);
    }
    assert forall|i: int| 0 <= i < ascii_chars(b).len() implies (ascii_chars(b)[i] as nat)
        < 128 by {
        assert(b[i] < 128);
    }
}

pub proof fn lemma_ascii_bytes_chars(s: Seq<char>)
    requires
        vstd::utf8::is_ascii_chars(s),
    ensures
        ascii_chars(ascii_bytes(s)) =~= s,
        all_ascii(ascii_bytes(s)),
{
    assert forall|i: int| 0 <= i < s.len() implies ascii_bytes(s)[i] < 128 && ((
    ascii_bytes(s)[i]) as char) == s[i] by {
        assert((s[i] as nat) < 128);
    }
}

} // verus!
