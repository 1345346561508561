//! Canonical textual form of a user identifier: a 128-bit value written as
//! 8-4-4-4-12 lowercase hexadecimal groups separated by dashes.
//!
//! Printing and parsing are both specified and proved inverse; parsing is
//! strict, so a well-formed id text has exactly one reading.

use vstd::prelude::*;

use crate::errors::AuthError;
use crate::num::{hex_digit, hex_val, hex_val_seq, hex_w, is_hex_lower, lemma_hex_w_props, pow16};
use crate::text::{ascii_bytes, ascii_chars, all_ascii};
use vstd::string::StrSliceExecFns;

verus! {

/// Positions of the group separators in the 36-byte text.
pub open spec fn is_dash_pos(p: int) -> bool {
    p == 8 || p == 13 || p == 18 || p == 23
}

/// The text position of hexadecimal digit `j` (0 to 31).
pub open spec fn digit_pos(j: int) -> int {
    if j < 8 {
        j
    } else if j < 12 {
        j + 1
    } else if j < 16 {
        j + 2
    } else if j < 20 {
        j + 3
    } else {
        j + 4
    }
}

/// The 32 hexadecimal digit bytes of a candidate id text, separators removed.
pub open spec fn strip_dashes(s: Seq<u8>) -> Seq<u8> {
    Seq::new(32, |j: int| s[digit_pos(j)])
}

/// The canonical 36-byte text of identifier `n`.
pub open spec fn uuid_text(n: u128) -> Seq<u8> {
    Seq::new(
        36,
        |p: int|
            if is_dash_pos(p) {
                45u8
            } else {
                hex_w(n as nat, 32)[inv_digit_pos(p)]
            },
    )
}

/// The digit index of a non-separator text position.
pub open spec fn inv_digit_pos(p: int) -> int {
    if p < 8 {
        p
    } else if p < 13 {
        p - 1
    } else if p < 18 {
        p - 2
    } else if p < 23 {
        p - 3
    } else {
        p - 4
    }
}

/// Structural well-formedness of a candidate id text.
pub open spec fn uuid_wf(s: Seq<u8>) -> bool {
    &&& s.len() == 36
    &&& s[8] == 45 && s[13] == 45 && s[18] == 45 && s[23] == 45
    &&& forall|j: int| 0 <= j < 32 ==> is_hex_lower(#[trigger] s[digit_pos(j)])
}

/// The strict reading of a candidate id text.
pub open spec fn spec_parse_uuid(s: Seq<u8>) -> Option<u128> {
    if uuid_wf(s) {
        Some(hex_val_seq(strip_dashes(s)) as u128)
    } else {
        None
    }
}

pub proof fn lemma_uuid_text_wf(n: u128)
    ensures
        uuid_wf(uuid_text(n)),
        all_ascii(uuid_text(n)),
        strip_dashes(uuid_text(n)) =~= hex_w(n as nat, 32),
{
    lemma_pow16_32();
    lemma_hex_w_props(n as nat, 32);
    let s = uuid_text(n);
    assert forall|j: int| 0 <= j < 32 implies is_hex_lower(#[trigger] s[digit_pos(j)]) by {
        assert(!is_dash_pos(digit_pos(j)));
        assert(inv_digit_pos(digit_pos(j)) == j);
        assert(s[digit_pos(j)] == hex_w(n as nat, 32)[j]);
    }
    assert forall|p: int| 0 <= p < 36 implies s[p] < 128 by {
        if !is_dash_pos(p) {
            assert(0 <= inv_digit_pos(p) < 32);
            assert(digit_pos(inv_digit_pos(p)) == p);
            assert(is_hex_lower(s[p]));
        }
    }
}

/// Printing then parsing an identifier gives it back.
pub proof fn lemma_uuid_round_trip(n: u128)
    ensures
        spec_parse_uuid(uuid_text(n)) == Some(n),
{
    lemma_uuid_text_wf(n);
    lemma_pow16_32();
    lemma_hex_w_props(n as nat, 32);
}

pub proof fn lemma_pow16_32()
    ensures
        pow16(32) == 0x1_0000_0000_0000_0000_0000_0000_0000_0000,
{
    reveal_with_fuel(pow16, 33);
    assert(pow16(32) == 0x1_0000_0000_0000_0000_0000_0000_0000_0000);
}

/// Prints the 32 hexadecimal digits of `n`, mirroring `hex_w`.
fn hex_digits_exec(n: u128, w: usize) -> (r: Vec<u8>)
    requires
        w <= 32,
    ensures
        r@ =~= hex_w(n as nat, w as nat),
    decreases w,
{
    if w == 0 {
        Vec::new()
    } else {
        let mut v = hex_digits_exec(n / 16, w - 1);
        let d = (n % 16) as u8;
        let b = if d < 10 {
            48 + d
        } else {
            87 + d
        };
        assert(b == hex_digit((n as nat % 16) as u8));
        v.push(b);
        v
    }
}

/// The canonical 36-byte text of `n`.
pub fn uuid_text_exec(n: u128) -> (r: Vec<u8>)
    ensures
        r@ =~= uuid_text(n),
{
    let d = hex_digits_exec(n, 32);
    proof {
        lemma_pow16_32();
        lemma_hex_w_props(n as nat, 32);
    }
    let mut out: Vec<u8> = Vec::new();
    let mut p: usize = 0;
    while p < 36
        invariant
            p <= 36,
            out@.len() == p,
            d@ =~= hex_w(n as nat, 32),
            d@.len() == 32,
            forall|q: int| 0 <= q < p ==> out@[q] == uuid_text(n)[q],
        decreases 36 - p,
    {
        if p == 8 || p == 13 || p == 18 || p == 23 {
            out.push(45);
        } else {
            let j = if p < 8 {
                p
            } else if p < 13 {
                p - 1
            } else if p < 18 {
                p - 2
            } else if p < 23 {
                p - 3
            } else {
                p - 4
            };
            assert(j == inv_digit_pos(p as int));
            out.push(d[j]);
        }
        p = p + 1;
    }
    assert(out@ =~= uuid_text(n));
    out
}

/// Reads a canonical id text, mirroring `spec_parse_uuid`.
pub fn parse_uuid_exec(s: &[u8]) -> (r: Option<u128>)
    ensures
        r == spec_parse_uuid(s@),
{
    if s.len() != 36 {
        return None;
    }
    if !(s[8] == 45 && s[13] == 45 && s[18] == 45 && s[23] == 45) {
        return None;
    }
    let mut acc: u128 = 0;
    let mut j: usize = 0;
    while j < 32
        invariant
            j <= 32,
            s@.len() == 36,
            forall|k: int| 0 <= k < j ==> is_hex_lower(#[trigger] s@[digit_pos(k)]),
            acc as nat == hex_val_seq(strip_dashes(s@).take(j as int)),
            (acc as nat) < pow16(j as nat),
        decreases 32 - j,
    {
        let p = if j < 8 {
            j
        } else if j < 12 {
            j + 1
        } else if j < 16 {
            j + 2
        } else if j < 20 {
            j + 3
        } else {
            j + 4
        };
        assert(p as int == digit_pos(j as int));
        let b = s[p];
        let v: u8;
        if 48 <= b && b <= 57 {
            v = b - 48;
        } else if 97 <= b && b <= 102 {
            v = b - 87;
        } else {
            proof {
                assert(!is_hex_lower(s@[digit_pos(j as int)]));
            }
            return None;
        }
        proof {
            let t = strip_dashes(s@).take(j as int);
            let t2 = strip_dashes(s@).take(j + 1 as int);
            assert(t2.drop_last() =~= t);
            assert(t2.last() == s@[digit_pos(j as int)]);
            assert(hex_val(t2.last()) == v);
            assert(hex_val_seq(t2) == hex_val_seq(t) * 16 + v as nat);
            lemma_pow16_32();
            assert(pow16((j + 1) as nat) == 16 * pow16(j as nat));
            assert((acc as nat) * 16 + (v as nat) < pow16((j + 1) as nat)) by (nonlinear_arith)
                requires
                    (acc as nat) < pow16(j as nat),
                    (v as nat) < 16,
                    pow16((j + 1) as nat) == 16 * pow16(j as nat),
            ;
            lemma_pow16_mono(j as nat);
        }
        acc = acc * 16 + v as u128;
        j = j + 1;
    }
    proof {
        assert(strip_dashes(s@).take(32) =~= strip_dashes(s@));
        assert(uuid_wf(s@));
    }
    Some(acc)
}

/// `pow16` never exceeds its value at 32 on these widths.
proof fn lemma_pow16_mono(w: nat)
    requires
        w < 32,
    ensures
        16 * pow16(w) <= pow16(32),
    decreases 32 - w,
{
    if w + 1 == 32 {
    } else {
        lemma_pow16_mono(w + 1);
        assert(pow16(w + 1) == 16 * pow16(w));
        assert(16 * pow16(w) <= 16 * pow16(w + 1)) by (nonlinear_arith)
            requires
                pow16(w) <= pow16(w + 1),
        ;
        assert(pow16(w) <= pow16(w + 1)) by (nonlinear_arith)
            requires
                pow16(w + 1) == 16 * pow16(w),
        ;
    }
}

/// The canonical text of a user identifier, as a string.
pub fn format_user_id(n: u128) -> (r: String)
    ensures
        r@ =~= ascii_chars(uuid_text(n)),
        vstd::utf8::is_ascii_chars(r@),
{
    let b = uuid_text_exec(n);
    proof {
        lemma_uuid_text_wf(n);
        crate::text::lemma_ascii_chars_bytes(b@);
    }
    crate::ext::ascii_to_string(b)
}

/// The reading of request text as an identifier: canonical form or nothing.
pub open spec fn parsed_id(s: Seq<char>) -> Option<u128> {
    if vstd::utf8::is_ascii_chars(s) {
        spec_parse_uuid(ascii_bytes(s))
    } else {
        None
    }
}

/// Reads a user identifier from request text; anything but the canonical
/// form is a validation error.
pub fn parse_user_id(s: &str) -> (r: Result<u128, AuthError>)
    ensures
        match r {
            Ok(n) => parsed_id(s@) == Some(n),
            Err(e) => e == AuthError::Validation && parsed_id(s@) is None,
        },
{
    if !s.is_ascii() {
        return Err(AuthError::Validation);
    }
    let b = s.as_bytes_vec();
    proof {
        broadcast use vstd::string::is_ascii_spec_bytes;

        assert(b@ =~= ascii_bytes(s@));
    }
    match parse_uuid_exec(b.as_slice()) {
        Some(n) => Ok(n),
        None => Err(AuthError::Validation),
    }
}

} // verus!
