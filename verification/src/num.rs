//! Decimal and hexadecimal numerals as byte text, with round-trip proofs.
//!
//! Token payloads carry the expiry as a decimal numeral and the subject as a
//! canonical 8-4-4-4-12 lowercase hexadecimal identifier. Both directions
//! (printing and parsing) are specified here and proved inverse.

use vstd::prelude::*;

use crate::text::is_dec_digit;

verus! {

// ---------------------------------------------------------------- decimal
/// The decimal digits of `n`, most significant first, no leading zeros
/// (`0` itself prints as a single digit).
pub open spec fn dec_digits(n: nat) -> Seq<u8>
    decreases n,
{
    if n < 10 {
        seq![(48 + n) as u8]
    } else {
        dec_digits(n / 10).push((48 + n % 10) as u8)
    }
}

/// The value of a sequence of decimal digit bytes, most significant first.
pub open spec fn dec_value(s: Seq<u8>) -> nat
    decreases s.len(),
{
    if s.len() == 0 {
        0
    } else {
        dec_value(s.drop_last()) * 10 + (s.last() - 48) as nat
    }
}

pub open spec fn all_dec_digits(s: Seq<u8>) -> bool {
    forall|i: int| 0 <= i < s.len() ==> is_dec_digit(#[trigger] s[i])
}

/// A canonical numeral: nonempty, digits only, no leading zero.
pub open spec fn canonical_dec(s: Seq<u8>) -> bool {
    &&& s.len() >= 1
    &&& all_dec_digits(s)
    &&& (s[0] != 48 || s.len() == 1)
}

pub proof fn lemma_dec_digits_props(n: nat)
    ensures
        canonical_dec(dec_digits(n)),
        n >= 1 ==> dec_digits(n)[0] != 48,
    decreases n,
{
    if n >= 10 {
        lemma_dec_digits_props(n / 10);
        let p = dec_digits(n / 10);
        assert forall|i: int| 0 <= i < dec_digits(n).len() implies is_dec_digit(
            #[trigger] dec_digits(n)[i],
        ) by {
            if i < p.len() {
                assert(dec_digits(n)[i] == p[i]);
            }
        }
    }
}

pub proof fn lemma_dec_round_trip(n: nat)
    ensures
        dec_value(dec_digits(n)) == n,
    decreases n,
{
    if n < 10 {
        let s = dec_digits(n);
        assert(s.drop_last() =~= Seq::<u8>::empty());
        assert(dec_value(s.drop_last()) == 0);
        assert(s.last() == (48 + n) as u8);
        assert(dec_value(s) == (s.last() - 48) as nat);
    } else {
        lemma_dec_round_trip(n / 10);
        let s = dec_digits(n);
        assert(s.drop_last() =~= dec_digits(n / 10));
        assert(s.last() == (48 + n % 10) as u8);
        assert(dec_value(s) == dec_value(s.drop_last()) * 10 + (s.last() - 48) as nat);
        assert(dec_value(s) == (n / 10) * 10 + n % 10);
        assert((n / 10) * 10 + n % 10 == n) by (nonlinear_arith);
    }
}

/// The first index at or after `i` that does not hold a decimal digit.
pub open spec fn digits_end(s: Seq<u8>, i: int) -> int
    decreases s.len() - i,
{
    if i < 0 || i >= s.len() {
        i
    } else if is_dec_digit(s[i]) {
        digits_end(s, i + 1)
    } else {
        i
    }
}

pub proof fn lemma_digits_end(s: Seq<u8>, i: int, j: int)
    requires
        0 <= i <= j <= s.len(),
        forall|k: int| i <= k < j ==> is_dec_digit(#[trigger] s[k]),
        j == s.len() || !is_dec_digit(s[j]),
    ensures
        digits_end(s, i) == j,
    decreases j - i,
{
    if i < j {
        lemma_digits_end(s, i + 1, j);
    }
}

/// Prints `n` in decimal, mirroring `dec_digits`.
pub fn dec_digits_exec(n: u64) -> (r: Vec<u8>)
    ensures
        r@ =~= dec_digits(n as nat),
    decreases n,
{
    if n < 10 {
        let mut v: Vec<u8> = Vec::new();
        v.push(48 + n as u8);
        v
    } else {
        let mut v = dec_digits_exec(n / 10);
        v.push(48 + (n % 10) as u8);
        v
    }
}

// ------------------------------------------------------------ hexadecimal
pub open spec fn pow16(w: nat) -> nat
    decreases w,
{
    if w == 0 {
        1
    } else {
        16 * pow16((w - 1) as nat)
    }
}

/// The lowercase hexadecimal digit byte for a value below 16.
pub open spec fn hex_digit(v: u8) -> u8 {
    if v < 10 {
        (48 + v) as u8
    } else {
        (87 + v) as u8
    }
}

pub open spec fn is_hex_lower(b: u8) -> bool {
    (48 <= b <= 57) || (97 <= b <= 102)
}

/// The value of a lowercase hexadecimal digit byte.
pub open spec fn hex_val(b: u8) -> u8 {
    if 48 <= b <= 57 {
        (b - 48) as u8
    } else {
        (b - 87) as u8
    }
}

/// `n` printed as exactly `w` lowercase hexadecimal digits, most
/// significant first (leading zeros kept).
pub open spec fn hex_w(n: nat, w: nat) -> Seq<u8>
    decreases w,
{
    if w == 0 {
        Seq::empty()
    } else {
        hex_w(n / 16, (w - 1) as nat).push(hex_digit((n % 16) as u8))
    }
}

pub open spec fn hex_val_seq(s: Seq<u8>) -> nat
    decreases s.len(),
{
    if s.len() == 0 {
        0
    } else {
        hex_val_seq(s.drop_last()) * 16 + hex_val(s.last()) as nat
    }
}

pub open spec fn all_hex_lower(s: Seq<u8>) -> bool {
    forall|i: int| 0 <= i < s.len() ==> is_hex_lower(#[trigger] s[i])
}

pub proof fn lemma_hex_w_props(n: nat, w: nat)
    requires
        n < pow16(w),
    ensures
        hex_w(n, w).len() == w,
        all_hex_lower(hex_w(n, w)),
        hex_val_seq(hex_w(n, w)) == n,
    decreases w,
{
    if w == 0 {
    } else {
        assert(n / 16 < pow16((w - 1) as nat)) by (nonlinear_arith)
            requires
                n < pow16(w),
                pow16(w) == 16 * pow16((w - 1) as nat),
        ;
        lemma_hex_w_props(n / 16, (w - 1) as nat);
        let p = hex_w(n / 16, (w - 1) as nat);
        let s = hex_w(n, w);
        assert(s =~= p.push(hex_digit((n % 16) as u8)));
        assert(s.drop_last() =~= p);
        assert forall|i: int| 0 <= i < s.len() implies is_hex_lower(#[trigger] s[i]) by {
            if i < p.len() {
                assert(s[i] == p[i]);
            }
        }
        assert(hex_val(hex_digit((n % 16) as u8)) == n % 16);
        assert(hex_val_seq(s) == (n / 16) * 16 + n % 16);
        assert((n / 16) * 16 + n % 16 == n) by (nonlinear_arith);
    }
}

pub proof fn lemma_hex_val_bound(s: Seq<u8>)
    requires
        all_hex_lower(s),
    ensures
        hex_val_seq(s) < pow16(s.len()),
    decreases s.len(),
{
    if s.len() > 0 {
        assert(all_hex_lower(s.drop_last())) by {
            assert(forall|i: int|
                0 <= i < s.drop_last().len() ==> s.drop_last()[i] == #[trigger] s[i]);
        }
        lemma_hex_val_bound(s.drop_last());
        let vp = hex_val_seq(s.drop_last());
        assert(hex_val_seq(s) == vp * 16 + hex_val(s.last()));
        assert(vp * 16 + 16 <= pow16(s.len())) by (nonlinear_arith)
            requires
                vp < pow16((s.len() - 1) as nat),
                pow16(s.len()) == 16 * pow16((s.len() - 1) as nat),
        ;
        assert(hex_val(s.last()) < 16);
    }
}

} // verus!
