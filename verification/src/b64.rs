//! Base64url without padding, over bytes, as token envelopes use it.
//!
//! Encoding is specified chunk-wise; decoding is specified as a loose read
//! followed by a strict re-encoding check, so a sequence decodes exactly
//! when it is the canonical encoding of its value.

use vstd::prelude::*;

verus! {

/// A byte of the base64url alphabet.
pub open spec fn is_b64url_byte(b: u8) -> bool {
    (65 <= b <= 90) || (97 <= b <= 122) || (48 <= b <= 57) || b == 45 || b == 95
}

/// The alphabet byte for a 6-bit value.
pub open spec fn b64_char(v: u8) -> u8 {
    if v < 26 {
        (65 + v) as u8
    } else if v < 52 {
        (71 + v) as u8
    } else if v < 62 {
        (v - 4) as u8
    } else if v == 62 {
        45u8
    } else {
        95u8
    }
}

/// The 6-bit value of an alphabet byte.
pub open spec fn b64_val(b: u8) -> u8 {
    if 65 <= b <= 90 {
        (b - 65) as u8
    } else if 97 <= b <= 122 {
        (b - 71) as u8
    } else if 48 <= b <= 57 {
        (b + 4) as u8
    } else if b == 45 {
        62u8
    } else {
        63u8
    }
}

/// The base64url text of `s`, chunked three bytes to four characters, the
/// tail shortened, no padding.
pub open spec fn b64_encode(s: Seq<u8>) -> Seq<u8>
    decreases s.len(),
{
    if s.len() == 0 {
        Seq::empty()
    } else if s.len() == 1 {
        seq![b64_char((s[0] / 4) as u8), b64_char(((s[0] % 4) * 16) as u8)]
    } else if s.len() == 2 {
        seq![
            b64_char((s[0] / 4) as u8),
            b64_char(((s[0] % 4) * 16 + s[1] / 16) as u8),
            b64_char(((s[1] % 16) * 4) as u8),
        ]
    } else {
        seq![
            b64_char((s[0] / 4) as u8),
            b64_char(((s[0] % 4) * 16 + s[1] / 16) as u8),
            b64_char(((s[1] % 16) * 4 + s[2] / 64) as u8),
            b64_char((s[2] % 64) as u8),
        ] + b64_encode(s.skip(3))
    }
}

pub open spec fn all_b64url(t: Seq<u8>) -> bool {
    forall|i: int| 0 <= i < t.len() ==> is_b64url_byte(#[trigger] t[i])
}

/// A permissive read of base64url text, ignoring stray low bits in the tail.
pub open spec fn b64_dec_loose(t: Seq<u8>) -> Option<Seq<u8>>
    decreases t.len(),
{
    if t.len() == 0 {
        Some(Seq::empty())
    } else if t.len() == 1 {
        None
    } else if t.len() == 2 {
        if is_b64url_byte(t[0]) && is_b64url_byte(t[1]) {
            Some(seq![(b64_val(t[0]) * 4 + b64_val(t[1]) / 16) as u8])
        } else {
            None
        }
    } else if t.len() == 3 {
        if is_b64url_byte(t[0]) && is_b64url_byte(t[1]) && is_b64url_byte(t[2]) {
            Some(
                seq![
                    (b64_val(t[0]) * 4 + b64_val(t[1]) / 16) as u8,
                    ((b64_val(t[1]) % 16) * 16 + b64_val(t[2]) / 4) as u8,
                ],
            )
        } else {
            None
        }
    } else {
        if is_b64url_byte(t[0]) && is_b64url_byte(t[1]) && is_b64url_byte(t[2]) && is_b64url_byte(
            t[3],
        ) {
            match b64_dec_loose(t.skip(4)) {
                Some(r) => Some(
                    seq![
                        (b64_val(t[0]) * 4 + b64_val(t[1]) / 16) as u8,
                        ((b64_val(t[1]) % 16) * 16 + b64_val(t[2]) / 4) as u8,
                        ((b64_val(t[2]) % 4) * 64 + b64_val(t[3])) as u8,
                    ] + r,
                ),
                None => None,
            }
        } else {
            None
        }
    }
}

/// The strict reading: a loose read that reproduces the text exactly.
pub open spec fn b64_decode(t: Seq<u8>) -> Option<Seq<u8>> {
    match b64_dec_loose(t) {
        Some(b) => if b64_encode(b) == t {
            Some(b)
        } else {
            None
        },
        None => None,
    }
}

pub proof fn lemma_b64_char_val(v: u8)
    requires
        v < 64,
    ensures
        is_b64url_byte(b64_char(v)),
        b64_val(b64_char(v)) == v,
{
}

/// Every encoding stays inside the alphabet.
pub proof fn lemma_b64_alphabet(s: Seq<u8>)
    ensures
        all_b64url(b64_encode(s)),
    decreases s.len(),
{
    let t = b64_encode(s);
    if s.len() == 0 {
    } else if s.len() == 1 {
        lemma_b64_char_val((s[0] / 4) as u8);
        lemma_b64_char_val(((s[0] % 4) * 16) as u8);
    } else if s.len() == 2 {
        lemma_b64_char_val((s[0] / 4) as u8);
        lemma_b64_char_val(((s[0] % 4) * 16 + s[1] / 16) as u8);
        lemma_b64_char_val(((s[1] % 16) * 4) as u8);
    } else {
        lemma_b64_alphabet(s.skip(3));
        lemma_b64_char_val((s[0] / 4) as u8);
        lemma_b64_char_val(((s[0] % 4) * 16 + s[1] / 16) as u8);
        lemma_b64_char_val(((s[1] % 16) * 4 + s[2] / 64) as u8);
        lemma_b64_char_val((s[2] % 64) as u8);
        let rest = b64_encode(s.skip(3));
        assert forall|i: int| 0 <= i < t.len() implies is_b64url_byte(#[trigger] t[i]) by {
            if i >= 4 {
                assert(t[i] == rest[i - 4]);
            }
        }
    }
}

/// Loose reading inverts encoding.
pub proof fn lemma_b64_loose_round_trip(s: Seq<u8>)
    ensures
        b64_dec_loose(b64_encode(s)) == Some(s),
    decreases s.len(),
{
    let t = b64_encode(s);
    if s.len() == 0 {
        assert(s =~= Seq::<u8>::empty());
    } else if s.len() == 1 {
        assert(b64_dec_loose(t) matches Some(r) && r =~= s);
    } else if s.len() == 2 {
        assert((b64_val(t[1]) % 16) * 16 + b64_val(t[2]) / 4 == s[1]);
        assert(b64_dec_loose(t) matches Some(r) && r =~= s);
    } else {
        lemma_b64_loose_round_trip(s.skip(3));
        assert(t.len() >= 4);
        assert(t.skip(4) =~= b64_encode(s.skip(3)));
        let r0 = b64_dec_loose(t.skip(4));
        assert(r0 == Some(s.skip(3)));
        assert(b64_val(t[0]) == (s[0] / 4) as u8);
        assert(b64_val(t[1]) == ((s[0] % 4) * 16 + s[1] / 16) as u8);
        assert(b64_val(t[2]) == ((s[1] % 16) * 4 + s[2] / 64) as u8);
        assert(b64_val(t[3]) == (s[2] % 64) as u8);
        assert(b64_dec_loose(t) matches Some(r) && r =~= s);
    }
}

/// Strict reading inverts encoding.
pub proof fn lemma_b64_round_trip(s: Seq<u8>)
    ensures
        b64_decode(b64_encode(s)) == Some(s),
{
    lemma_b64_loose_round_trip(s);
}

/// The alphabet byte for a 6-bit value.
fn b64_byte(v: u8) -> (r: u8)
    requires
        v < 64,
    ensures
        r == b64_char(v),
{
    if v < 26 {
        65 + v
    } else if v < 52 {
        71 + v
    } else if v < 62 {
        v - 4
    } else if v == 62 {
        45
    } else {
        95
    }
}

/// The 6-bit value of a byte, if it is in the alphabet.
fn b64_byte_val(b: u8) -> (r: Option<u8>)
    ensures
        r is Some <==> is_b64url_byte(b),
        r matches Some(v) ==> v == b64_val(b) && v < 64,
{
    if 65 <= b && b <= 90 {
        Some(b - 65)
    } else if 97 <= b && b <= 122 {
        Some(b - 71)
    } else if 48 <= b && b <= 57 {
        Some(b + 4)
    } else if b == 45 {
        Some(62)
    } else if b == 95 {
        Some(63)
    } else {
        None
    }
}

/// Encodes `s`, mirroring `b64_encode`.
pub fn b64_encode_exec(s: &Vec<u8>) -> (r: Vec<u8>)
    ensures
        r@ =~= b64_encode(s@),
{
    let mut out: Vec<u8> = Vec::new();
    let mut i: usize = 0;
    proof {
        assert(s@.skip(0) =~= s@);
        assert(Seq::<u8>::empty() + b64_encode(s@) =~= b64_encode(s@));
    }
    while s.len() - i >= 3
        invariant
            i <= s.len(),
            b64_encode(s@) =~= out@ + b64_encode(s@.skip(i as int)),
        decreases s.len() - i,
    {
        assert(s@.skip(i as int)[0] == s@[i as int] && s@.skip(i as int)[1] == s@[i + 1]
            && s@.skip(i as int)[2] == s@[i + 2]);
        out.push(b64_byte(s[i] / 4));
        out.push(b64_byte((s[i] % 4) * 16 + s[i + 1] / 16));
        out.push(b64_byte((s[i + 1] % 16) * 4 + s[i + 2] / 64));
        out.push(b64_byte(s[i + 2] % 64));
        proof {
            assert(s@.skip(i as int).skip(3) =~= s@.skip(i + 3));
        }
        i = i + 3;
    }
    let rem = s.len() - i;
    if rem == 1 {
        assert(s@.skip(i as int)[0] == s@[i as int]);
        out.push(b64_byte(s[i] / 4));
        out.push(b64_byte((s[i] % 4) * 16));
    } else if rem == 2 {
        assert(s@.skip(i as int)[0] == s@[i as int] && s@.skip(i as int)[1] == s@[i + 1]);
        out.push(b64_byte(s[i] / 4));
        out.push(b64_byte((s[i] % 4) * 16 + s[i + 1] / 16));
        out.push(b64_byte((s[i + 1] % 16) * 4));
    } else {
        assert(s@.skip(i as int) =~= Seq::<u8>::empty());
    }
    out
}

/// Whether two byte slices hold the same bytes.
pub fn bytes_eq(a: &[u8], b: &[u8]) -> (r: bool)
    ensures
        r == (a@ == b@),
{
    if a.len() != b.len() {
        assert(a@.len() != b@.len());
        return false;
    }
    let mut i: usize = 0;
    while i < a.len()
        invariant
            i <= a.len(),
            a@.len() == b@.len(),
            forall|k: int| 0 <= k < i ==> a@[k] == b@[k],
        decreases a.len() - i,
    {
        if a[i] != b[i] {
            return false;
        }
        i = i + 1;
    }
    proof {
        assert(a@ =~= b@);
    }
    true
}

/// Decodes strict base64url, mirroring `b64_decode`.
pub fn b64_decode_exec(t: &Vec<u8>) -> (r: Option<Vec<u8>>)
    ensures
        match r {
            Some(b) => b64_decode(t@) == Some(b@),
            None => b64_decode(t@) is None,
        },
{
    let mut out: Vec<u8> = Vec::new();
    let mut i: usize = 0;
    proof {
        assert(t@.skip(0) =~= t@);
        if let Some(r) = b64_dec_loose(t@) {
            assert(Seq::<u8>::empty() + r =~= r);
        }
    }
    while t.len() - i >= 4
        invariant
            i <= t.len(),
            b64_dec_loose(t@) == opt_prepend(out@, b64_dec_loose(t@.skip(i as int))),
        decreases t.len() - i,
    {
        assert(t@.skip(i as int)[0] == t@[i as int] && t@.skip(i as int)[1] == t@[i + 1]
            && t@.skip(i as int)[2] == t@[i + 2] && t@.skip(i as int)[3] == t@[i + 3]);
        let v0 = match b64_byte_val(t[i]) {
            Some(v) => v,
            None => {
                return None;
            },
        };
        let v1 = match b64_byte_val(t[i + 1]) {
            Some(v) => v,
            None => {
                return None;
            },
        };
        let v2 = match b64_byte_val(t[i + 2]) {
            Some(v) => v,
            None => {
                return None;
            },
        };
        let v3 = match b64_byte_val(t[i + 3]) {
            Some(v) => v,
            None => {
                return None;
            },
        };
        out.push(v0 * 4 + v1 / 16);
        out.push((v1 % 16) * 16 + v2 / 4);
        out.push((v2 % 4) * 64 + v3);
        proof {
            assert(t@.skip(i as int).skip(4) =~= t@.skip(i + 4));
        }
        i = i + 4;
    }
    let rem = t.len() - i;
    if rem == 1 {
        return None;
    } else if rem == 2 {
        assert(t@.skip(i as int)[0] == t@[i as int] && t@.skip(i as int)[1] == t@[i + 1]);
        let v0 = match b64_byte_val(t[i]) {
            Some(v) => v,
            None => {
                return None;
            },
        };
        let v1 = match b64_byte_val(t[i + 1]) {
            Some(v) => v,
            None => {
                return None;
            },
        };
        out.push(v0 * 4 + v1 / 16);
    } else if rem == 3 {
        assert(t@.skip(i as int)[0] == t@[i as int] && t@.skip(i as int)[1] == t@[i + 1]
            && t@.skip(i as int)[2] == t@[i + 2]);
        let v0 = match b64_byte_val(t[i]) {
            Some(v) => v,
            None => {
                return None;
            },
        };
        let v1 = match b64_byte_val(t[i + 1]) {
            Some(v) => v,
            None => {
                return None;
            },
        };
        let v2 = match b64_byte_val(t[i + 2]) {
            Some(v) => v,
            None => {
                return None;
            },
        };
        out.push(v0 * 4 + v1 / 16);
        out.push((v1 % 16) * 16 + v2 / 4);
    } else {
        assert(t@.skip(i as int) =~= Seq::<u8>::empty());
    }
    assert(b64_dec_loose(t@) == Some(out@));
    let enc = b64_encode_exec(&out);
    if bytes_eq(enc.as_slice(), t.as_slice()) {
        Some(out)
    } else {
        None
    }
}

/// Prepends a prefix to a successfully read tail.
pub open spec fn opt_prepend(p: Seq<u8>, o: Option<Seq<u8>>) -> Option<Seq<u8>> {
    match o {
        Some(r) => Some(p + r),
        None => None,
    }
}

} // verus!
