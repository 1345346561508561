//! The claim set a token carries, and its canonical JSON text.
//!
//! A claim set is serialized to one fixed JSON shape; parsing is a loose
//! read followed by a strict re-serialization check, so a payload parses
//! exactly when it is the canonical text of its claims.

use vstd::prelude::*;

use crate::ids::{spec_parse_uuid, uuid_text, uuid_text_exec, parse_uuid_exec, lemma_uuid_round_trip, lemma_uuid_text_wf};
use crate::num::{
    dec_digits, dec_digits_exec, dec_value, digits_end, lemma_dec_digits_props,
    lemma_dec_round_trip, lemma_digits_end,
};
use crate::text::is_dec_digit;
use crate::b64::bytes_eq;

verus! {

/// Which consuming context a token is restricted to.
#[derive(Clone, Copy, Debug, PartialEq, Eq, Structural)]
pub enum Audience {
    /// The step-up check (`mfa-verification`).
    MfaVerification,
    /// Resource access (`urn:auth-center:api`).
    Api,
    /// Token refresh (`refresh-token`).
    Refresh,
}

/// The authentication-methods-reference claim: which factors were proven.
#[derive(Clone, Copy, Debug, PartialEq, Eq, Structural)]
pub enum Amr {
    /// No `amr` claim at all (refresh tokens).
    Absent,
    /// Password only (`["pwd"]`).
    Pwd,
    /// Password and second factor (`["pwd","mfa"]`).
    PwdMfa,
}

/// A token payload: subject, expiry (seconds since the epoch), audience,
/// and proven methods. Immutable once issued.
#[derive(Clone, Copy, Debug, PartialEq, Eq, Structural)]
pub struct Claims {
    pub sub: u128,
    pub exp: u64,
    pub aud: Audience,
    pub amr: Amr,
}

// `{"sub":"`
pub open spec fn sub_pre() -> Seq<u8> {
    seq![123u8, 34, 115, 117, 98, 34, 58, 34]
}

// `","exp":`
pub open spec fn exp_pre() -> Seq<u8> {
    seq![34u8, 44, 34, 101, 120, 112, 34, 58]
}

// `,"aud":"`
pub open spec fn aud_pre() -> Seq<u8> {
    seq![44u8, 34, 97, 117, 100, 34, 58, 34]
}

// `mfa-verification`
pub open spec fn tag_mfa() -> Seq<u8> {
    seq![109u8, 102, 97, 45, 118, 101, 114, 105, 102, 105, 99, 97, 116, 105, 111, 110]
}

// `urn:auth-center:api`
pub open spec fn tag_api() -> Seq<u8> {
    seq![117u8, 114, 110, 58, 97, 117, 116, 104, 45, 99, 101, 110, 116, 101, 114, 58, 97, 112, 105]
}

// `refresh-token`
pub open spec fn tag_refresh() -> Seq<u8> {
    seq![114u8, 101, 102, 114, 101, 115, 104, 45, 116, 111, 107, 101, 110]
}

pub open spec fn aud_tag(a: Audience) -> Seq<u8> {
    match a {
        Audience::MfaVerification => tag_mfa(),
        Audience::Api => tag_api(),
        Audience::Refresh => tag_refresh(),
    }
}

// `"}` or `","amr":["pwd"]}` or `","amr":["pwd","mfa"]}`
pub open spec fn amr_tail(a: Amr) -> Seq<u8> {
    match a {
        Amr::Absent => seq![34u8, 125],
        Amr::Pwd => seq![34u8, 44, 34, 97, 109, 114, 34, 58, 91, 34, 112, 119, 100, 34, 93, 125],
        Amr::PwdMfa => seq![
            34u8, 44, 34, 97, 109, 114, 34, 58, 91, 34, 112, 119, 100, 34, 44, 34, 109, 102, 97,
            34, 93, 125,
        ],
    }
}

/// The canonical JSON text of a claim set.
pub open spec fn claims_json(c: Claims) -> Seq<u8> {
    sub_pre() + uuid_text(c.sub) + exp_pre() + dec_digits(c.exp as nat) + aud_pre() + aud_tag(
        c.aud,
    ) + amr_tail(c.amr)
}

/// A permissive read of a candidate payload.
pub open spec fn parse_claims_loose(j: Seq<u8>) -> Option<Claims> {
    if j.len() < 52 || j.subrange(0, 8) != sub_pre() {
        None
    } else if spec_parse_uuid(j.subrange(8, 44)) is None {
        None
    } else if j.subrange(44, 52) != exp_pre() {
        None
    } else {
        let e = digits_end(j, 52);
        if e == 52 || dec_value(j.subrange(52, e)) > u64::MAX {
            None
        } else if j.len() < e + 8 || j.subrange(e, e + 8) != aud_pre() {
            None
        } else {
            let a = e + 8;
            let aud_q = if j.len() >= a + 16 && j.subrange(a, a + 16) == tag_mfa() {
                Some((Audience::MfaVerification, a + 16))
            } else if j.len() >= a + 19 && j.subrange(a, a + 19) == tag_api() {
                Some((Audience::Api, a + 19))
            } else if j.len() >= a + 13 && j.subrange(a, a + 13) == tag_refresh() {
                Some((Audience::Refresh, a + 13))
            } else {
                None
            };
            match aud_q {
                None => None,
                Some((aud, q)) => {
                    let t = j.subrange(q, j.len() as int);
                    let amr = if t == amr_tail(Amr::Absent) {
                        Some(Amr::Absent)
                    } else if t == amr_tail(Amr::Pwd) {
                        Some(Amr::Pwd)
                    } else if t == amr_tail(Amr::PwdMfa) {
                        Some(Amr::PwdMfa)
                    } else {
                        None
                    };
                    match amr {
                        None => None,
                        Some(am) => Some(
                            Claims {
                                sub: spec_parse_uuid(j.subrange(8, 44))->0,
                                exp: dec_value(j.subrange(52, e)) as u64,
                                aud,
                                amr: am,
                            },
                        ),
                    }
                },
            }
        }
    }
}

/// The strict reading: a loose read that reproduces the payload exactly.
pub open spec fn spec_parse_claims(j: Seq<u8>) -> Option<Claims> {
    match parse_claims_loose(j) {
        Some(c) => if claims_json(c) == j {
            Some(c)
        } else {
            None
        },
        None => None,
    }
}

/// Serializing then parsing a claim set gives it back.
pub proof fn lemma_claims_round_trip(c: Claims)
    ensures
        spec_parse_claims(claims_json(c)) == Some(c),
{
    let j = claims_json(c);
    let u = uuid_text(c.sub);
    let d = dec_digits(c.exp as nat);
    let tg = aud_tag(c.aud);
    let tl = amr_tail(c.amr);
    lemma_uuid_text_wf(c.sub);
    lemma_uuid_round_trip(c.sub);
    lemma_dec_digits_props(c.exp as nat);
    lemma_dec_round_trip(c.exp as nat);
    let dl = d.len() as int;
    let e = 52 + dl;
    let a = e + 8;
    let q = a + tg.len() as int;
    assert(j.len() == q + tl.len());
    assert(j.subrange(0, 8) =~= sub_pre());
    assert(j.subrange(8, 44) =~= u);
    assert(j.subrange(44, 52) =~= exp_pre());
    assert(j.subrange(52, e) =~= d);
    assert(j.subrange(e, a) =~= aud_pre());
    assert(j.subrange(a, q) =~= tg);
    assert(j.subrange(q, j.len() as int) =~= tl);
    // The digit span ends exactly where the audience key begins.
    assert(j[e] == 44);
    assert(!is_dec_digit(j[e]));
    assert forall|k: int| 52 <= k < e implies is_dec_digit(#[trigger] j[k]) by {
        assert(j[k] == d[k - 52]);
    }
    lemma_digits_end(j, 52, e);
    assert(dec_value(j.subrange(52, e)) == c.exp as nat);
    // The audience tag is recognized, and as the right variant: the three
    // tags differ in their first byte.
    assert(tag_mfa()[0] == 109 && tag_api()[0] == 117 && tag_refresh()[0] == 114);
    match c.aud {
        Audience::MfaVerification => {
            assert(j.len() >= a + 16 && j.subrange(a, a + 16) == tag_mfa());
        },
        Audience::Api => {
            assert(j.subrange(a, a + 19) == tag_api());
            assert(j[a] == 117);
            if j.len() >= a + 16 {
                assert(j.subrange(a, a + 16)[0] == 117);
                assert(j.subrange(a, a + 16) != tag_mfa());
            }
        },
        Audience::Refresh => {
            assert(j.subrange(a, a + 13) == tag_refresh());
            assert(j[a] == 114);
            if j.len() >= a + 16 {
                assert(j.subrange(a, a + 16)[0] == 114);
                assert(j.subrange(a, a + 16) != tag_mfa());
            }
            if j.len() >= a + 19 {
                assert(j.subrange(a, a + 19)[0] == 114);
                assert(j.subrange(a, a + 19) != tag_api());
            }
        },
    }
    // The tail is recognized as the right variant: the three tails have
    // three different lengths.
    let t = j.subrange(q, j.len() as int);
    assert(t == tl);
    assert(amr_tail(Amr::Absent).len() == 2 && amr_tail(Amr::Pwd).len() == 16 && amr_tail(
        Amr::PwdMfa,
    ).len() == 22);
    let parsed = parse_claims_loose(j);
    assert(parsed matches Some(p) && p == c);
}

/// Serializes a claim set to its canonical JSON text.
pub fn build_claims_json(c: &Claims) -> (r: Vec<u8>)
    ensures
        r@ =~= claims_json(*c),
{
    let mut out = sub_pre_vec();
    let mut u = uuid_text_exec(c.sub);
    out.append(&mut u);
    let mut p2 = exp_pre_vec();
    out.append(&mut p2);
    let mut d = dec_digits_exec(c.exp);
    out.append(&mut d);
    let mut p3 = aud_pre_vec();
    out.append(&mut p3);
    let mut tg = tag_vec(c.aud);
    out.append(&mut tg);
    let mut tl = amr_tail_vec(c.amr);
    out.append(&mut tl);
    assert(out@ =~= claims_json(*c));
    out
}

/// Whether `pat` occurs in `j` at position `at`.
pub fn match_at(j: &Vec<u8>, at: usize, pat: &Vec<u8>) -> (r: bool)
    requires
        at <= j@.len(),
    ensures
        r == (at + pat@.len() <= j@.len() && j@.subrange(at as int, at + pat@.len()) == pat@),
{
    let n = j.len();
    if n - at < pat.len() {
        return false;
    }
    let mut k: usize = 0;
    while k < pat.len()
        invariant
            k <= pat@.len(),
            n == j@.len(),
            at + pat@.len() <= n,
            forall|i: int| 0 <= i < k ==> j@[at + i] == pat@[i],
        decreases pat.len() - k,
    {
        if j[at + k] != pat[k] {
            assert(j@.subrange(at as int, at + pat@.len())[k as int] != pat@[k as int]);
            return false;
        }
        k = k + 1;
    }
    assert(j@.subrange(at as int, at + pat@.len()) =~= pat@);
    true
}

/// The byte text of the fixed pieces, for matching.
fn sub_pre_vec() -> (r: Vec<u8>)
    ensures
        r@ =~= sub_pre(),
{
    let mut v: Vec<u8> = Vec::new();
    v.push(123);
    v.push(34);
    v.push(115);
    v.push(117);
    v.push(98);
    v.push(34);
    v.push(58);
    v.push(34);
    v
}

fn exp_pre_vec() -> (r: Vec<u8>)
    ensures
        r@ =~= exp_pre(),
{
    let mut v: Vec<u8> = Vec::new();
    v.push(34);
    v.push(44);
    v.push(34);
    v.push(101);
    v.push(120);
    v.push(112);
    v.push(34);
    v.push(58);
    v
}

fn aud_pre_vec() -> (r: Vec<u8>)
    ensures
        r@ =~= aud_pre(),
{
    let mut v: Vec<u8> = Vec::new();
    v.push(44);
    v.push(34);
    v.push(97);
    v.push(117);
    v.push(100);
    v.push(34);
    v.push(58);
    v.push(34);
    v
}

fn tag_vec(a: Audience) -> (r: Vec<u8>)
    ensures
        r@ =~= aud_tag(a),
{
    let mut v: Vec<u8> = Vec::new();
    match a {
        Audience::MfaVerification => {
            v.push(109);
            v.push(102);
            v.push(97);
            v.push(45);
            v.push(118);
            v.push(101);
            v.push(114);
            v.push(105);
            v.push(102);
            v.push(105);
            v.push(99);
            v.push(97);
            v.push(116);
            v.push(105);
            v.push(111);
            v.push(110);
        },
        Audience::Api => {
            v.push(117);
            v.push(114);
            v.push(110);
            v.push(58);
            v.push(97);
            v.push(117);
            v.push(116);
            v.push(104);
            v.push(45);
            v.push(99);
            v.push(101);
            v.push(110);
            v.push(116);
            v.push(101);
            v.push(114);
            v.push(58);
            v.push(97);
            v.push(112);
            v.push(105);
        },
        Audience::Refresh => {
            v.push(114);
            v.push(101);
            v.push(102);
            v.push(114);
            v.push(101);
            v.push(115);
            v.push(104);
            v.push(45);
            v.push(116);
            v.push(111);
            v.push(107);
            v.push(101);
            v.push(110);
        },
    }
    v
}

fn amr_tail_vec(a: Amr) -> (r: Vec<u8>)
    ensures
        r@ =~= amr_tail(a),
{
    let mut v: Vec<u8> = Vec::new();
    v.push(34);
    match a {
        Amr::Absent => {
            v.push(125);
        },
        Amr::Pwd => {
            v.push(44);
            v.push(34);
            v.push(97);
            v.push(109);
            v.push(114);
            v.push(34);
            v.push(58);
            v.push(91);
            v.push(34);
            v.push(112);
            v.push(119);
            v.push(100);
            v.push(34);
            v.push(93);
            v.push(125);
        },
        Amr::PwdMfa => {
            v.push(44);
            v.push(34);
            v.push(97);
            v.push(109);
            v.push(114);
            v.push(34);
            v.push(58);
            v.push(91);
            v.push(34);
            v.push(112);
            v.push(119);
            v.push(100);
            v.push(34);
            v.push(44);
            v.push(34);
            v.push(109);
            v.push(102);
            v.push(97);
            v.push(34);
            v.push(93);
            v.push(125);
        },
    }
    v
}

/// Reads a candidate payload, mirroring `spec_parse_claims`.
#[verifier::rlimit(100)]
pub fn parse_claims(j: &Vec<u8>) -> (r: Option<Claims>)
    ensures
        r == spec_parse_claims(j@),
        r matches Some(c) ==> j@ == claims_json(c),
{
    if j.len() < 52 {
        return None;
    }
    let p1 = sub_pre_vec();
    if !match_at(j, 0, &p1) {
        return None;
    }
    let sub = match parse_uuid_exec(vstd::slice::slice_subrange(j.as_slice(), 8, 44)) {
        Some(n) => n,
        None => {
            return None;
        },
    };
    let p2 = exp_pre_vec();
    if !match_at(j, 44, &p2) {
        return None;
    }
    // Scan the digit span of the expiry, mirroring `digits_end`.
    let mut i: usize = 52;
    let mut acc: u64 = 0;
    let mut overflow: bool = false;
    while i < j.len() && 48 <= j[i] && j[i] <= 57
        invariant
            52 <= i <= j@.len(),
            j@.len() >= 52,
            forall|k: int| 52 <= k < i ==> is_dec_digit(#[trigger] j@[k]),
            !overflow ==> acc as nat == dec_value(j@.subrange(52, i as int)),
            overflow ==> dec_value(j@.subrange(52, i as int)) > u64::MAX,
        decreases j@.len() - i,
    {
        let d: u64 = (j[i] - 48) as u64;
        proof {
            let pre = j@.subrange(52, i as int);
            let cur = j@.subrange(52, i + 1);
            assert(cur.drop_last() =~= pre);
            assert(cur.last() == j@[i as int]);
            assert(dec_value(cur) == dec_value(pre) * 10 + d);
            if !overflow && acc as nat <= ((u64::MAX - d as nat) as nat) / 10 {
                assert((acc as nat) * 10 + d as nat <= u64::MAX) by (nonlinear_arith)
                    requires
                        acc as nat <= ((u64::MAX - d as nat) as nat) / 10,
                        d as nat <= 9,
                ;
            }
            if !overflow && acc as nat > ((u64::MAX - d as nat) as nat) / 10 {
                assert((acc as nat) * 10 + d as nat > u64::MAX) by (nonlinear_arith)
                    requires
                        acc as nat > ((u64::MAX - d as nat) as nat) / 10,
                        d as nat <= 9,
                ;
            }
            if overflow {
                assert(dec_value(cur) >= dec_value(pre)) by (nonlinear_arith)
                    requires
                        dec_value(cur) == dec_value(pre) * 10 + d as nat,
                ;
            }
        }
        if !overflow {
            if acc <= (u64::MAX - d) / 10 {
                acc = acc * 10 + d;
            } else {
                overflow = true;
            }
        }
        i = i + 1;
    }
    proof {
        lemma_digits_end(j@, 52, i as int);
    }
    if i == 52 {
        return None;
    }
    if overflow {
        return None;
    }
    let e = i;
    let p3 = aud_pre_vec();
    if j.len() - e < 8 || !match_at(j, e, &p3) {
        return None;
    }
    let a = e + 8;
    let tm = tag_vec(Audience::MfaVerification);
    let ta = tag_vec(Audience::Api);
    let tr = tag_vec(Audience::Refresh);
    let aud: Audience;
    let q: usize;
    if match_at(j, a, &tm) {
        aud = Audience::MfaVerification;
        q = a + 16;
    } else if match_at(j, a, &ta) {
        aud = Audience::Api;
        q = a + 19;
    } else if match_at(j, a, &tr) {
        aud = Audience::Refresh;
        q = a + 13;
    } else {
        return None;
    }
    let t0 = amr_tail_vec(Amr::Absent);
    let t1 = amr_tail_vec(Amr::Pwd);
    let t2 = amr_tail_vec(Amr::PwdMfa);
    let amr: Amr;
    if j.len() - q == 2 && match_at(j, q, &t0) {
        amr = Amr::Absent;
    } else if j.len() - q == 16 && match_at(j, q, &t1) {
        amr = Amr::Pwd;
    } else if j.len() - q == 22 && match_at(j, q, &t2) {
        amr = Amr::PwdMfa;
    } else {
        proof {
            let t = j@.subrange(q as int, j@.len() as int);
            assert(t.len() == j@.len() - q);
            assert(t != amr_tail(Amr::Absent) && t != amr_tail(Amr::Pwd) && t != amr_tail(
                Amr::PwdMfa,
            )) by {
                if t.len() == 2 {
                    assert(j@.subrange(q as int, q + 2) =~= t);
                } else if t.len() == 16 {
                    assert(j@.subrange(q as int, q + 16) =~= t);
                } else if t.len() == 22 {
                    assert(j@.subrange(q as int, q + 22) =~= t);
                }
            }
        }
        return None;
    }
    proof {
        assert(j@.subrange(q as int, q + amr_tail(amr).len()) =~= j@.subrange(
            q as int,
            j@.len() as int,
        ));
    }
    let cand = Claims { sub, exp: acc, aud, amr };
    let re = build_claims_json(&cand);
    if bytes_eq(re.as_slice(), j.as_slice()) {
        assert(parse_claims_loose(j@) == Some(cand));
        Some(cand)
    } else {
        assert(parse_claims_loose(j@) == Some(cand));
        None
    }
}

} // verus!
