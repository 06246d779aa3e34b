//! Stateless signed claims: a self-contained, tamper-evident token carrying
//! issuer, purpose, audience and expiry. Distinct from opaque session tokens:
//! a claims token is verified by recomputing its keyed tag, never by lookup.
//!
//! Wire format, all ASCII: each of the three text fields is written as
//! `<decimal byte length>:<bytes>`, followed by `<iat>:<exp>:` and finally
//! the decimal keyed tag of everything before it, colon-terminated.
use crate::codec::{
    all_ascii, append_bytes, ascii_bytes_to_string, bytes_of_chars, chars_of_bytes,
    lemma_ascii_chars_bytes_roundtrip, lemma_digits_are_digits, lemma_read_dec_at, read_dec,
    render_u64, spec_digits, spec_read_dec, str_bytes, COLON,
};
use crate::errors::TokenError;
use vstd::prelude::*;
use vstd::string::StrSliceExecFns;
use vstd::string::StringSliceAdditionalSpecFns;

verus! {

pub const MAC_OFFSET: u64 = 0xcbf2_9ce4_8422_2325;

pub const MAC_PRIME: u64 = 0x0000_0100_0000_01b3;

/// One step of the keyed tag: xor the byte in, multiply by the prime mod 2^64.
pub open spec fn mac_step(h: u64, b: u8) -> u64 {
    ((((h ^ (b as u64)) as nat) * (MAC_PRIME as nat)) % 0x1_0000_0000_0000_0000) as u64
}

pub open spec fn spec_mac_fold(data: Seq<u8>, i: int, h: u64) -> u64
    decreases data.len() - i,
{
    if i < 0 || i >= data.len() {
        h
    } else {
        spec_mac_fold(data, i + 1, mac_step(h, data[i]))
    }
}

/// The keyed 64-bit tag of a message: a fold over the key bytes, then the
/// message bytes. It depends on nothing but the key and the message.
pub open spec fn spec_mac64(key: Seq<u8>, msg: Seq<u8>) -> u64 {
    spec_mac_fold(msg, 0, spec_mac_fold(key, 0, MAC_OFFSET))
}

fn mac_fold(data: &Vec<u8>, h0: u64) -> (r: u64)
    ensures
        r == spec_mac_fold(data@, 0, h0),
{
    let mut h: u64 = h0;
    let mut i: usize = 0;
    while i < data.len()
        invariant
            i <= data@.len(),
            spec_mac_fold(data@, 0, h0) == spec_mac_fold(data@, i as int, h),
        decreases data@.len() - i,
    {
        h = (h ^ (data[i] as u64)).wrapping_mul(MAC_PRIME);
        i = i + 1;
    }
    h
}

/// Computes the keyed tag of `msg` under `key`.
pub fn mac64(key: &Vec<u8>, msg: &Vec<u8>) -> (r: u64)
    ensures
        r == spec_mac64(key@, msg@),
{
    let h = mac_fold(key, MAC_OFFSET);
    mac_fold(msg, h)
}

/// The ephemeral, unpersisted value object behind a signed token.
pub struct Claims {
    /// The service issuer string.
    pub iss: String,
    /// The human-readable purpose tag; advisory, not a security boundary.
    pub sub: String,
    /// The target entity, written `"<kind>:<id>"`.
    pub aud: String,
    /// Unix seconds at issuance.
    pub iat: u64,
    /// Unix seconds after which the token is expired.
    pub exp: u64,
}

/// Claims whose text fields are plain ASCII — every claim this crate issues.
pub open spec fn wf_claims(c: &Claims) -> bool {
    vstd::utf8::is_ascii_chars(c.iss@) && vstd::utf8::is_ascii_chars(c.sub@)
        && vstd::utf8::is_ascii_chars(c.aud@)
}

/// A text field on the wire: decimal byte length, colon, the bytes.
pub open spec fn enc_field(f: Seq<u8>) -> Seq<u8> {
    spec_digits(f.len()) + seq![COLON] + f
}

/// Everything the tag covers.
pub open spec fn spec_payload(iss: Seq<u8>, sub: Seq<u8>, aud: Seq<u8>, iat: u64, exp: u64) -> Seq<
    u8,
> {
    enc_field(iss) + enc_field(sub) + enc_field(aud) + spec_digits(iat as nat) + seq![COLON]
        + spec_digits(exp as nat) + seq![COLON]
}

/// The full token: payload, then its keyed tag, colon-terminated.
pub open spec fn spec_token(key: Seq<u8>, iss: Seq<u8>, sub: Seq<u8>, aud: Seq<u8>, iat: u64, exp: u64) -> Seq<u8> {
    let p = spec_payload(iss, sub, aud, iat, exp);
    p + spec_digits(spec_mac64(key, p) as nat) + seq![COLON]
}

/// The token bytes a claims value signs to under `key`.
pub open spec fn spec_token_of(key: Seq<u8>, c: &Claims) -> Seq<u8> {
    spec_token(
        key,
        bytes_of_chars(c.iss@),
        bytes_of_chars(c.sub@),
        bytes_of_chars(c.aud@),
        c.iat,
        c.exp,
    )
}

/// What a well-shaped token parses to, before the tag and expiry are judged.
pub ghost struct ParsedToken {
    pub iss: Seq<u8>,
    pub sub: Seq<u8>,
    pub aud: Seq<u8>,
    pub iat: u64,
    pub exp: u64,
    pub mac: u64,
    /// Index where the tag's digits begin: the tag covers the bytes before it.
    pub mac_start: int,
}

/// Reads one length-prefixed field starting at `i`.
pub open spec fn spec_read_field(s: Seq<u8>, i: int) -> Option<(Seq<u8>, int)> {
    match spec_read_dec(s, i) {
        Option::None => Option::None,
        Option::Some((n, j)) => if j + n <= s.len() {
            Option::Some((s.subrange(j, j + n as int), j + n as int))
        } else {
            Option::None
        },
    }
}

/// The unique decomposition of a token into its six parts, or `None` when
/// the shape is not the wire format's.
pub open spec fn spec_parse_token(s: Seq<u8>) -> Option<ParsedToken> {
    match spec_read_field(s, 0) {
        Option::None => Option::None,
        Option::Some((iss, i1)) => match spec_read_field(s, i1) {
            Option::None => Option::None,
            Option::Some((sub, i2)) => match spec_read_field(s, i2) {
                Option::None => Option::None,
                Option::Some((aud, i3)) => match spec_read_dec(s, i3) {
                    Option::None => Option::None,
                    Option::Some((iat, i4)) => match spec_read_dec(s, i4) {
                        Option::None => Option::None,
                        Option::Some((exp, i5)) => match spec_read_dec(s, i5) {
                            Option::None => Option::None,
                            Option::Some((mac, i6)) => if i6 == s.len() && all_ascii(iss)
                                && all_ascii(sub) && all_ascii(aud) {
                                Option::Some(
                                    ParsedToken { iss, sub, aud, iat, exp, mac, mac_start: i5 },
                                )
                            } else {
                                Option::None
                            },
                        },
                    },
                },
            },
        },
    }
}

/// Judges a token's bytes under `key` at instant `now`: the parsed parts on
/// success, otherwise which of the three rejections applies. Shape is judged
/// first, then the tag, then expiry.
pub open spec fn spec_validate(key: Seq<u8>, s: Seq<u8>, now: u64) -> Result<
    ParsedToken,
    TokenError,
> {
    match spec_parse_token(s) {
        Option::None => Result::Err(TokenError::Malformed),
        Option::Some(p) => if p.mac != spec_mac64(key, s.subrange(0, p.mac_start)) {
            Result::Err(TokenError::SignatureInvalid)
        } else if p.exp <= now {
            Result::Err(TokenError::Expired)
        } else {
            Result::Ok(p)
        },
    }
}

fn bytes_range(s: &Vec<u8>, a: usize, b: usize) -> (r: Vec<u8>)
    requires
        a <= b <= s@.len(),
    ensures
        r@ == s@.subrange(a as int, b as int),
{
    let mut r: Vec<u8> = Vec::new();
    let mut i: usize = a;
    while i < b
        invariant
            a <= i <= b <= s@.len(),
            r@ == s@.subrange(a as int, i as int),
        decreases b - i,
    {
        r.push(s[i]);
        proof {
            assert(s@.subrange(a as int, i as int + 1) =~= s@.subrange(a as int, i as int).push(
                s@[i as int],
            ));
        }
        i = i + 1;
    }
    r
}

fn check_all_ascii(v: &Vec<u8>) -> (b: bool)
    ensures
        b == all_ascii(v@),
{
    let mut i: usize = 0;
    while i < v.len()
        invariant
            i <= v@.len(),
            forall|k: int| 0 <= k < i ==> #[trigger] v@[k] < 0x80,
        decreases v@.len() - i,
    {
        if v[i] >= 0x80 {
            return false;
        }
        i = i + 1;
    }
    true
}

fn read_field(s: &Vec<u8>, i: usize) -> (r: Option<(Vec<u8>, usize)>)
    requires
        i <= s@.len(),
    ensures
        match r {
            Option::Some((f, j)) => spec_read_field(s@, i as int) == Option::Some((f@, j as int))
                && i < j <= s@.len(),
            Option::None => spec_read_field(s@, i as int) is None,
        },
{
    match read_dec(s, i) {
        Option::None => Option::None,
        Option::Some((n, j)) => {
            if n > (s.len() - j) as u64 {
                Option::None
            } else {
                let e = j + (n as usize);
                let f = bytes_range(s, j, e);
                Option::Some((f, e))
            }
        },
    }
}

/// Appends one length-prefixed field to the wire image.
fn push_field(out: &mut Vec<u8>, f: &Vec<u8>)
    ensures
        final(out)@ == old(out)@ + enc_field(f@),
{
    let mut d = render_u64(f.len() as u64);
    append_bytes(out, &d);
    out.push(COLON);
    append_bytes(out, f);
    proof {
        assert(out@ =~= old(out)@ + enc_field(f@));
    }
}

/// Appends one colon-terminated decimal number to the wire image.
fn push_dec(out: &mut Vec<u8>, n: u64)
    ensures
        final(out)@ == old(out)@ + spec_digits(n as nat) + seq![COLON],
{
    let mut d = render_u64(n);
    append_bytes(out, &d);
    out.push(COLON);
    proof {
        assert(out@ =~= old(out)@ + spec_digits(n as nat) + seq![COLON]);
    }
}

/// Builds and signs the wire image of `c` under `key`.
///
/// The result is exactly the ASCII text of `spec_token_of`, so two claims
/// values sign to the same token only when all their fields agree.
pub fn encode_claims(key: &Vec<u8>, c: &Claims) -> (r: String)
    requires
        wf_claims(c),
    ensures
        r@ == chars_of_bytes(spec_token_of(key@, c)),
        vstd::utf8::is_ascii_chars(r@),
{
    let iss_b = str_bytes(c.iss.as_str());
    let sub_b = str_bytes(c.sub.as_str());
    let aud_b = str_bytes(c.aud.as_str());
    let mut p: Vec<u8> = Vec::new();
    push_field(&mut p, &iss_b);
    push_field(&mut p, &sub_b);
    push_field(&mut p, &aud_b);
    push_dec(&mut p, c.iat);
    push_dec(&mut p, c.exp);
    proof {
        assert(p@ =~= spec_payload(iss_b@, sub_b@, aud_b@, c.iat, c.exp));
    }
    let m = mac64(key, &p);
    let mut t = p;
    push_dec(&mut t, m);
    proof {
        assert(t@ =~= spec_token_of(key@, c));
        lemma_token_ascii(key@, iss_b@, sub_b@, aud_b@, c.iat, c.exp);
        lemma_ascii_chars_bytes_roundtrip(c.iss@);
        lemma_ascii_chars_bytes_roundtrip(c.sub@);
        lemma_ascii_chars_bytes_roundtrip(c.aud@);
    }
    let s = ascii_bytes_to_string(t);
    proof {
        crate::codec::lemma_ascii_bytes_chars_roundtrip(spec_token_of(key@, c));
    }
    s
}

proof fn lemma_all_ascii_concat(a: Seq<u8>, b: Seq<u8>)
    requires
        all_ascii(a),
        all_ascii(b),
    ensures
        all_ascii(a + b),
{
    assert forall|i: int| 0 <= i < (a + b).len() implies #[trigger] (a + b)[i] < 0x80 by {
        if i < a.len() {
            assert((a + b)[i] == a[i]);
        } else {
            assert((a + b)[i] == b[i - a.len()]);
        }
    }
}

proof fn lemma_digits_ascii(n: nat)
    ensures
        all_ascii(spec_digits(n)),
{
    lemma_digits_are_digits(n);
}

/// Every byte of a token over ASCII fields is ASCII.
pub proof fn lemma_token_ascii(key: Seq<u8>, iss: Seq<u8>, sub: Seq<u8>, aud: Seq<u8>, iat: u64, exp: u64)
    requires
        all_ascii(iss),
        all_ascii(sub),
        all_ascii(aud),
    ensures
        all_ascii(spec_token(key, iss, sub, aud, iat, exp)),
{
    let c: Seq<u8> = seq![COLON];
    assert(all_ascii(c));
    lemma_digits_ascii(iss.len());
    lemma_digits_ascii(sub.len());
    lemma_digits_ascii(aud.len());
    lemma_digits_ascii(iat as nat);
    lemma_digits_ascii(exp as nat);
    let p = spec_payload(iss, sub, aud, iat, exp);
    lemma_all_ascii_concat(spec_digits(iss.len()), c);
    lemma_all_ascii_concat(spec_digits(iss.len()) + c, iss);
    lemma_all_ascii_concat(spec_digits(sub.len()), c);
    lemma_all_ascii_concat(spec_digits(sub.len()) + c, sub);
    lemma_all_ascii_concat(spec_digits(aud.len()), c);
    lemma_all_ascii_concat(spec_digits(aud.len()) + c, aud);
    lemma_all_ascii_concat(enc_field(iss), enc_field(sub));
    lemma_all_ascii_concat(enc_field(iss) + enc_field(sub), enc_field(aud));
    lemma_all_ascii_concat(enc_field(iss) + enc_field(sub) + enc_field(aud), spec_digits(iat as nat));
    lemma_all_ascii_concat(
        enc_field(iss) + enc_field(sub) + enc_field(aud) + spec_digits(iat as nat),
        c,
    );
    lemma_all_ascii_concat(
        enc_field(iss) + enc_field(sub) + enc_field(aud) + spec_digits(iat as nat) + c,
        spec_digits(exp as nat),
    );
    lemma_all_ascii_concat(
        enc_field(iss) + enc_field(sub) + enc_field(aud) + spec_digits(iat as nat) + c
            + spec_digits(exp as nat),
        c,
    );
    assert(all_ascii(p));
    lemma_digits_ascii(spec_mac64(key, p) as nat);
    lemma_all_ascii_concat(p, spec_digits(spec_mac64(key, p) as nat));
    lemma_all_ascii_concat(p + spec_digits(spec_mac64(key, p) as nat), c);
    assert(spec_token(key, iss, sub, aud, iat, exp) =~= p + spec_digits(
        spec_mac64(key, p) as nat,
    ) + c);
}

/// Decodes a presented token and judges its signature and expiry under this
/// verifier's `key` at instant `now`. The result follows `spec_validate`
/// exactly: shape, then tag, then expiry.
pub fn decode_and_validate(key: &Vec<u8>, token: &str, now: u64) -> (r: Result<Claims, TokenError>)
    ensures
        match (r, spec_validate(key@, token.spec_bytes(), now)) {
            (Result::Ok(c), Result::Ok(p)) => {
                &&& c.iss@ == chars_of_bytes(p.iss)
                &&& c.sub@ == chars_of_bytes(p.sub)
                &&& c.aud@ == chars_of_bytes(p.aud)
                &&& c.iat == p.iat
                &&& c.exp == p.exp
                &&& wf_claims(&c)
            },
            (Result::Err(e), Result::Err(f)) => e == f,
            _ => false,
        },
{
    let tb = token.as_bytes_vec();
    let r1 = read_field(&tb, 0);
    let (iss_b, i1) = match r1 {
        Option::Some(x) => x,
        Option::None => {
            return Result::Err(TokenError::Malformed);
        },
    };
    let r2 = read_field(&tb, i1);
    let (sub_b, i2) = match r2 {
        Option::Some(x) => x,
        Option::None => {
            return Result::Err(TokenError::Malformed);
        },
    };
    let r3 = read_field(&tb, i2);
    let (aud_b, i3) = match r3 {
        Option::Some(x) => x,
        Option::None => {
            return Result::Err(TokenError::Malformed);
        },
    };
    let r4 = read_dec(&tb, i3);
    let (iat, i4) = match r4 {
        Option::Some(x) => x,
        Option::None => {
            return Result::Err(TokenError::Malformed);
        },
    };
    let r5 = read_dec(&tb, i4);
    let (exp, i5) = match r5 {
        Option::Some(x) => x,
        Option::None => {
            return Result::Err(TokenError::Malformed);
        },
    };
    let r6 = read_dec(&tb, i5);
    let (mac, i6) = match r6 {
        Option::Some(x) => x,
        Option::None => {
            return Result::Err(TokenError::Malformed);
        },
    };
    if i6 != tb.len() {
        return Result::Err(TokenError::Malformed);
    }
    if !(check_all_ascii(&iss_b) && check_all_ascii(&sub_b) && check_all_ascii(&aud_b)) {
        return Result::Err(TokenError::Malformed);
    }
    let covered = bytes_range(&tb, 0, i5);
    let m = mac64(key, &covered);
    if m != mac {
        return Result::Err(TokenError::SignatureInvalid);
    }
    if exp <= now {
        return Result::Err(TokenError::Expired);
    }
    let c = Claims {
        iss: ascii_bytes_to_string(iss_b),
        sub: ascii_bytes_to_string(sub_b),
        aud: ascii_bytes_to_string(aud_b),
        iat,
        exp,
    };
    proof {
        let p = spec_parse_token(token.spec_bytes())->Some_0;
        crate::codec::lemma_ascii_bytes_chars_roundtrip(p.iss);
        crate::codec::lemma_ascii_bytes_chars_roundtrip(p.sub);
        crate::codec::lemma_ascii_bytes_chars_roundtrip(p.aud);
    }
    Result::Ok(c)
}

/// A field written by `enc_field` at `i` is read back exactly.
proof fn lemma_read_field_at(s: Seq<u8>, i: int, f: Seq<u8>)
    requires
        0 <= i,
        i + enc_field(f).len() <= s.len(),
        s.subrange(i, i + enc_field(f).len() as int) == enc_field(f),
        f.len() <= u64::MAX,
    ensures
        spec_read_field(s, i) == Option::Some((f, i + enc_field(f).len() as int)),
{
    let d = spec_digits(f.len());
    let dl = d.len() as int;
    let e = enc_field(f);
    let j = i + dl + 1;
    assert(e.len() == dl + 1 + f.len());
    assert forall|k: int| 0 <= k < dl + 1 implies s.subrange(i, j)[k] == d.push(COLON)[k] by {
        assert(s.subrange(i, j)[k] == s[i + k]);
        assert(s[i + k] == s.subrange(i, i + e.len() as int)[k]);
        assert(e[k] == d.push(COLON)[k]);
    }
    assert(s.subrange(i, j) =~= d.push(COLON));
    lemma_read_dec_at(s, i, f.len() as u64, j);
    assert forall|k: int| 0 <= k < f.len() implies s.subrange(j, j + f.len() as int)[k] == f[k] by {
        assert(s.subrange(j, j + f.len() as int)[k] == s[j + k]);
        assert(s[j + k] == s.subrange(i, i + e.len() as int)[dl + 1 + k]);
        assert(e[dl + 1 + k] == f[k]);
    }
    assert(s.subrange(j, j + f.len() as int) =~= f);
}

/// A colon-terminated decimal written at `i` is read back exactly.
proof fn lemma_read_dec_piece(s: Seq<u8>, i: int, n: u64)
    requires
        0 <= i,
        i + spec_digits(n as nat).len() + 1 <= s.len(),
        s.subrange(i, i + spec_digits(n as nat).len() + 1 as int) == spec_digits(n as nat)
            + seq![COLON],
    ensures
        spec_read_dec(s, i) == Option::Some((n, i + spec_digits(n as nat).len() + 1 as int)),
{
    let d = spec_digits(n as nat);
    let j = i + d.len() + 1 as int;
    assert(s.subrange(i, j) =~= d.push(COLON)) by {
        assert(d + seq![COLON] =~= d.push(COLON));
    }
    lemma_read_dec_at(s, i, n, j);
}

/// The decomposition of a well-formed token: parsing inverts building.
/// Together with `spec_validate` this is the claims round trip, and it
/// makes token building injective in every field.
#[verifier::rlimit(100)]
pub proof fn lemma_parse_token_of(key: Seq<u8>, iss: Seq<u8>, sub: Seq<u8>, aud: Seq<u8>, iat: u64, exp: u64)
    requires
        all_ascii(iss),
        all_ascii(sub),
        all_ascii(aud),
        iss.len() <= u64::MAX,
        sub.len() <= u64::MAX,
        aud.len() <= u64::MAX,
    ensures
        ({
            let t = spec_token(key, iss, sub, aud, iat, exp);
            let p = spec_payload(iss, sub, aud, iat, exp);
            spec_parse_token(t) == Option::Some(
                ParsedToken {
                    iss,
                    sub,
                    aud,
                    iat,
                    exp,
                    mac: spec_mac64(key, p),
                    mac_start: p.len() as int,
                },
            ) && t.subrange(0, p.len() as int) == p
        }),
{
    let e1 = enc_field(iss);
    let e2 = enc_field(sub);
    let e3 = enc_field(aud);
    let d4 = spec_digits(iat as nat) + seq![COLON];
    let d5 = spec_digits(exp as nat) + seq![COLON];
    let p = spec_payload(iss, sub, aud, iat, exp);
    let m = spec_mac64(key, p);
    let d6 = spec_digits(m as nat) + seq![COLON];
    let t = spec_token(key, iss, sub, aud, iat, exp);
    let o1 = e1.len() as int;
    let o2 = o1 + e2.len() as int;
    let o3 = o2 + e3.len() as int;
    let o4 = o3 + d4.len() as int;
    let o5 = o4 + d5.len() as int;
    let o6 = o5 + d6.len() as int;
    assert(t =~= e1 + e2 + e3 + d4 + d5 + d6);
    assert(t.len() == o6);
    assert(t.subrange(0, o1) =~= e1);
    lemma_read_field_at(t, 0, iss);
    assert(t.subrange(o1, o2) =~= e2);
    lemma_read_field_at(t, o1, sub);
    assert(t.subrange(o2, o3) =~= e3);
    lemma_read_field_at(t, o2, aud);
    assert(t.subrange(o3, o4) =~= d4);
    lemma_read_dec_piece(t, o3, iat);
    assert(t.subrange(o4, o5) =~= d5);
    lemma_read_dec_piece(t, o4, exp);
    assert(t.subrange(o5, o6) =~= d6);
    lemma_read_dec_piece(t, o5, m);
    assert(t.subrange(0, o5) =~= p);
}

/// The claims round trip, judged at an instant: a token built over ASCII
/// fields validates to exactly those fields before its expiry instant, and
/// to `Expired` at or after it. The tag always checks under the same key.
pub proof fn lemma_claims_round_trip(key: Seq<u8>, c: &Claims, now: u64)
    requires
        wf_claims(c),
        c.iss@.len() <= u64::MAX,
        c.sub@.len() <= u64::MAX,
        c.aud@.len() <= u64::MAX,
    ensures
        now < c.exp ==> (spec_validate(key, spec_token_of(key, c), now) matches Result::Ok(p)
            && p.iss == bytes_of_chars(c.iss@) && p.sub == bytes_of_chars(c.sub@) && p.aud
            == bytes_of_chars(c.aud@) && p.iat == c.iat && p.exp == c.exp),
        now >= c.exp ==> spec_validate(key, spec_token_of(key, c), now) == Result::<
            ParsedToken,
            TokenError,
        >::Err(TokenError::Expired),
{
    lemma_ascii_chars_bytes_roundtrip(c.iss@);
    lemma_ascii_chars_bytes_roundtrip(c.sub@);
    lemma_ascii_chars_bytes_roundtrip(c.aud@);
    lemma_parse_token_of(
        key,
        bytes_of_chars(c.iss@),
        bytes_of_chars(c.sub@),
        bytes_of_chars(c.aud@),
        c.iat,
        c.exp,
    );
}

/// The entity kind an audience targets.
#[derive(Clone, Copy, Debug, PartialEq, Eq, Structural)]
pub enum AudienceKind {
    User,
    Organization,
}

/// The audience bytes for a user target: `"user:<id>"`.
pub open spec fn spec_user_aud(id: i32) -> Seq<u8> {
    bytes_of_chars("user:"@) + spec_digits(id as nat)
}

/// The audience bytes for an organization target: `"organization:<id>"`.
pub open spec fn spec_org_aud(id: i32) -> Seq<u8> {
    bytes_of_chars("organization:"@) + spec_digits(id as nat)
}

/// A nonempty all-digit string whose value fits an id.
pub open spec fn spec_parse_id_digits(s: Seq<u8>) -> Option<i32> {
    if s.len() > 0 && crate::codec::all_digits(s) && crate::codec::spec_val(s) <= i32::MAX {
        Option::Some(crate::codec::spec_val(s) as i32)
    } else {
        Option::None
    }
}

/// Strips the `"<kind>:"` prefix and reads the remainder as an integer id;
/// any other shape has no audience.
pub open spec fn spec_parse_audience(s: Seq<u8>) -> Option<(AudienceKind, i32)> {
    let up = bytes_of_chars("user:"@);
    let op = bytes_of_chars("organization:"@);
    if s.len() >= up.len() && s.subrange(0, up.len() as int) == up {
        match spec_parse_id_digits(s.subrange(up.len() as int, s.len() as int)) {
            Option::Some(id) => Option::Some((AudienceKind::User, id)),
            Option::None => Option::None,
        }
    } else if s.len() >= op.len() && s.subrange(0, op.len() as int) == op {
        match spec_parse_id_digits(s.subrange(op.len() as int, s.len() as int)) {
            Option::Some(id) => Option::Some((AudienceKind::Organization, id)),
            Option::None => Option::None,
        }
    } else {
        Option::None
    }
}

/// Whether `p` is a prefix of `s`, by bytes.
fn has_byte_prefix(s: &Vec<u8>, p: &Vec<u8>) -> (r: bool)
    ensures
        r == (s@.len() >= p@.len() && s@.subrange(0, p@.len() as int) == p@),
{
    if s.len() < p.len() {
        return false;
    }
    let mut i: usize = 0;
    while i < p.len()
        invariant
            i <= p@.len() <= s@.len(),
            forall|k: int| 0 <= k < i ==> #[trigger] s@[k] == p@[k],
        decreases p@.len() - i,
    {
        if s[i] != p[i] {
            proof {
                assert(s@.subrange(0, p@.len() as int)[i as int] != p@[i as int]);
            }
            return false;
        }
        i = i + 1;
    }
    proof {
        assert(s@.subrange(0, p@.len() as int) =~= p@);
    }
    true
}

/// Reads the digits of an id from `from` to the end of `s`.
fn parse_id_digits(s: &Vec<u8>, from: usize) -> (r: Option<i32>)
    requires
        from <= s@.len(),
    ensures
        r == spec_parse_id_digits(s@.subrange(from as int, s@.len() as int)),
{
    let ghost tail = s@.subrange(from as int, s@.len() as int);
    if from == s.len() {
        return Option::None;
    }
    let mut j: usize = from;
    let mut acc: u64 = 0;
    while j < s.len()
        invariant
            from <= j <= s@.len(),
            from < s@.len(),
            tail == s@.subrange(from as int, s@.len() as int),
            forall|k: int| from <= k < j ==> crate::codec::is_digit(#[trigger] s@[k]),
            acc == crate::codec::spec_val(s@.subrange(from as int, j as int)),
            acc <= i32::MAX,
        decreases s@.len() - j,
    {
        let b = s[j];
        if b < 0x30 || b > 0x39 {
            proof {
                assert(!crate::codec::all_digits(tail)) by {
                    assert(tail[j - from] == s@[j as int]);
                }
            }
            return Option::None;
        }
        let ghost pre = s@.subrange(from as int, j as int);
        let ghost post = s@.subrange(from as int, j as int + 1);
        proof {
            assert(post.drop_last() =~= pre);
            assert(post.last() == s@[j as int]);
        }
        let d: u64 = (b - 0x30) as u64;
        let next: u64 = acc * 10 + d;
        if next > 0x7fff_ffff {
            proof {
                assert(crate::codec::all_digits(post)) by {
                    assert forall|k: int| 0 <= k < post.len() implies crate::codec::is_digit(
                        #[trigger] post[k],
                    ) by {
                        assert(post[k] == s@[from + k]);
                    }
                }
                assert(crate::codec::spec_val(post) == next);
                if crate::codec::all_digits(tail) {
                    assert forall|k: int| 0 <= k < post.len() implies post[k] == tail.take(
                        j + 1 - from,
                    )[k] by {
                        assert(post[k] == s@[from + k]);
                        assert(tail[k] == s@[from + k]);
                    }
                    assert(post =~= tail.take(j + 1 - from));
                    crate::codec::lemma_val_prefix_le(tail, j + 1 - from);
                    assert(crate::codec::spec_val(tail) > i32::MAX);
                }
            }
            return Option::None;
        }
        acc = next;
        j = j + 1;
    }
    proof {
        assert(tail =~= s@.subrange(from as int, j as int));
        assert(crate::codec::all_digits(tail)) by {
            assert forall|k: int| 0 <= k < tail.len() implies crate::codec::is_digit(
                #[trigger] tail[k],
            ) by {
                assert(tail[k] == s@[from + k]);
            }
        }
    }
    Option::Some(acc as i32)
}

/// Parses the audience of decoded claims into its target kind and id; any
/// shape but `"user:<id>"` or `"organization:<id>"` is malformed.
pub fn parse_audience(aud: &str) -> (r: Result<(AudienceKind, i32), TokenError>)
    ensures
        r == match spec_parse_audience(aud.spec_bytes()) {
            Option::Some(x) => Result::<(AudienceKind, i32), TokenError>::Ok(x),
            Option::None => Result::<(AudienceKind, i32), TokenError>::Err(TokenError::Malformed),
        },
{
    proof {
        reveal_strlit("user:");
        reveal_strlit("organization:");
        assert(vstd::string::is_ascii("user:"));
        assert(vstd::string::is_ascii("organization:"));
    }
    let tb = aud.as_bytes_vec();
    let up = str_bytes("user:");
    let op = str_bytes("organization:");
    if has_byte_prefix(&tb, &up) {
        match parse_id_digits(&tb, up.len()) {
            Option::Some(id) => Result::Ok((AudienceKind::User, id)),
            Option::None => Result::Err(TokenError::Malformed),
        }
    } else if has_byte_prefix(&tb, &op) {
        match parse_id_digits(&tb, op.len()) {
            Option::Some(id) => Result::Ok((AudienceKind::Organization, id)),
            Option::None => Result::Err(TokenError::Malformed),
        }
    } else {
        Result::Err(TokenError::Malformed)
    }
}

/// Audiences render and parse back exactly: `"user:<id>"` targets the user
/// id it names, `"organization:<id>"` the organization id, and the two
/// kinds can never be confused.
pub proof fn lemma_parse_audience_of(id: i32)
    requires
        id >= 0,
    ensures
        spec_parse_audience(spec_user_aud(id)) == Option::Some((AudienceKind::User, id)),
        spec_parse_audience(spec_org_aud(id)) == Option::Some((AudienceKind::Organization, id)),
        crate::codec::all_ascii(spec_user_aud(id)),
        crate::codec::all_ascii(spec_org_aud(id)),
{
    reveal_strlit("user:");
    reveal_strlit("organization:");
    let up = bytes_of_chars("user:"@);
    let op = bytes_of_chars("organization:"@);
    let d = spec_digits(id as nat);
    lemma_digits_are_digits(id as nat);
    crate::codec::lemma_val_of_digits(id as nat);
    let ua = spec_user_aud(id);
    let oa = spec_org_aud(id);
    assert(ua.subrange(0, up.len() as int) =~= up);
    assert(ua.subrange(up.len() as int, ua.len() as int) =~= d);
    assert(up[0] == 0x75 && op[0] == 0x6f);
    assert(oa.subrange(0, op.len() as int) =~= op);
    assert(oa.subrange(op.len() as int, oa.len() as int) =~= d);
    assert(!(oa.subrange(0, up.len() as int) == up)) by {
        assert(oa.subrange(0, up.len() as int)[0] == op[0]);
    }
    assert forall|i: int| 0 <= i < ua.len() implies #[trigger] ua[i] < 0x80 by {
        if i < up.len() {
            assert(ua[i] == up[i]);
        } else {
            assert(ua[i] == d[i - up.len()]);
            assert(crate::codec::is_digit(d[i - up.len()]));
        }
    }
    assert forall|i: int| 0 <= i < oa.len() implies #[trigger] oa[i] < 0x80 by {
        if i < op.len() {
            assert(oa[i] == op[i]);
        } else {
            assert(oa[i] == d[i - op.len()]);
            assert(crate::codec::is_digit(d[i - op.len()]));
        }
    }
}

} // verus!
