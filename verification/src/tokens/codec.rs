//! The claims carried inside a token, and their wire format.
//!
//! A token's payload is the claims structure of the service: the subject the
//! token authorizes, the single-use nonce, the purpose the token is scoped
//! to, and the absolute expiry. The payload is encoded as ASCII text so that
//! it survives the encryption layer unchanged: one version byte, one purpose
//! byte, then expiry, subject and nonce as lowercase hexadecimal with
//! fixed-width length fields. Encoding and decoding are proved to round
//! trip.

use vstd::prelude::*;

use crate::tokens::purpose::Purpose;

verus! {

/// The first byte of every encoded claims payload.
pub const CLAIMS_VERSION: u8 = 49;

/// The claims embedded in a token: who it authorizes, the single-use nonce
/// mirrored in the cache, the workflow it is scoped to, and when it stops
/// being valid.
pub struct Claims {
    /// Opaque identifier of the principal the token authorizes.
    pub subject_id: Vec<u8>,
    /// High-entropy random value; its cache record marks the token unconsumed.
    pub nonce: Vec<u8>,
    /// The workflow the token is scoped to.
    pub purpose: Purpose,
    /// Seconds since the epoch after which the token is no longer valid.
    pub expires_at: u64,
}

/// The mathematical shape of [`Claims`].
#[verifier::ext_equal]
pub struct ClaimsView {
    pub subject_id: Seq<u8>,
    pub nonce: Seq<u8>,
    pub purpose: Purpose,
    pub expires_at: u64,
}

impl View for Claims {
    type V = ClaimsView;

    open spec fn view(&self) -> ClaimsView {
        ClaimsView {
            subject_id: self.subject_id@,
            nonce: self.nonce@,
            purpose: self.purpose,
            expires_at: self.expires_at,
        }
    }
}

/// Claims that the wire format can carry: the variable-length fields fit
/// their length fields with plenty of room.
pub open spec fn claims_wf(c: ClaimsView) -> bool {
    c.subject_id.len() <= 0xFFFF && c.nonce.len() <= 0xFFFF
}

// ---------------------------------------------------------------------------
// Hexadecimal digits
// ---------------------------------------------------------------------------

/// The lowercase hexadecimal digit for a value below sixteen.
pub open spec fn spec_hex_digit(n: u8) -> u8
    recommends
        n < 16,
{
    if n < 10 {
        (48 + n) as u8
    } else {
        (87 + n) as u8
    }
}

/// Whether a byte is a lowercase hexadecimal digit.
pub open spec fn spec_is_hex_digit(c: u8) -> bool {
    (48 <= c && c <= 57) || (97 <= c && c <= 102)
}

/// The value of a lowercase hexadecimal digit.
pub open spec fn spec_hex_val(c: u8) -> u8
    recommends
        spec_is_hex_digit(c),
{
    if 48 <= c && c <= 57 {
        (c - 48) as u8
    } else if 97 <= c && c <= 102 {
        (c - 87) as u8
    } else {
        0
    }
}

proof fn lemma_hex_digit_round(n: u8)
    requires
        n < 16,
    ensures
        spec_is_hex_digit(spec_hex_digit(n)),
        spec_hex_val(spec_hex_digit(n)) == n,
        spec_hex_digit(n) < 128,
{
}

/// The lowercase hexadecimal expansion of a byte string: two digits per
/// byte, high nibble first.
pub open spec fn spec_hex_of_bytes(s: Seq<u8>) -> Seq<u8> {
    Seq::new(
        2 * s.len(),
        |i: int|
            if i % 2 == 0 {
                spec_hex_digit(s[i / 2] / 16)
            } else {
                spec_hex_digit(s[i / 2] % 16)
            },
    )
}

/// The byte string denoted by a hexadecimal string, pairing digits up.
pub open spec fn spec_unhex_raw(s: Seq<u8>) -> Seq<u8> {
    Seq::new(
        s.len() / 2,
        |i: int| (spec_hex_val(s[2 * i]) * 16 + spec_hex_val(s[2 * i + 1])) as u8,
    )
}

/// The byte string denoted by a hexadecimal string, if it is one: an even
/// number of lowercase hexadecimal digits.
pub open spec fn spec_unhex(s: Seq<u8>) -> Option<Seq<u8>> {
    if s.len() % 2 == 0 && (forall|i: int| 0 <= i < s.len() ==> spec_is_hex_digit(s[i])) {
        Some(spec_unhex_raw(s))
    } else {
        None
    }
}

/// Every byte of a hexadecimal expansion is a hexadecimal digit.
pub proof fn lemma_hex_of_bytes_digits(s: Seq<u8>)
    ensures
        forall|i: int|
            0 <= i < spec_hex_of_bytes(s).len() ==> spec_is_hex_digit(#[trigger] spec_hex_of_bytes(s)[i]),
{
    assert forall|i: int| 0 <= i < spec_hex_of_bytes(s).len() implies spec_is_hex_digit(
        #[trigger] spec_hex_of_bytes(s)[i],
    ) by {
        let b = s[i / 2];
        assert(b / 16 < 16);
        assert(b % 16 < 16);
        if i % 2 == 0 {
            lemma_hex_digit_round(b / 16);
        } else {
            lemma_hex_digit_round(b % 16);
        }
    }
}

/// Reading the hexadecimal expansion of a byte string back gives the byte
/// string: the expansion is a faithful code.
pub proof fn lemma_unhex_hex(s: Seq<u8>)
    ensures
        spec_unhex(spec_hex_of_bytes(s)) == Some(s),
{
    let h = spec_hex_of_bytes(s);
    lemma_hex_of_bytes_digits(s);
    assert(h.len() % 2 == 0);
    assert forall|i: int| 0 <= i < spec_unhex_raw(h).len() implies #[trigger] spec_unhex_raw(h)[i]
        == s[i] by {
        let b = s[i];
        assert(h[2 * i] == spec_hex_digit(b / 16));
        assert(h[2 * i + 1] == spec_hex_digit(b % 16));
        lemma_hex_digit_round(b / 16);
        lemma_hex_digit_round(b % 16);
        assert(spec_hex_val(h[2 * i]) == b / 16);
        assert(spec_hex_val(h[2 * i + 1]) == b % 16);
        assert(b / 16 * 16 + b % 16 == b) by {
            assert(b == 16 * (b / 16) + b % 16);
        }
    }
    assert(spec_unhex_raw(h) =~= s);
}

/// The executable hexadecimal digit of a value below sixteen.
fn hex_digit(n: u8) -> (r: u8)
    requires
        n < 16,
    ensures
        r == spec_hex_digit(n),
{
    if n < 10 {
        48 + n
    } else {
        87 + n
    }
}

/// Whether a byte is a lowercase hexadecimal digit, executably.
fn is_hex_digit(c: u8) -> (r: bool)
    ensures
        r == spec_is_hex_digit(c),
{
    (48 <= c && c <= 57) || (97 <= c && c <= 102)
}

/// The value of a lowercase hexadecimal digit, executably.
fn hex_val(c: u8) -> (r: u8)
    requires
        spec_is_hex_digit(c),
    ensures
        r == spec_hex_val(c),
{
    if c <= 57 {
        c - 48
    } else {
        c - 87
    }
}

// ---------------------------------------------------------------------------
// Sixty-four bit integers as eight bytes, big endian
// ---------------------------------------------------------------------------

/// The eight bytes of an integer, most significant first.
pub open spec fn spec_u64_be_bytes(v: u64) -> Seq<u8> {
    seq![
        ((v >> 56) & 0xff) as u8,
        ((v >> 48) & 0xff) as u8,
        ((v >> 40) & 0xff) as u8,
        ((v >> 32) & 0xff) as u8,
        ((v >> 24) & 0xff) as u8,
        ((v >> 16) & 0xff) as u8,
        ((v >> 8) & 0xff) as u8,
        (v & 0xff) as u8,
    ]
}

/// The integer denoted by eight bytes, most significant first.
pub open spec fn spec_u64_of_be_bytes(s: Seq<u8>) -> u64
    recommends
        s.len() == 8,
{
    ((s[0] as u64) << 56) | ((s[1] as u64) << 48) | ((s[2] as u64) << 40) | ((s[3] as u64) << 32)
        | ((s[4] as u64) << 24) | ((s[5] as u64) << 16) | ((s[6] as u64) << 8) | (s[7] as u64)
}

/// Splitting an integer into bytes and reassembling them gives the integer
/// back.
pub proof fn lemma_u64_be_round(v: u64)
    ensures
        spec_u64_of_be_bytes(spec_u64_be_bytes(v)) == v,
{
    assert((((((v >> 56) & 0xff) as u8) as u64) << 56) | (((((v >> 48) & 0xff) as u8) as u64)
        << 48) | (((((v >> 40) & 0xff) as u8) as u64) << 40) | (((((v >> 32) & 0xff) as u8) as u64)
        << 32) | (((((v >> 24) & 0xff) as u8) as u64) << 24) | (((((v >> 16) & 0xff) as u8) as u64)
        << 16) | (((((v >> 8) & 0xff) as u8) as u64) << 8) | (((v & 0xff) as u8) as u64) == v)
        by (bit_vector);
}

/// Reassemble an integer from its eight bytes, executably.
fn u64_from_be_bytes(b: &Vec<u8>) -> (r: u64)
    requires
        b@.len() == 8,
    ensures
        r == spec_u64_of_be_bytes(b@),
{
    ((b[0] as u64) << 56) | ((b[1] as u64) << 48) | ((b[2] as u64) << 40) | ((b[3] as u64) << 32)
        | ((b[4] as u64) << 24) | ((b[5] as u64) << 16) | ((b[6] as u64) << 8) | (b[7] as u64)
}

// ---------------------------------------------------------------------------
// The encoded payload
// ---------------------------------------------------------------------------

/// The encoded payload of a token: version and purpose bytes, then expiry,
/// subject length, subject, nonce length and nonce, all in hexadecimal.
pub open spec fn spec_encode(c: ClaimsView) -> Seq<u8> {
    seq![CLAIMS_VERSION, c.purpose.spec_tag()] + spec_hex_of_bytes(spec_u64_be_bytes(c.expires_at))
        + spec_hex_of_bytes(spec_u64_be_bytes(c.subject_id.len() as u64)) + spec_hex_of_bytes(
        c.subject_id,
    ) + spec_hex_of_bytes(spec_u64_be_bytes(c.nonce.len() as u64)) + spec_hex_of_bytes(c.nonce)
}

/// The claims denoted by a payload, if it is well formed: the version byte,
/// a known purpose tag, valid hexadecimal fields, and a length that matches
/// the length fields exactly.
pub open spec fn spec_decode(s: Seq<u8>) -> Option<ClaimsView> {
    if s.len() < 50 {
        None
    } else if s[0] != CLAIMS_VERSION {
        None
    } else {
        match Purpose::spec_of_tag(s[1]) {
            None => None,
            Some(p) => match spec_unhex(s.subrange(2, 18)) {
                None => None,
                Some(eb) => {
                    let exp = spec_u64_of_be_bytes(eb);
                    match spec_unhex(s.subrange(18, 34)) {
                        None => None,
                        Some(slb) => {
                            let slen = spec_u64_of_be_bytes(slb) as int;
                            if s.len() < 50 + 2 * slen {
                                None
                            } else {
                                match spec_unhex(s.subrange(34, 34 + 2 * slen)) {
                                    None => None,
                                    Some(subject) => {
                                        match spec_unhex(
                                            s.subrange(34 + 2 * slen, 50 + 2 * slen),
                                        ) {
                                            None => None,
                                            Some(nlb) => {
                                                let nlen = spec_u64_of_be_bytes(nlb) as int;
                                                if s.len() != 50 + 2 * slen + 2 * nlen {
                                                    None
                                                } else {
                                                    match spec_unhex(
                                                        s.subrange(
                                                            50 + 2 * slen,
                                                            50 + 2 * slen + 2 * nlen,
                                                        ),
                                                    ) {
                                                        None => None,
                                                        Some(nonce) => Some(
                                                            ClaimsView {
                                                                subject_id: subject,
                                                                nonce,
                                                                purpose: p,
                                                                expires_at: exp,
                                                            },
                                                        ),
                                                    }
                                                }
                                            },
                                        }
                                    },
                                }
                            }
                        },
                    }
                },
            },
        }
    }
}

/// Every byte of an encoded payload is ASCII, so the payload passes through
/// a text layer unchanged.
pub proof fn lemma_encode_ascii(c: ClaimsView)
    ensures
        forall|i: int| 0 <= i < spec_encode(c).len() ==> #[trigger] spec_encode(c)[i] < 128,
{
    let e = spec_encode(c);
    lemma_hex_of_bytes_digits(spec_u64_be_bytes(c.expires_at));
    lemma_hex_of_bytes_digits(spec_u64_be_bytes(c.subject_id.len() as u64));
    lemma_hex_of_bytes_digits(c.subject_id);
    lemma_hex_of_bytes_digits(spec_u64_be_bytes(c.nonce.len() as u64));
    lemma_hex_of_bytes_digits(c.nonce);
    assert forall|i: int| 0 <= i < e.len() implies #[trigger] e[i] < 128 by {
        assert(spec_is_hex_digit(e[i]) ==> e[i] < 128);
        assert(c.purpose.spec_tag() < 128);
    }
}

/// Decoding an encoded payload gives the claims back: the wire format is a
/// faithful code for claims whose fields fit it.
#[verifier::rlimit(100)]
pub proof fn lemma_decode_encode(c: ClaimsView)
    requires
        claims_wf(c),
    ensures
        spec_decode(spec_encode(c)) == Some(c),
{
    let e = spec_encode(c);
    let h_exp = spec_hex_of_bytes(spec_u64_be_bytes(c.expires_at));
    let h_slen = spec_hex_of_bytes(spec_u64_be_bytes(c.subject_id.len() as u64));
    let h_sub = spec_hex_of_bytes(c.subject_id);
    let h_nlen = spec_hex_of_bytes(spec_u64_be_bytes(c.nonce.len() as u64));
    let h_non = spec_hex_of_bytes(c.nonce);
    let slen = c.subject_id.len() as int;
    let nlen = c.nonce.len() as int;
    assert(e.len() == 50 + 2 * slen + 2 * nlen);
    assert(e[0] == CLAIMS_VERSION);
    assert(e[1] == c.purpose.spec_tag());
    Purpose::lemma_tag_injective(c.purpose, c.purpose);

    assert(e.subrange(2, 18) =~= h_exp);
    lemma_unhex_hex(spec_u64_be_bytes(c.expires_at));
    lemma_u64_be_round(c.expires_at);

    assert(e.subrange(18, 34) =~= h_slen);
    lemma_unhex_hex(spec_u64_be_bytes(c.subject_id.len() as u64));
    lemma_u64_be_round(c.subject_id.len() as u64);
    assert(spec_u64_of_be_bytes(spec_u64_be_bytes(c.subject_id.len() as u64)) as int == slen);

    assert(e.subrange(34, 34 + 2 * slen) =~= h_sub);
    lemma_unhex_hex(c.subject_id);

    assert(e.subrange(34 + 2 * slen, 50 + 2 * slen) =~= h_nlen);
    lemma_unhex_hex(spec_u64_be_bytes(c.nonce.len() as u64));
    lemma_u64_be_round(c.nonce.len() as u64);
    assert(spec_u64_of_be_bytes(spec_u64_be_bytes(c.nonce.len() as u64)) as int == nlen);

    assert(e.subrange(50 + 2 * slen, 50 + 2 * slen + 2 * nlen) =~= h_non);
    lemma_unhex_hex(c.nonce);

    assert(spec_decode(e) == Some(c)) by {
        assert(spec_decode(e) matches Some(d) && d =~= c);
    }
}

// ---------------------------------------------------------------------------
// Executable encoding
// ---------------------------------------------------------------------------

/// Append the two hexadecimal digits of one byte.
fn push_hex_byte(out: &mut Vec<u8>, b: u8)
    ensures
        final(out)@ == old(out)@ + spec_hex_of_bytes(seq![b]),
{
    let hi = hex_digit(b / 16);
    let lo = hex_digit(b % 16);
    out.push(hi);
    out.push(lo);
    proof {
        assert(final(out)@ =~= old(out)@ + spec_hex_of_bytes(seq![b]));
    }
}

/// Append the hexadecimal expansion of a byte string.
fn push_hex_bytes(out: &mut Vec<u8>, s: &Vec<u8>)
    ensures
        final(out)@ == old(out)@ + spec_hex_of_bytes(s@),
{
    let mut i: usize = 0;
    while i < s.len()
        invariant
            i <= s@.len(),
            out@ == old(out)@ + spec_hex_of_bytes(s@.subrange(0, i as int)),
        decreases s@.len() - i,
    {
        push_hex_byte(out, s[i]);
        proof {
            assert(spec_hex_of_bytes(s@.subrange(0, i + 1 as int)) =~= spec_hex_of_bytes(
                s@.subrange(0, i as int),
            ) + spec_hex_of_bytes(seq![s@[i as int]]));
        }
        i = i + 1;
    }
    proof {
        assert(s@.subrange(0, s@.len() as int) =~= s@);
    }
}

/// Append the sixteen hexadecimal digits of an integer's eight bytes.
fn push_hex_u64(out: &mut Vec<u8>, v: u64)
    ensures
        final(out)@ == old(out)@ + spec_hex_of_bytes(spec_u64_be_bytes(v)),
{
    let b0 = ((v >> 56) & 0xff) as u8;
    let b1 = ((v >> 48) & 0xff) as u8;
    let b2 = ((v >> 40) & 0xff) as u8;
    let b3 = ((v >> 32) & 0xff) as u8;
    let b4 = ((v >> 24) & 0xff) as u8;
    let b5 = ((v >> 16) & 0xff) as u8;
    let b6 = ((v >> 8) & 0xff) as u8;
    let b7 = (v & 0xff) as u8;
    push_hex_byte(out, b0);
    push_hex_byte(out, b1);
    push_hex_byte(out, b2);
    push_hex_byte(out, b3);
    push_hex_byte(out, b4);
    push_hex_byte(out, b5);
    push_hex_byte(out, b6);
    push_hex_byte(out, b7);
    proof {
        assert(final(out)@ =~= old(out)@ + spec_hex_of_bytes(spec_u64_be_bytes(v)));
    }
}

/// Encode claims into the wire format described by [`spec_encode`].
pub fn encode_claims(c: &Claims) -> (r: Vec<u8>)
    requires
        claims_wf(c@),
    ensures
        r@ == spec_encode(c@),
{
    let mut out: Vec<u8> = Vec::new();
    out.push(CLAIMS_VERSION);
    out.push(c.purpose.tag());
    push_hex_u64(&mut out, c.expires_at);
    push_hex_u64(&mut out, c.subject_id.len() as u64);
    push_hex_bytes(&mut out, &c.subject_id);
    push_hex_u64(&mut out, c.nonce.len() as u64);
    push_hex_bytes(&mut out, &c.nonce);
    proof {
        assert(out@ =~= spec_encode(c@));
    }
    out
}

// ---------------------------------------------------------------------------
// Executable decoding
// ---------------------------------------------------------------------------

/// Read a hexadecimal region of a payload back into bytes, or report that
/// it is not hexadecimal.
fn parse_hex_region(bytes: &Vec<u8>, start: usize, len2: usize) -> (r: Option<Vec<u8>>)
    requires
        start + len2 <= bytes@.len(),
        len2 % 2 == 0,
    ensures
        match r {
            Some(v) => spec_unhex(bytes@.subrange(start as int, start + len2)) == Some(v@),
            None => spec_unhex(bytes@.subrange(start as int, start + len2)) == None::<Seq<u8>>,
        },
{
    let ghost region = bytes@.subrange(start as int, start + len2);
    let blen = bytes.len();
    let end = start + len2;
    let mut out: Vec<u8> = Vec::new();
    let mut i: usize = 0;
    while i < len2
        invariant
            i <= len2,
            i % 2 == 0,
            len2 % 2 == 0,
            end == start + len2,
            end <= blen,
            blen == bytes@.len(),
            region == bytes@.subrange(start as int, start + len2),
            out@.len() == i / 2,
            forall|j: int| 0 <= j < i ==> spec_is_hex_digit(#[trigger] region[j]),
            forall|j: int|
                0 <= j < i / 2 ==> #[trigger] out@[j] == (spec_hex_val(region[2 * j]) * 16
                    + spec_hex_val(region[2 * j + 1])) as u8,
        decreases len2 - i,
    {
        let hi = bytes[start + i];
        let lo = bytes[start + i + 1];
        assert(region[i as int] == hi && region[i + 1 as int] == lo);
        if !is_hex_digit(hi) || !is_hex_digit(lo) {
            assert(!(forall|j: int| 0 <= j < region.len() ==> spec_is_hex_digit(#[trigger] region[j])));
            return None;
        }
        let b = hex_val(hi) * 16 + hex_val(lo);
        out.push(b);
        i = i + 2;
    }
    proof {
        assert(out@ =~= spec_unhex_raw(region));
    }
    Some(out)
}

/// Decode a payload into claims, exactly as [`spec_decode`] reads it.
pub fn decode_claims(bytes: &Vec<u8>) -> (r: Option<Claims>)
    ensures
        match r {
            Some(c) => spec_decode(bytes@) == Some(c@),
            None => spec_decode(bytes@) == None::<ClaimsView>,
        },
{
    let n = bytes.len();
    if n < 50 {
        return None;
    }
    if bytes[0] != CLAIMS_VERSION {
        return None;
    }
    let p = match Purpose::of_tag(bytes[1]) {
        Some(p) => p,
        None => {
            return None;
        },
    };
    let exp_bytes = match parse_hex_region(bytes, 2, 16) {
        Some(v) => v,
        None => {
            return None;
        },
    };
    let expires_at = u64_from_be_bytes(&exp_bytes);
    let slen_bytes = match parse_hex_region(bytes, 18, 16) {
        Some(v) => v,
        None => {
            return None;
        },
    };
    let slen64 = u64_from_be_bytes(&slen_bytes);
    let n64 = n as u64;
    if slen64 > (n64 - 50) / 2 {
        proof {
            assert(n64 - 50 >= 2 * ((n64 - 50) / 2));
            assert(bytes@.len() < 50 + 2 * (slen64 as int));
        }
        return None;
    }
    proof {
        assert(2 * (slen64 as int) <= 2 * ((n64 - 50) as int / 2));
        assert(50 + 2 * (slen64 as int) <= bytes@.len());
    }
    let slen = slen64 as usize;
    let subject = match parse_hex_region(bytes, 34, 2 * slen) {
        Some(v) => v,
        None => {
            return None;
        },
    };
    let nlen_bytes = match parse_hex_region(bytes, 34 + 2 * slen, 16) {
        Some(v) => v,
        None => {
            return None;
        },
    };
    let nlen64 = u64_from_be_bytes(&nlen_bytes);
    let rem = n64 - 50 - 2 * slen64;
    if rem % 2 != 0 || nlen64 != rem / 2 {
        proof {
            assert(bytes@.len() != 50 + 2 * (slen64 as int) + 2 * (nlen64 as int));
        }
        return None;
    }
    proof {
        assert(bytes@.len() == 50 + 2 * (slen64 as int) + 2 * (nlen64 as int));
    }
    let nlen = nlen64 as usize;
    let nonce = match parse_hex_region(bytes, 50 + 2 * slen, 2 * nlen) {
        Some(v) => v,
        None => {
            return None;
        },
    };
    let c = Claims { subject_id: subject, nonce, purpose: p, expires_at };
    proof {
        assert(spec_decode(bytes@) matches Some(d) && d =~= c@);
    }
    Some(c)
}

} // verus!
