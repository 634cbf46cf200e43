//! The authenticated message-identity codec: message ids that carry an
//! encrypted `user.date` payload, so that a mail reply can be traced to
//! the journal prompt it answers, and nobody can forge one.

use vstd::prelude::*;
use vstd::utf8::{encode_utf8, decode_utf8, valid_utf8, encode_scalar};
use base64::Engine;
use ring::aead;
use std::time::{SystemTime, UNIX_EPOCH};
use crate::date::DaylogDate;
use crate::text::{spec_first_index_of, find_char, str_eq};

verus! {

/// URL-safe, padded base64 of a byte string.
pub uninterp spec fn b64_of(bytes: Seq<u8>) -> Seq<char>;

/// What URL-safe base64 decoding accepts and yields.
pub uninterp spec fn b64_decode_of(text: Seq<char>) -> Option<Seq<u8>>;

/// The ChaCha20-Poly1305 sealed box (ciphertext with its tag appended)
/// for a key, nonce, associated data and plaintext.
pub uninterp spec fn seal_of(key: Seq<u8>, nonce: Seq<u8>, aad: Seq<u8>, pt: Seq<u8>) -> Seq<u8>;

/// What opening a ChaCha20-Poly1305 box yields: a plaintext, or nothing
/// when the box does not verify under these parameters.
pub uninterp spec fn open_of(key: Seq<u8>, nonce: Seq<u8>, aad: Seq<u8>, ct: Seq<u8>) -> Option<
    Seq<u8>,
>;

/// Relies on base64's `URL_SAFE` engine `encode`: the text is a function
/// of the input bytes alone.
#[verifier::external_body]
fn base64_encode(bytes: &[u8]) -> (r: String)
    ensures
        r@ == b64_of(bytes@),
{
    base64::engine::general_purpose::URL_SAFE.encode(bytes)
}

/// Relies on base64's `URL_SAFE` engine `decode`: the answer is a
/// function of the input text alone.
#[verifier::external_body]
fn base64_decode(s: &str) -> (r: Option<Vec<u8>>)
    ensures
        match r {
            Some(v) => b64_decode_of(s@) == Some(v@),
            None => b64_decode_of(s@) is None,
        },
{
    base64::engine::general_purpose::URL_SAFE.decode(s).ok()
}

/// Relies on ring's `LessSafeKey::seal_in_place_append_tag` with
/// `CHACHA20_POLY1305`: deterministic in key, nonce, associated data
/// and plaintext; the result is the ciphertext with the tag appended.
#[verifier::external_body]
fn aead_seal(key_bytes: &[u8; 32], nonce: &[u8], aad: &[u8], plaintext: Vec<u8>) -> (r: Vec<u8>)
    requires
        nonce@.len() == 12,
        plaintext@.len() < 0x10000000,
    ensures
        r@ == seal_of(key_bytes@, nonce@, aad@, plaintext@),
{
    let key = aead::LessSafeKey::new(
        aead::UnboundKey::new(&aead::CHACHA20_POLY1305, key_bytes).unwrap(),
    );
    let n: [u8; 12] = nonce.try_into().unwrap();
    let mut buf = plaintext;
    key.seal_in_place_append_tag(
        aead::Nonce::assume_unique_for_key(n),
        aead::Aad::from(aad),
        &mut buf,
    ).unwrap();
    buf
}

/// Relies on ring's `LessSafeKey::open_in_place` with
/// `CHACHA20_POLY1305`: deterministic in key, nonce, associated data
/// and ciphertext; a box that does not verify yields nothing.
#[verifier::external_body]
fn aead_open(key_bytes: &[u8; 32], nonce: &[u8], aad: &[u8], ciphertext: Vec<u8>) -> (r: Option<
    Vec<u8>,
>)
    requires
        nonce@.len() == 12,
    ensures
        match r {
            Some(v) => open_of(key_bytes@, nonce@, aad@, ciphertext@) == Some(v@),
            None => open_of(key_bytes@, nonce@, aad@, ciphertext@) is None,
        },
{
    let key = aead::LessSafeKey::new(
        aead::UnboundKey::new(&aead::CHACHA20_POLY1305, key_bytes).unwrap(),
    );
    let n: [u8; 12] = nonce.try_into().unwrap();
    let mut buf = ciphertext;
    match key.open_in_place(aead::Nonce::assume_unique_for_key(n), aead::Aad::from(aad), &mut buf) {
        Ok(pt) => {
            let keep = pt.len();
            buf.truncate(keep);
            Some(buf)
        }
        Err(_) => None,
    }
}

/// Relies on `String::from_utf8`: it accepts exactly valid UTF-8 and
/// decodes it to the characters the bytes encode.
#[verifier::external_body]
fn utf8_to_string(bytes: Vec<u8>) -> (r: Option<String>)
    ensures
        r is Some <==> valid_utf8(bytes@),
        r matches Some(s) ==> s@ == decode_utf8(bytes@),
{
    String::from_utf8(bytes).ok()
}

/// Relies on `SystemTime::now` and `duration_since(UNIX_EPOCH)`:
/// nanoseconds since the epoch, zero on a clock before it; nothing is
/// promised of the value.
#[verifier::external_body]
fn now_unix_nanos() -> (r: u128) {
    SystemTime::now().duration_since(UNIX_EPOCH).map(|d| d.as_nanos()).unwrap_or(0)
}

/// A nonce derived from the clock at generation time.
#[derive(Debug, Clone, Copy, PartialEq, Eq, Structural)]
pub struct TimeNonce {
    pub nanos: u128,
}

/// The sixteen little-endian bytes of a nanosecond count.
#[verifier::opaque]
pub open spec fn spec_le16(n: u128) -> Seq<u8> {
    seq![
        (n % 0x100) as u8,
        ((n / 0x100) % 0x100) as u8,
        ((n / 0x10000) % 0x100) as u8,
        ((n / 0x1000000) % 0x100) as u8,
        ((n / 0x100000000) % 0x100) as u8,
        ((n / 0x10000000000) % 0x100) as u8,
        ((n / 0x1000000000000) % 0x100) as u8,
        ((n / 0x100000000000000) % 0x100) as u8,
        ((n / 0x10000000000000000) % 0x100) as u8,
        ((n / 0x1000000000000000000) % 0x100) as u8,
        ((n / 0x100000000000000000000) % 0x100) as u8,
        ((n / 0x10000000000000000000000) % 0x100) as u8,
        ((n / 0x1000000000000000000000000) % 0x100) as u8,
        ((n / 0x100000000000000000000000000) % 0x100) as u8,
        ((n / 0x10000000000000000000000000000) % 0x100) as u8,
        ((n / 0x1000000000000000000000000000000) % 0x100) as u8,
    ]
}

/// The value that sixteen little-endian bytes denote.
#[verifier::opaque]
pub open spec fn le16_val(s: Seq<u8>) -> int {
    s[0] + s[1] * 0x100 + s[2] * 0x10000 + s[3] * 0x1000000 + s[4] * 0x100000000 + s[5]
        * 0x10000000000 + s[6] * 0x1000000000000 + s[7] * 0x100000000000000 + s[8]
        * 0x10000000000000000 + s[9] * 0x1000000000000000000 + s[10] * 0x100000000000000000000
        + s[11] * 0x10000000000000000000000 + s[12] * 0x1000000000000000000000000 + s[13]
        * 0x100000000000000000000000000 + s[14] * 0x10000000000000000000000000000 + s[15]
        * 0x1000000000000000000000000000000
}

/// A byte string without its trailing zero bytes.
pub open spec fn spec_trim_trailing_zeros(s: Seq<u8>) -> Seq<u8>
    decreases s.len(),
{
    if s.len() > 0 && s.last() == 0 {
        spec_trim_trailing_zeros(s.drop_last())
    } else {
        s
    }
}

/// Sixteen bytes: the input truncated, or padded with zeros.
pub open spec fn spec_pad16(s: Seq<u8>) -> Seq<u8> {
    if s.len() >= 16 {
        s.subrange(0, 16)
    } else {
        s + Seq::new((16 - s.len()) as nat, |i: int| 0u8)
    }
}

impl TimeNonce {
    /// A nonce from the clock. Nothing is known of its value.
    pub fn new() -> Self {
        TimeNonce { nanos: now_unix_nanos() }
    }

    /// The low twelve little-endian bytes, used as the AEAD nonce.
    pub fn nonce_bytes(&self) -> (r: Vec<u8>)
        ensures
            r@ == spec_le16(self.nanos).subrange(0, 12),
            r@.len() == 12,
    {
        proof {
            reveal(spec_le16);
        }
        let mut v: Vec<u8> = Vec::new();
        let n = self.nanos;
        v.push((n % 0x100) as u8);
        v.push(((n / 0x100) % 0x100) as u8);
        v.push(((n / 0x10000) % 0x100) as u8);
        v.push(((n / 0x1000000) % 0x100) as u8);
        v.push(((n / 0x100000000) % 0x100) as u8);
        v.push(((n / 0x10000000000) % 0x100) as u8);
        v.push(((n / 0x1000000000000) % 0x100) as u8);
        v.push(((n / 0x100000000000000) % 0x100) as u8);
        v.push(((n / 0x10000000000000000) % 0x100) as u8);
        v.push(((n / 0x1000000000000000000) % 0x100) as u8);
        v.push(((n / 0x100000000000000000000) % 0x100) as u8);
        v.push(((n / 0x10000000000000000000000) % 0x100) as u8);
        assert(v@ =~= spec_le16(self.nanos).subrange(0, 12));
        v
    }

    /// All sixteen little-endian bytes.
    fn le_bytes(&self) -> (r: Vec<u8>)
        ensures
            r@ == spec_le16(self.nanos),
            r@.len() == 16,
    {
        proof {
            reveal(spec_le16);
        }
        let mut v = self.nonce_bytes();
        let n = self.nanos;
        v.push(((n / 0x1000000000000000000000000) % 0x100) as u8);
        v.push(((n / 0x100000000000000000000000000) % 0x100) as u8);
        v.push(((n / 0x10000000000000000000000000000) % 0x100) as u8);
        v.push(((n / 0x1000000000000000000000000000000) % 0x100) as u8);
        assert(v@ =~= spec_le16(self.nanos));
        v
    }

    /// The compact rendering used inside a message id: the little-endian
    /// bytes with trailing zeros dropped, base64-encoded.
    pub fn base64(&self) -> (r: String)
        ensures
            r@ == b64_of(spec_trim_trailing_zeros(spec_le16(self.nanos))),
    {
        let bytes = trim_zeros(self.le_bytes());
        base64_encode(bytes.as_slice())
    }

    /// What `parse` accepts and yields: base64 text whose bytes, taken
    /// little-endian and truncated or zero-padded to sixteen, give the
    /// nanosecond value.
    pub open spec fn spec_parse(s: Seq<char>) -> Option<TimeNonce> {
        match b64_decode_of(s) {
            None => None,
            Some(b) => Some(TimeNonce { nanos: le16_val(spec_pad16(b)) as u128 }),
        }
    }

    /// Read a nonce back from its base64 rendering.
    pub fn parse(s: &str) -> (r: Option<TimeNonce>)
        ensures
            r == Self::spec_parse(s@),
    {
        let mut bytes = match base64_decode(s) {
            Some(b) => b,
            None => {
                return None;
            }
        };
        bytes.resize(16, 0u8);
        proof {
            reveal(le16_val);
            assert(bytes@ =~= spec_pad16(bytes@.subrange(0, bytes@.len() as int)));
        }
        let nanos: u128 = bytes[0] as u128 + bytes[1] as u128 * 0x100 + bytes[2] as u128 * 0x10000
            + bytes[3] as u128 * 0x1000000 + bytes[4] as u128 * 0x100000000 + bytes[5] as u128
            * 0x10000000000 + bytes[6] as u128 * 0x1000000000000 + bytes[7] as u128
            * 0x100000000000000 + bytes[8] as u128 * 0x10000000000000000 + bytes[9] as u128
            * 0x1000000000000000000 + bytes[10] as u128 * 0x100000000000000000000
            + bytes[11] as u128 * 0x10000000000000000000000 + bytes[12] as u128
            * 0x1000000000000000000000000 + bytes[13] as u128 * 0x100000000000000000000000000
            + bytes[14] as u128 * 0x10000000000000000000000000000 + bytes[15] as u128
            * 0x1000000000000000000000000000000;
        Some(TimeNonce { nanos })
    }
}

/// A message id of this system's own making: it bears the versioned
/// prefix.
pub open spec fn spec_is_our_message_id(s: Seq<char>) -> bool {
    s.len() >= 8 && s.subrange(0, 8) == "daylog.1"@
}

/// Whether a message id was generated here: it starts with the
/// versioned prefix.
pub fn is_our_message_id(s: &str) -> (r: bool)
    ensures
        r == spec_is_our_message_id(s@),
{
    let len = s.unicode_len();
    if len < 8 {
        return false;
    }
    str_eq(s.substring_char(0, 8), "daylog.1")
}

/// The message id generated for a user and date under a key and nonce:
/// the prefix, the nonce's compact rendering, and the sealed
/// `user.date` payload, dot-separated.
pub open spec fn spec_gen(user: Seq<char>, date: DaylogDate, key: Seq<u8>, nanos: u128) -> Seq<
    char,
> {
    "daylog.1"@ + seq!['.'] + b64_of(spec_trim_trailing_zeros(spec_le16(nanos))) + seq!['.']
        + b64_of(
        seal_of(
            key,
            spec_le16(nanos).subrange(0, 12),
            encode_utf8("daylog.1"@),
            encode_utf8(user + seq!['.'] + date.spec_format_ymd()),
        ),
    )
}

/// Generate a message id for a user and a date: the nonce comes from
/// the clock, and everything else is determined by the arguments.
pub fn gen_message_id(username: &str, date: DaylogDate, key_bytes: &[u8; 32]) -> (r: String)
    requires
        date.wf(),
        username@.len() < 0x100000,
    ensures
        exists|nanos: u128| r@ == spec_gen(username@, date, key_bytes@, nanos),
{
    let nonce = TimeNonce::new();
    let r = gen_message_id_with(username, date, key_bytes, nonce);
    proof {
        assert(r@ == spec_gen(username@, date, key_bytes@, nonce.nanos));
    }
    r
}

/// Generate the message id for a user, date, key and an explicit nonce.
pub fn gen_message_id_with(
    username: &str,
    date: DaylogDate,
    key_bytes: &[u8; 32],
    nonce: TimeNonce,
) -> (r: String)
    requires
        date.wf(),
        username@.len() < 0x100000,
    ensures
        r@ == spec_gen(username@, date, key_bytes@, nonce.nanos),
{
    let mut plain = String::new();
    plain.append(username);
    plain.append(".");
    let ymd = date.format_ymd();
    plain.append(ymd.as_str());
    proof {
        reveal_strlit(".");
        assert(plain@ =~= username@ + seq!['.'] + date.spec_format_ymd());
        lemma_encode_utf8_len(plain@);
    }
    let pt = plain.as_str().as_bytes_vec();
    let nb = nonce.nonce_bytes();
    let prefix_bytes = "daylog.1".as_bytes_vec();
    let sealed = aead_seal(key_bytes, nb.as_slice(), prefix_bytes.as_slice(), pt);
    let enc = base64_encode(sealed.as_slice());
    let nb64 = nonce.base64();
    let mut out = String::new();
    out.append("daylog.1");
    out.append(".");
    out.append(nb64.as_str());
    out.append(".");
    out.append(enc.as_str());
    proof {
        reveal_strlit(".");
        assert(out@ =~= spec_gen(username@, date, key_bytes@, nonce.nanos));
    }
    out
}

/// A byte vector without its trailing zero bytes.
fn trim_zeros(v: Vec<u8>) -> (r: Vec<u8>)
    ensures
        r@ == spec_trim_trailing_zeros(v@),
{
    let mut v = v;
    let ghost orig = v@;
    let mut end: usize = v.len();
    proof {
        assert(orig.subrange(0, orig.len() as int) =~= orig);
    }
    while end > 0 && v[end - 1] == 0
        invariant
            0 <= end <= v@.len(),
            v@ == orig,
            spec_trim_trailing_zeros(orig) == spec_trim_trailing_zeros(
                orig.subrange(0, end as int),
            ),
        decreases end,
    {
        proof {
            let cur = orig.subrange(0, end as int);
            assert(cur.last() == 0);
            assert(cur.drop_last() =~= orig.subrange(0, end - 1 as int));
        }
        end = end - 1;
    }
    proof {
        let cur = orig.subrange(0, end as int);
        if end == 0 {
            assert(spec_trim_trailing_zeros(cur) =~= cur);
        }
        assert(spec_trim_trailing_zeros(cur) == cur);
    }
    v.truncate(end);
    v
}

/// Why a message id failed verification.
#[derive(Debug, Clone, Copy, PartialEq, Eq, Structural)]
pub enum MsgIdError {
    /// Fewer than four dot-separated parts before any `@`.
    NotEnoughParts,
    /// More than four dot-separated parts.
    TooManyParts,
    /// The first two parts are not the versioned prefix.
    UnrecognizedPrefix,
    /// The nonce part is not base64.
    InvalidNonce,
    /// The payload part is not base64.
    InvalidEncrypted,
    /// The sealed payload does not verify under the key.
    ValidationFailed,
    /// The decrypted payload has no dot between user and date.
    NotEnoughResultParts,
    /// A decrypted field is not UTF-8.
    InvalidUtf8,
}

/// What the decrypted `user.date` payload splits into: the bytes after
/// the last dot are the date, those before it the user, each decoded
/// from UTF-8.
pub open spec fn spec_split_payload(pt: Seq<u8>) -> Result<(Seq<char>, Seq<char>), MsgIdError> {
    match pt.index_of_last(46u8) {
        None => {
            if !valid_utf8(pt) {
                Err(MsgIdError::InvalidUtf8)
            } else {
                Err(MsgIdError::NotEnoughResultParts)
            }
        },
        Some(d) => {
            let date_b = pt.subrange(d + 1, pt.len() as int);
            let user_b = pt.subrange(0, d);
            if !valid_utf8(date_b) {
                Err(MsgIdError::InvalidUtf8)
            } else if !valid_utf8(user_b) {
                Err(MsgIdError::InvalidUtf8)
            } else {
                Ok((decode_utf8(user_b), decode_utf8(date_b)))
            }
        },
    }
}

/// What verification accepts and yields, step by step: take the text
/// before any `@`; it must split on dots into exactly the prefix's two
/// parts, a nonce and a payload; the nonce and payload must be base64;
/// the payload must open under the key with the nonce, with the prefix
/// as associated data; and the decrypted payload splits at its last
/// dot into user and date.
pub open spec fn spec_verify(msg: Seq<char>, key: Seq<u8>) -> Result<
    (Seq<char>, Seq<char>),
    MsgIdError,
> {
    let m = msg.subrange(0, spec_first_index_of(msg, '@'));
    let i1 = spec_first_index_of(m, '.');
    if i1 >= m.len() {
        Err(MsgIdError::NotEnoughParts)
    } else {
        let ident = m.subrange(0, i1);
        let r1 = m.subrange(i1 + 1, m.len() as int);
        let i2 = spec_first_index_of(r1, '.');
        if i2 >= r1.len() {
            Err(MsgIdError::NotEnoughParts)
        } else {
            let ver = r1.subrange(0, i2);
            let r2 = r1.subrange(i2 + 1, r1.len() as int);
            let i3 = spec_first_index_of(r2, '.');
            if i3 >= r2.len() {
                Err(MsgIdError::NotEnoughParts)
            } else {
                let nonce_part = r2.subrange(0, i3);
                let r3 = r2.subrange(i3 + 1, r2.len() as int);
                if spec_first_index_of(r3, '.') < r3.len() {
                    Err(MsgIdError::TooManyParts)
                } else if !(ident == "daylog"@ && ver == "1"@) {
                    Err(MsgIdError::UnrecognizedPrefix)
                } else {
                    match TimeNonce::spec_parse(nonce_part) {
                        None => Err(MsgIdError::InvalidNonce),
                        Some(nonce) => match b64_decode_of(r3) {
                            None => Err(MsgIdError::InvalidEncrypted),
                            Some(enc) => match open_of(
                                key,
                                spec_le16(nonce.nanos).subrange(0, 12),
                                encode_utf8("daylog.1"@),
                                enc,
                            ) {
                                None => Err(MsgIdError::ValidationFailed),
                                Some(pt) => spec_split_payload(pt),
                            },
                        },
                    }
                }
            }
        }
    }
}

/// Check a message id against the key and recover the user and date it
/// was generated for.
#[verifier::rlimit(100)]
pub fn verify_message_id(message_id: &str, key_bytes: &[u8; 32]) -> (r: Result<
    (String, String),
    MsgIdError,
>)
    ensures
        match (r, spec_verify(message_id@, key_bytes@)) {
            (Ok((u, d)), Ok((su, sd))) => u@ == su && d@ == sd,
            (Err(e), Err(se)) => e == se,
            _ => false,
        },
{
    let full_len = message_id.unicode_len();
    let m = match find_char(message_id, '@') {
        Some(i) => message_id.substring_char(0, i),
        None => message_id.substring_char(0, full_len),
    };
    let mlen = m.unicode_len();
    let i1 = match find_char(m, '.') {
        Some(i) => i,
        None => {
            return Err(MsgIdError::NotEnoughParts);
        }
    };
    let ident = m.substring_char(0, i1);
    let r1 = m.substring_char(i1 + 1, mlen);
    let r1len = r1.unicode_len();
    let i2 = match find_char(r1, '.') {
        Some(i) => i,
        None => {
            return Err(MsgIdError::NotEnoughParts);
        }
    };
    let ver = r1.substring_char(0, i2);
    let r2 = r1.substring_char(i2 + 1, r1len);
    let r2len = r2.unicode_len();
    let i3 = match find_char(r2, '.') {
        Some(i) => i,
        None => {
            return Err(MsgIdError::NotEnoughParts);
        }
    };
    let nonce_part = r2.substring_char(0, i3);
    let r3 = r2.substring_char(i3 + 1, r2len);
    if let Some(_) = find_char(r3, '.') {
        return Err(MsgIdError::TooManyParts);
    }
    if !(str_eq(ident, "daylog") && str_eq(ver, "1")) {
        return Err(MsgIdError::UnrecognizedPrefix);
    }
    let nonce = match TimeNonce::parse(nonce_part) {
        Some(n) => n,
        None => {
            return Err(MsgIdError::InvalidNonce);
        }
    };
    let enc = match base64_decode(r3) {
        Some(v) => v,
        None => {
            return Err(MsgIdError::InvalidEncrypted);
        }
    };
    let nb = nonce.nonce_bytes();
    let prefix_bytes = "daylog.1".as_bytes_vec();
    let pt = match aead_open(key_bytes, nb.as_slice(), prefix_bytes.as_slice(), enc) {
        Some(v) => v,
        None => {
            return Err(MsgIdError::ValidationFailed);
        }
    };
    let dot = find_last_byte(&pt, 46u8);
    match dot {
        None => {
            let whole = vec_range(&pt, 0, pt.len());
            proof {
                assert(whole@ =~= pt@);
            }
            match utf8_to_string(whole) {
                None => Err(MsgIdError::InvalidUtf8),
                Some(_) => Err(MsgIdError::NotEnoughResultParts),
            }
        }
        Some(d) => {
            let ptlen = pt.len();
            let date_b = vec_range(&pt, d + 1, ptlen);
            let user_b = vec_range(&pt, 0, d);
            let date = match utf8_to_string(date_b) {
                None => {
                    return Err(MsgIdError::InvalidUtf8);
                }
                Some(s) => s,
            };
            let user = match utf8_to_string(user_b) {
                None => {
                    return Err(MsgIdError::InvalidUtf8);
                }
                Some(s) => s,
            };
            Ok((user, date))
        }
    }
}

/// The index of the last occurrence of a byte, if any.
fn find_last_byte(v: &Vec<u8>, b: u8) -> (r: Option<usize>)
    ensures
        match r {
            Some(i) => v@.index_of_last(b) == Some(i as int) && i < v@.len(),
            None => v@.index_of_last(b) is None,
        },
{
    let mut i = v.len();
    while i > 0
        invariant
            0 <= i <= v@.len(),
            forall|j: int| i <= j < v@.len() ==> v@[j] != b,
        decreases i,
    {
        i = i - 1;
        if v[i] == b {
            proof {
                v@.index_of_last_ensures(b);
                match v@.index_of_last(b) {
                    Some(q) => {
                        if q != i {
                            assert(v@[q] == b);
                        }
                    },
                    None => {
                        assert(v@.contains(b)) by {
                            assert(v@[i as int] == b);
                        }
                    },
                }
            }
            return Some(i);
        }
    }
    proof {
        v@.index_of_last_ensures(b);
        match v@.index_of_last(b) {
            Some(q) => {
                assert(v@[q] == b);
            },
            None => {},
        }
    }
    None
}

/// The bytes of a half-open index range, as a fresh vector.
fn vec_range(v: &Vec<u8>, a: usize, b: usize) -> (r: Vec<u8>)
    requires
        a <= b <= v@.len(),
    ensures
        r@ == v@.subrange(a as int, b as int),
{
    let mut out: Vec<u8> = Vec::new();
    let mut i = a;
    while i < b
        invariant
            a <= i <= b <= v@.len(),
            out@ == v@.subrange(a as int, i as int),
        decreases b - i,
    {
        out.push(v[i]);
        proof {
            assert(v@.subrange(a as int, i + 1 as int) =~= v@.subrange(a as int, i as int).push(
                v@[i as int],
            ));
        }
        i = i + 1;
    }
    out
}

/// A generated message id is always recognized as one of ours: it
/// carries the versioned prefix, whatever the user, date, key and
/// nonce were.
pub proof fn lemma_gen_is_ours(user: Seq<char>, date: DaylogDate, key: Seq<u8>, nanos: u128)
    ensures
        spec_is_our_message_id(spec_gen(user, date, key, nanos)),
{
    reveal_strlit("daylog.1");
    let s = spec_gen(user, date, key, nanos);
    assert(s.subrange(0, 8) =~= "daylog.1"@);
}

/// UTF-8 encoding takes at most four bytes per character.
proof fn lemma_encode_utf8_len(chars: Seq<char>)
    ensures
        encode_utf8(chars).len() <= 4 * chars.len(),
    decreases chars.len(),
{
    if chars.len() > 0 {
        lemma_encode_utf8_len(chars.drop_first());
        assert(encode_scalar(chars[0] as u32).len() <= 4);
    }
}

} // verus!
