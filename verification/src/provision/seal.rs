//! Values at rest: sealed with AES-256-GCM under a key, and written in hex.
use aes_gcm::aead::{Aead, AeadCore, KeyInit, OsRng};
use aes_gcm::{Aes256Gcm, Key, Nonce};
use vstd::prelude::*;
use vstd::utf8::{
    encode_utf8, encode_utf8_decode_utf8, encode_utf8_valid_utf8, is_ascii_chars,
    is_ascii_chars_encode_utf8, valid_utf8,
};

use crate::provision::{ProvisionError, ProvisionFault};

verus! {

// ---------------------------------------------------------------------------
// Hex
// ---------------------------------------------------------------------------

/// The small hex digit of a number below sixteen.
pub open spec fn hex_digit(d: int) -> char {
    if d < 10 {
        (48 + d) as char
    } else {
        (87 + d) as char
    }
}

/// Bytes written in hex, two small digits each.
pub open spec fn hex_of(bytes: Seq<u8>) -> Seq<char>
    decreases bytes.len(),
{
    if bytes.len() == 0 {
        Seq::empty()
    } else {
        hex_of(bytes.drop_last()).push(hex_digit(bytes.last() as int / 16)).push(
            hex_digit(bytes.last() as int % 16),
        )
    }
}

fn hex_char(d: u8) -> (c: char)
    requires
        d < 16,
    ensures
        c == hex_digit(d as int),
{
    if d < 10 {
        (48 + d) as char
    } else {
        (87 + d) as char
    }
}

/// Bytes written in hex.
pub fn to_hex(bytes: &[u8]) -> (r: String)
    ensures
        r@ == hex_of(bytes@),
{
    let mut out = String::new();
    let mut i: usize = 0;
    assert(out@ =~= hex_of(bytes@.take(0)));
    while i < bytes.len()
        invariant
            i <= bytes@.len(),
            out@ == hex_of(bytes@.take(i as int)),
        decreases bytes.len() - i,
    {
        assert(bytes@.take(i + 1).drop_last() =~= bytes@.take(i as int));
        let b: u8 = bytes[i];
        out.push(hex_char(b / 16));
        out.push(hex_char(b % 16));
        i = i + 1;
    }
    assert(bytes@.take(bytes@.len() as int) =~= bytes@);
    out
}

/// The number of a hex digit, large or small.
pub open spec fn hex_value(b: u8) -> Option<int> {
    if 48 <= b <= 57 {
        Some(b - 48)
    } else if 97 <= b <= 102 {
        Some(b - 87)
    } else if 65 <= b <= 70 {
        Some(b - 55)
    } else {
        None
    }
}

/// The byte that two hex digits write.
pub open spec fn pair_value(a: u8, b: u8) -> Option<u8> {
    match hex_value(b) {
        Some(lo) => match hex_value(a) {
            Some(hi) => Some((hi * 16 + lo) as u8),
            None => None,
        },
        None => None,
    }
}

/// The bytes that a text of an even number of bytes writes in hex.
pub open spec fn unhexed(text: Seq<u8>) -> Option<Seq<u8>>
    decreases text.len(),
{
    if text.len() < 2 {
        Some(Seq::empty())
    } else {
        let n = text.len();
        match (unhexed(text.subrange(0, n - 2)), pair_value(text[n - 2], text[n - 1])) {
            (Some(rest), Some(b)) => Some(rest.push(b)),
            _ => None,
        }
    }
}

/// What a text says in hex: its bytes, or what is wrong with it.
pub open spec fn hex_read(s: Seq<char>) -> Result<Seq<u8>, ProvisionFault> {
    let text = encode_utf8(s);
    if text.len() % 2 != 0 {
        Err(ProvisionFault::Backend("odd-length hex"@))
    } else {
        match unhexed(text) {
            Some(b) => Ok(b),
            None => Err(ProvisionFault::Backend("bad hex: invalid digit found in string"@)),
        }
    }
}

fn digit_of(b: u8) -> (r: Option<u8>)
    ensures
        match r {
            Some(d) => hex_value(b) == Some(d as int) && d < 16,
            None => hex_value(b) is None,
        },
{
    if 48 <= b && b <= 57 {
        Some(b - 48)
    } else if 97 <= b && b <= 102 {
        Some(b - 87)
    } else if 65 <= b && b <= 70 {
        Some(b - 55)
    } else {
        None
    }
}

fn pair_of(a: u8, b: u8) -> (r: Option<u8>)
    ensures
        r == pair_value(a, b),
{
    match digit_of(b) {
        Some(lo) => match digit_of(a) {
            Some(hi) => Some(hi * 16 + lo),
            None => None,
        },
        None => None,
    }
}

proof fn lemma_unhexed_fails(text: Seq<u8>, k: int)
    requires
        0 <= k <= text.len(),
        k % 2 == 0,
        text.len() % 2 == 0,
        unhexed(text.subrange(0, k)) is None,
    ensures
        unhexed(text) is None,
    decreases text.len(),
{
    if k == text.len() {
        assert(text.subrange(0, k) =~= text);
    } else {
        let shorter = text.subrange(0, text.len() - 2);
        assert(shorter.subrange(0, k) =~= text.subrange(0, k));
        lemma_unhexed_fails(shorter, k);
    }
}

/// The bytes that a text writes in hex.
pub fn from_hex(s: &str) -> (r: Result<Vec<u8>, ProvisionError>)
    ensures
        match r {
            Ok(v) => hex_read(s@) matches Ok(b) && b == v@,
            Err(e) => hex_read(s@) matches Err(f) && f == e@,
        },
{
    let text = s.as_bytes();
    if text.len() % 2 != 0 {
        return Err(ProvisionError::Backend("odd-length hex".to_owned()));
    }
    let mut out: Vec<u8> = Vec::new();
    let mut i: usize = 0;
    assert(text@.subrange(0, 0) =~= Seq::empty());
    while i < text.len()
        invariant
            i <= text@.len(),
            i % 2 == 0,
            text@.len() % 2 == 0,
            text@ == encode_utf8(s@),
            unhexed(text@.subrange(0, i as int)) == Some(out@),
        decreases text.len() - i,
    {
        let ghost next = text@.subrange(0, i + 2);
        assert(next.subrange(0, i as int) =~= text@.subrange(0, i as int));
        match pair_of(text[i], text[i + 1]) {
            Some(b) => out.push(b),
            None => {
                proof {
                    assert(unhexed(next) is None);
                    lemma_unhexed_fails(text@, i + 2);
                }
                return Err(
                    ProvisionError::Backend("bad hex: invalid digit found in string".to_owned()),
                );
            },
        }
        i = i + 2;
    }
    assert(text@.subrange(0, text@.len() as int) =~= text@);
    Ok(out)
}

proof fn lemma_hex_ascii(bytes: Seq<u8>)
    ensures
        hex_of(bytes).len() == 2 * bytes.len(),
        is_ascii_chars(hex_of(bytes)),
    decreases bytes.len(),
{
    if bytes.len() > 0 {
        lemma_hex_ascii(bytes.drop_last());
        let b = bytes.last();
        assert(0 <= b as int / 16 < 16);
    }
}

proof fn lemma_unhexed_hex(bytes: Seq<u8>, text: Seq<u8>)
    requires
        text.len() == 2 * bytes.len(),
        forall|i: int| 0 <= i < text.len() ==> #[trigger] text[i] == hex_of(bytes)[i] as u8,
    ensures
        unhexed(text) == Some(bytes),
    decreases bytes.len(),
{
    lemma_hex_ascii(bytes);
    if bytes.len() == 0 {
        assert(bytes =~= Seq::empty());
    } else {
        let n = text.len() as int;
        let front = bytes.drop_last();
        let b = bytes.last();
        lemma_hex_ascii(front);
        assert forall|i: int| 0 <= i < n - 2 implies #[trigger] text.subrange(0, n - 2)[i]
            == hex_of(front)[i] as u8 by {
            assert(text[i] == hex_of(bytes)[i] as u8);
        }
        lemma_unhexed_hex(front, text.subrange(0, n - 2));
        let hi = b as int / 16;
        let lo = b as int % 16;
        assert(0 <= hi < 16 && 0 <= lo < 16);
        assert(text[n - 2] == hex_digit(hi) as u8);
        assert(text[n - 1] == hex_digit(lo) as u8);
        assert(hex_value(text[n - 2]) == Some(hi));
        assert(hex_value(text[n - 1]) == Some(lo));
        assert(hi * 16 + lo == b);
        assert(front.push(b) =~= bytes);
    }
}

/// What is written in hex is read back.
pub proof fn law_hex_reads_back(bytes: Seq<u8>)
    ensures
        hex_read(hex_of(bytes)) == Ok::<Seq<u8>, ProvisionFault>(bytes),
{
    lemma_hex_ascii(bytes);
    is_ascii_chars_encode_utf8(hex_of(bytes));
    lemma_unhexed_hex(bytes, encode_utf8(hex_of(bytes)));
}

// ---------------------------------------------------------------------------
// Sealing
// ---------------------------------------------------------------------------

/// The most bytes that AES-256-GCM seals at once: 64 GiB.
pub const SEAL_LIMIT: u64 = 68719476736;

/// What AES-256-GCM makes of a plain text under a key and a nonce.
pub uninterp spec fn gcm_sealed(key: Seq<u8>, nonce: Seq<u8>, plain: Seq<u8>) -> Seq<u8>;

/// The plain text that AES-256-GCM finds in a sealed one under a key and a nonce;
/// none where the seal does not hold.
pub uninterp spec fn gcm_opened(key: Seq<u8>, nonce: Seq<u8>, sealed: Seq<u8>) -> Option<Seq<u8>>;

/// `Aead::encrypt` of `aes_gcm::Aes256Gcm`: fails exactly on a plain text beyond
/// the limit; else the sealed text is a function of key, nonce and plain text, and
/// under the same key and nonce it opens to the plain text again.
#[verifier::external_body]
fn gcm_encrypt(key: &[u8; 32], nonce: &[u8; 12], plain: &[u8]) -> (r: Option<Vec<u8>>)
    ensures
        r is Some <==> plain@.len() <= SEAL_LIMIT,
        r matches Some(ct) ==> ct@ == gcm_sealed(key@, nonce@, plain@),
        r matches Some(ct) ==> gcm_opened(key@, nonce@, ct@) == Some(plain@),
{
    let cipher = Aes256Gcm::new(Key::<Aes256Gcm>::from_slice(key));
    cipher.encrypt(Nonce::from_slice(nonce), plain).ok()
}

/// `Aead::decrypt` of `aes_gcm::Aes256Gcm`: what it finds, and whether the seal
/// holds, is a function of key, nonce and sealed text. It panics on a nonce that
/// is not twelve bytes long.
#[verifier::external_body]
fn gcm_decrypt(key: &[u8; 32], nonce: &Vec<u8>, sealed: &Vec<u8>) -> (r: Option<Vec<u8>>)
    requires
        nonce@.len() == 12,
    ensures
        match r {
            Some(p) => gcm_opened(key@, nonce@, sealed@) == Some(p@),
            None => gcm_opened(key@, nonce@, sealed@) is None,
        },
{
    let cipher = Aes256Gcm::new(Key::<Aes256Gcm>::from_slice(key));
    cipher.decrypt(Nonce::from_slice(nonce), sealed.as_slice()).ok()
}

/// `AeadCore::generate_nonce` of `aes_gcm::Aes256Gcm` from the system's source of
/// randomness. Nothing is said of the bytes.
#[verifier::external_body]
pub(crate) fn fresh_nonce() -> (r: [u8; 12]) {
    Aes256Gcm::generate_nonce(&mut OsRng).into()
}

/// `RngCore::fill_bytes` of the system's source of randomness. Nothing is said of
/// the bytes.
#[verifier::external_body]
fn random_bytes() -> (r: [u8; 32]) {
    let mut buf = [0u8; 32];
    aes_gcm::aead::rand_core::RngCore::fill_bytes(&mut OsRng, &mut buf);
    buf
}

/// Fresh secret material: 32 random bytes in hex.
pub fn random_secret() -> (r: String)
    ensures
        r@.len() == 64,
        exists|bytes: Seq<u8>| bytes.len() == 32 && r@ == #[trigger] hex_of(bytes),
{
    let bytes = random_bytes();
    let r = to_hex(&bytes);
    proof {
        lemma_hex_ascii(bytes@);
        assert(r@ == hex_of(bytes@));
    }
    r
}

/// A sealed value as it is stored: the sealed bytes and the nonce, both in hex.
#[derive(Debug)]
pub struct Sealed {
    pub ciphertext: String,
    pub nonce: String,
}

/// What a stored value opens to under a key; `what` is told where the seal does
/// not hold.
pub open spec fn opened(key: Seq<u8>, s: Sealed, what: Seq<char>) -> Result<
    Seq<u8>,
    ProvisionFault,
> {
    match hex_read(s.ciphertext@) {
        Err(f) => Err(f),
        Ok(ct) => match hex_read(s.nonce@) {
            Err(f) => Err(f),
            Ok(nonce) => match gcm_opened(key, nonce, ct) {
                Some(p) => Ok(p),
                None => Err(ProvisionFault::Backend(what + "aead::Error"@)),
            },
        },
    }
}

/// A stored value whose nonce, if it is hex at all, has twelve bytes.
pub open spec fn sound(s: Sealed) -> bool {
    hex_read(s.nonce@) matches Ok(n) ==> n.len() == 12
}

/// Whether the nonce of a stored value, if it is hex at all, has twelve bytes.
pub fn is_sound(s: &Sealed) -> (r: bool)
    ensures
        r == sound(*s),
{
    match from_hex(s.nonce.as_str()) {
        Ok(n) => n.len() == 12,
        Err(_) => true,
    }
}

/// Seals a value under a key and a nonce that is used once. Refuses only a value
/// beyond the limit; `what` introduces the refusal.
pub fn seal(key: &[u8; 32], nonce: &[u8; 12], plain: &[u8], what: &str) -> (r: Result<
    Sealed,
    ProvisionError,
>)
    ensures
        match r {
            Ok(s) => {
                &&& plain@.len() <= SEAL_LIMIT
                &&& s.ciphertext@ == hex_of(gcm_sealed(key@, nonce@, plain@))
                &&& s.nonce@ == hex_of(nonce@)
                &&& sound(s)
                &&& forall|w: Seq<char>|
                    #[trigger] opened(key@, s, w) == Ok::<Seq<u8>, ProvisionFault>(plain@)
            },
            Err(e) => plain@.len() > SEAL_LIMIT && e@ == ProvisionFault::Backend(
                what@ + "aead::Error"@,
            ),
        },
{
    match gcm_encrypt(key, nonce, plain) {
        Some(ct) => {
            proof {
                law_hex_reads_back(ct@);
                law_hex_reads_back(nonce@);
            }
            Ok(Sealed { ciphertext: to_hex(ct.as_slice()), nonce: to_hex(nonce) })
        },
        None => {
            let mut m = what.to_owned();
            m.append("aead::Error");
            Err(ProvisionError::Backend(m))
        },
    }
}

/// Opens a stored value under a key.
pub fn open(key: &[u8; 32], s: &Sealed, what: &str) -> (r: Result<Vec<u8>, ProvisionError>)
    requires
        sound(*s),
    ensures
        match r {
            Ok(p) => opened(key@, *s, what@) == Ok::<Seq<u8>, ProvisionFault>(p@),
            Err(e) => opened(key@, *s, what@) == Err::<Seq<u8>, ProvisionFault>(e@),
        },
{
    let ct = match from_hex(s.ciphertext.as_str()) {
        Ok(v) => v,
        Err(e) => {
            return Err(e);
        },
    };
    let nonce = match from_hex(s.nonce.as_str()) {
        Ok(v) => v,
        Err(e) => {
            return Err(e);
        },
    };
    match gcm_decrypt(key, &nonce, &ct) {
        Some(p) => Ok(p),
        None => {
            let mut m = what.to_owned();
            m.append("aead::Error");
            Err(ProvisionError::Backend(m))
        },
    }
}

// ---------------------------------------------------------------------------
// Bytes as text
// ---------------------------------------------------------------------------

/// What `String::from_utf8` complains of in bytes that are no UTF-8.
pub uninterp spec fn utf8_complaint(bytes: Seq<u8>) -> Seq<char>;

/// `String::from_utf8`: the text whose UTF-8 the bytes are; else a complaint that
/// depends on the bytes alone.
#[verifier::external_body]
fn text_from_utf8(bytes: Vec<u8>) -> (r: Result<String, String>)
    ensures
        match r {
            Ok(s) => encode_utf8(s@) == bytes@,
            Err(e) => !valid_utf8(bytes@) && e@ == utf8_complaint(bytes@),
        },
{
    String::from_utf8(bytes).map_err(|e| e.to_string())
}

/// What bytes say as text.
pub open spec fn utf8_read(bytes: Seq<u8>) -> Result<Seq<char>, Seq<char>> {
    if valid_utf8(bytes) {
        Ok(vstd::utf8::decode_utf8(bytes))
    } else {
        Err(utf8_complaint(bytes))
    }
}

/// The text that bytes are the UTF-8 of, or a complaint.
pub fn read_utf8(bytes: Vec<u8>) -> (r: Result<String, String>)
    ensures
        match r {
            Ok(s) => utf8_read(bytes@) == Ok::<Seq<char>, Seq<char>>(s@),
            Err(e) => utf8_read(bytes@) == Err::<Seq<char>, Seq<char>>(e@),
        },
{
    match text_from_utf8(bytes) {
        Ok(s) => {
            proof {
                law_text_survives_its_bytes(s@);
            }
            Ok(s)
        },
        Err(e) => Err(e),
    }
}

/// The bytes of a text are read as that text.
pub proof fn law_text_survives_its_bytes(s: Seq<char>)
    ensures
        utf8_read(encode_utf8(s)) == Ok::<Seq<char>, Seq<char>>(s),
{
    encode_utf8_valid_utf8(s);
    encode_utf8_decode_utf8(s);
}

/// Each byte is written as two of the digits `0` to `9` and `a` to `f`, the upper half
/// first, in the order of the bytes.
pub proof fn law_hex_is_two_digits_a_byte(bytes: Seq<u8>)
    ensures
        hex_of(bytes).len() == 2 * bytes.len(),
        forall|i: int|
            0 <= i < bytes.len() ==> {
                let b = #[trigger] bytes[i] as int;
                &&& hex_of(bytes)[2 * i] == "0123456789abcdef"@[b / 16]
                &&& hex_of(bytes)[2 * i + 1] == "0123456789abcdef"@[b % 16]
            },
    decreases bytes.len(),
{
    reveal_strlit("0123456789abcdef");
    assert forall|d: int| 0 <= d < 16 implies hex_digit(d) == #[trigger] "0123456789abcdef"@[d] by {}
    if bytes.len() > 0 {
        let t = bytes.drop_last();
        law_hex_is_two_digits_a_byte(t);
        let (was, now) = (hex_of(t), hex_of(bytes));
        assert forall|i: int| 0 <= i < bytes.len() implies {
            let b = #[trigger] bytes[i] as int;
            &&& now[2 * i] == "0123456789abcdef"@[b / 16]
            &&& now[2 * i + 1] == "0123456789abcdef"@[b % 16]
        } by {
            if i < t.len() {
                assert(t[i] == bytes[i]);
                assert(now[2 * i] == was[2 * i] && now[2 * i + 1] == was[2 * i + 1]);
            } else {
                let b = bytes[i] as int;
                assert(0 <= b / 16 < 16 && 0 <= b % 16 < 16);
                assert(hex_digit(b / 16) == "0123456789abcdef"@[b / 16]);
                assert(hex_digit(b % 16) == "0123456789abcdef"@[b % 16]);
            }
        }
    }
}

/// A stored value opens exactly where both its parts are hex and the seal holds, to what
/// was sealed.
pub proof fn law_what_opens(key: Seq<u8>, s: Sealed, what: Seq<char>)
    ensures
        opened(key, s, what) is Ok <==> hex_read(s.ciphertext@) is Ok && hex_read(s.nonce@) is Ok
            && gcm_opened(key, hex_read(s.nonce@)->Ok_0, hex_read(s.ciphertext@)->Ok_0) is Some,
        opened(key, s, what) matches Ok(p) ==> gcm_opened(
            key,
            hex_read(s.nonce@)->Ok_0,
            hex_read(s.ciphertext@)->Ok_0,
        ) == Some(p),
{
}

} // verus!
