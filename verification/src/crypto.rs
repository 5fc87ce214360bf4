//! The cryptographic and encoding functions that the library calls, each with
//! what is believed of it.

use aes_gcm::aead::Aead;
use base64::Engine;
use hmac::Mac;
use rand::Rng;
use rand::RngCore;
use vstd::prelude::*;
use zeroize::Zeroize;

verus! {

/// Bytes in an HMAC-SHA256 tag.
pub const HMAC_LEN: usize = 32;

/// Bytes in an AES-256 key.
pub const AES_256_KEY_LEN: usize = 32;

/// Bytes in an AES-GCM nonce.
pub const AES_GCM_NONCE_LEN: usize = 12;

/// Bytes in an AES-GCM tag.
pub const AES_GCM_TAG_LEN: usize = 16;

/// The longest message that AES-GCM takes: 2^36 bytes.
pub const AES_GCM_MAX_LEN: u64 = 0x10_0000_0000;

/// The HMAC-SHA256 tag of a message under a key.
pub uninterp spec fn hmac_sha256(key: Seq<u8>, message: Seq<u8>) -> Seq<u8>;

/// `Hmac::<Sha256>` of the `hmac` and `sha2` crates, through `new_from_slice`
/// (which takes a key of any length), `update` and `finalize`. The result is
/// named, and it is 32 bytes long.
#[verifier::external_body]
pub(crate) fn hmac_tag(key: &[u8], message: &[u8]) -> (tag: Vec<u8>)
    ensures
        tag@ == hmac_sha256(key@, message@),
        tag@.len() == HMAC_LEN,
{
    let mut mac = hmac::Hmac::<sha2::Sha256>::new_from_slice(key).expect("HMAC takes any key");
    mac.update(message);
    mac.finalize().into_bytes().to_vec()
}

/// `Mac::verify_slice` of the `hmac` crate on an `Hmac::<Sha256>`: it succeeds
/// exactly where the tag given is the tag of the message.
#[verifier::external_body]
pub(crate) fn hmac_verify(key: &[u8], message: &[u8], tag: &[u8]) -> (ok: bool)
    ensures
        ok == (tag@ == hmac_sha256(key@, message@)),
{
    let mut mac = hmac::Hmac::<sha2::Sha256>::new_from_slice(key).expect("HMAC takes any key");
    mac.update(message);
    mac.verify_slice(tag).is_ok()
}

/// `RngCore::fill_bytes` of the `rand` crate on its thread-local generator.
/// Only the number of bytes is known; their values are left to chance.
#[verifier::external_body]
pub(crate) fn random_bytes(n: usize) -> (bytes: Vec<u8>)
    ensures
        bytes@.len() == n,
{
    let mut bytes = vec![0u8; n];
    rand::thread_rng().fill_bytes(&mut bytes);
    bytes
}

/// `Rng::gen_range` of the `rand` crate on `0..bound`: some number below
/// `bound`. Which one is left to chance.
#[verifier::external_body]
pub(crate) fn random_below(bound: usize) -> (n: usize)
    requires
        bound > 0,
    ensures
        n < bound,
{
    rand::thread_rng().gen_range(0..bound)
}

/// The base64 character of a number below 64. The URL-safe alphabet has its own
/// last two.
pub open spec fn base64_char(n: int, url_safe: bool) -> char {
    if n < 26 {
        (65 + n) as char
    } else if n < 52 {
        (97 + n - 26) as char
    } else if n < 62 {
        (48 + n - 52) as char
    } else if n == 62 {
        if url_safe {
            '-'
        } else {
            '+'
        }
    } else if url_safe {
        '_'
    } else {
        '/'
    }
}

/// The four characters of three bytes.
pub open spec fn base64_group(a: u8, b: u8, c: u8, url_safe: bool) -> Seq<char> {
    let n = a as int * 65536 + b as int * 256 + c as int;
    seq![
        base64_char(n / 262144, url_safe),
        base64_char(n / 4096 % 64, url_safe),
        base64_char(n / 64 % 64, url_safe),
        base64_char(n % 64, url_safe),
    ]
}

/// The base64 text of `bytes`: four characters for each three of them, and at the
/// end two for one byte or three for two, perhaps filled up with `=`.
pub open spec fn base64_text(bytes: Seq<u8>, url_safe: bool, padded: bool) -> Seq<char>
    decreases bytes.len(),
{
    let fill = if padded {
        "="@
    } else {
        Seq::empty()
    };
    if bytes.len() == 0 {
        Seq::empty()
    } else if bytes.len() == 1 {
        base64_group(bytes[0], 0, 0, url_safe).take(2) + fill + fill
    } else if bytes.len() == 2 {
        base64_group(bytes[0], bytes[1], 0, url_safe).take(3) + fill
    } else {
        base64_group(bytes[0], bytes[1], bytes[2], url_safe) + base64_text(
            bytes.skip(3),
            url_safe,
            padded,
        )
    }
}

/// The base64 text of `bytes` in the URL-safe alphabet, without padding.
pub open spec fn base64_url(bytes: Seq<u8>) -> Seq<char> {
    base64_text(bytes, true, false)
}

/// The base64 text of `bytes` in the standard alphabet, with padding.
pub open spec fn base64_standard(bytes: Seq<u8>) -> Seq<char> {
    base64_text(bytes, false, true)
}

/// Whether a text is the standard base64 text of some bytes.
pub open spec fn is_base64_standard(text: Seq<char>) -> bool {
    exists|bytes: Seq<u8>| #[trigger] base64_standard(bytes) == text
}

/// Whether `c` belongs to the URL-safe base64 alphabet.
pub open spec fn base64_url_char(c: char) -> bool {
    'A' <= c <= 'Z' || 'a' <= c <= 'z' || '0' <= c <= '9' || c == '-' || c == '_'
}

/// URL-safe text holds four characters for each three bytes, rounded up, all of
/// them from the URL-safe alphabet.
pub proof fn lemma_base64_url(bytes: Seq<u8>)
    ensures
        base64_url(bytes).len() == (bytes.len() * 4 + 2) / 3,
        forall|i: int|
            0 <= i < base64_url(bytes).len() ==> base64_url_char(#[trigger] base64_url(bytes)[i]),
    decreases bytes.len(),
{
    if bytes.len() >= 3 {
        lemma_base64_url(bytes.skip(3));
        let group = base64_group(bytes[0], bytes[1], bytes[2], true);
        let rest = base64_url(bytes.skip(3));
        assert(base64_url(bytes) == group + rest);
        assert forall|i: int| 0 <= i < base64_url(bytes).len() implies base64_url_char(
            #[trigger] base64_url(bytes)[i],
        ) by {
            if i >= 4 {
                assert(base64_url(bytes)[i] == rest[i - 4]);
            }
        }
    }
}

/// Different bytes have different standard texts, so that a text can be read in
/// one way only.
pub proof fn law_base64_reads_one_way(a: Seq<u8>, b: Seq<u8>)
    requires
        base64_standard(a) == base64_standard(b),
    ensures
        a == b,
    decreases a.len(),
{
    let x = base64_standard(a);
    let y = base64_standard(b);
    if a.len() > 0 && b.len() > 0 {
        let (a0, a1, a2) = padded_group(a);
        let (b0, b1, b2) = padded_group(b);
        lemma_group_start(a);
        lemma_group_start(b);
        assert(x[0] == y[0] && x[1] == y[1] && x[2] == y[2] && x[3] == y[3]);
        lemma_group_reads_one_way(a0, a1, a2, b0, b1, b2);
        if a.len() >= 3 {
            assert(x.skip(4) =~= base64_standard(a.skip(3)));
            assert(y.skip(4) =~= base64_standard(b.skip(3)));
            law_base64_reads_one_way(a.skip(3), b.skip(3));
            assert(a =~= seq![a0, a1, a2] + a.skip(3));
            assert(b =~= seq![b0, b1, b2] + b.skip(3));
        } else {
            assert(a =~= b);
        }
    } else {
        if a.len() > 0 {
            lemma_group_start(a);
        }
        if b.len() > 0 {
            lemma_group_start(b);
        }
        assert(x.len() == y.len());
        assert(a =~= b);
    }
}

spec fn padded_group(bytes: Seq<u8>) -> (u8, u8, u8) {
    (
        bytes[0],
        if bytes.len() > 1 {
            bytes[1]
        } else {
            0
        },
        if bytes.len() > 2 {
            bytes[2]
        } else {
            0
        },
    )
}

proof fn lemma_group_start(bytes: Seq<u8>)
    requires
        bytes.len() > 0,
    ensures
        ({
            let (a, b, c) = padded_group(bytes);
            let group = base64_group(a, b, c, false);
            let text = base64_standard(bytes);
            &&& text.len() >= 4
            &&& text[0] == group[0] && text[1] == group[1]
            &&& text[2] == (if bytes.len() > 1 {
                group[2]
            } else {
                '='
            })
            &&& text[3] == (if bytes.len() > 2 {
                group[3]
            } else {
                '='
            })
            &&& group[2] != '=' && group[3] != '='
            &&& bytes.len() == 1 ==> group[2] == 'A'
            &&& bytes.len() < 3 ==> group[3] == 'A'
            &&& bytes.len() >= 3 ==> text == group + base64_standard(bytes.skip(3))
        }),
{
    reveal_strlit("=");
    let (a, b, c) = padded_group(bytes);
    let group = base64_group(a, b, c, false);
    let n = a as int * 65536 + b as int * 256 + c as int;
    lemma_no_fill(n / 64 % 64);
    lemma_no_fill(n % 64);
    assert(group[2] == base64_char(n / 64 % 64, false));
    assert(group[3] == base64_char(n % 64, false));
    if bytes.len() == 1 {
        assert(n / 64 == a as int * 1024);
        assert(n / 64 % 64 == 0);
        assert(n % 64 == 0);
        assert(base64_standard(bytes) =~= seq![group[0], group[1], '=', '=']);
    } else if bytes.len() == 2 {
        assert(n % 64 == 0);
        assert(base64_standard(bytes) =~= seq![group[0], group[1], group[2], '=']);
    }
}

proof fn lemma_no_fill(n: int)
    requires
        0 <= n < 64,
    ensures
        base64_char(n, false) != '=',
        n == 0 ==> base64_char(n, false) == 'A',
{
}

proof fn lemma_char_reads_one_way(n: int, m: int)
    requires
        0 <= n < 64,
        0 <= m < 64,
        base64_char(n, false) == base64_char(m, false),
    ensures
        n == m,
{
}

proof fn lemma_sixes(n: int)
    requires
        0 <= n < 16777216,
    ensures
        n == n / 262144 * 262144 + n / 4096 % 64 * 4096 + n / 64 % 64 * 64 + n % 64,
        0 <= n / 262144 < 64,
{
    assert(n / 64 / 64 == n / 4096);
    assert(n / 4096 / 64 == n / 262144);
}

proof fn lemma_group_reads_one_way(a0: u8, a1: u8, a2: u8, b0: u8, b1: u8, b2: u8)
    requires
        forall|i: int|
            0 <= i < 4 ==> (#[trigger] base64_group(a0, a1, a2, false)[i]) == base64_group(
                b0,
                b1,
                b2,
                false,
            )[i],
    ensures
        a0 == b0 && a1 == b1 && a2 == b2,
{
    let x = base64_group(a0, a1, a2, false);
    let y = base64_group(b0, b1, b2, false);
    let n = a0 as int * 65536 + a1 as int * 256 + a2 as int;
    let m = b0 as int * 65536 + b1 as int * 256 + b2 as int;
    assert(x[0] == y[0] && x[1] == y[1] && x[2] == y[2] && x[3] == y[3]);
    lemma_sixes(n);
    lemma_sixes(m);
    lemma_char_reads_one_way(n / 262144, m / 262144);
    lemma_char_reads_one_way(n / 4096 % 64, m / 4096 % 64);
    lemma_char_reads_one_way(n / 64 % 64, m / 64 % 64);
    lemma_char_reads_one_way(n % 64, m % 64);
    lemma_eights(a0, a1, a2, b0, b1, b2);
}

proof fn lemma_eights(a0: u8, a1: u8, a2: u8, b0: u8, b1: u8, b2: u8)
    requires
        a0 * 65536 + a1 * 256 + a2 == b0 * 65536 + b1 * 256 + b2,
    ensures
        a0 == b0 && a1 == b1 && a2 == b2,
{
}

/// `Engine::encode` of the `base64` crate with `URL_SAFE_NO_PAD`: the base64 text
/// in the URL-safe alphabet, without padding.
#[verifier::external_body]
pub(crate) fn base64_url_encode(bytes: &[u8]) -> (text: String)
    ensures
        text@ == base64_url(bytes@),
{
    base64::engine::general_purpose::URL_SAFE_NO_PAD.encode(bytes)
}

/// `Engine::encode` of the `base64` crate with `STANDARD`: the base64 text in the
/// standard alphabet, with padding.
#[verifier::external_body]
pub(crate) fn base64_standard_encode(bytes: &[u8]) -> (text: String)
    ensures
        text@ == base64_standard(bytes@),
{
    base64::engine::general_purpose::STANDARD.encode(bytes)
}

/// `Engine::decode` of the `base64` crate with `STANDARD`: the bytes whose base64
/// text, with its padding and no stray bits, the text is. An error stands for a
/// text that is no such text.
#[verifier::external_body]
pub(crate) fn base64_standard_decode(text: &str) -> (bytes: Option<Vec<u8>>)
    ensures
        match bytes {
            Some(b) => base64_standard(b@) == text@,
            None => !is_base64_standard(text@),
        },
{
    base64::engine::general_purpose::STANDARD.decode(text).ok()
}

/// The hexadecimal digit of `n`, with `ten` for the digit of value ten.
pub open spec fn hex_digit(n: int, ten: char) -> char {
    if n < 10 {
        (48 + n) as char
    } else {
        (ten as int + n - 10) as char
    }
}

/// The hexadecimal text of `bytes`, two digits for each, the high one first.
pub open spec fn hex_text(bytes: Seq<u8>, ten: char) -> Seq<char> {
    Seq::new(
        bytes.len() * 2,
        |i: int|
            if i % 2 == 0 {
                hex_digit(bytes[i / 2] as int / 16, ten)
            } else {
                hex_digit(bytes[i / 2] as int % 16, ten)
            },
    )
}

/// Hexadecimal text is ASCII.
pub proof fn lemma_hex_is_ascii(bytes: Seq<u8>, ten: char)
    requires
        ten == 'a' || ten == 'A',
    ensures
        vstd::utf8::is_ascii_chars(hex_text(bytes, ten)),
{
    assert forall|i: int| 0 <= i < hex_text(bytes, ten).len() implies 0 <= #[trigger] hex_text(
        bytes,
        ten,
    )[i] < 128 by {}
}

/// `hex::encode`: two lower-case digits for each byte.
#[verifier::external_body]
pub(crate) fn hex_lower(bytes: &[u8]) -> (text: String)
    ensures
        text@ == hex_text(bytes@, 'a'),
{
    hex::encode(bytes)
}

/// `hex::encode_upper`: two upper-case digits for each byte.
#[verifier::external_body]
pub(crate) fn hex_upper(bytes: &[u8]) -> (text: String)
    ensures
        text@ == hex_text(bytes@, 'A'),
{
    hex::encode_upper(bytes)
}

/// `Zeroize::zeroize` of the `zeroize` crate on a vector: it overwrites the
/// elements and leaves the vector empty. That the memory is overwritten is not
/// stated.
#[verifier::external_body]
pub(crate) fn wipe(bytes: &mut Vec<u8>)
    ensures
        final(bytes)@.len() == 0,
{
    bytes.zeroize();
}

/// The AES-256-GCM ciphertext, with its tag behind it, of a message.
pub uninterp spec fn aes_gcm_sealed(key: Seq<u8>, nonce: Seq<u8>, message: Seq<u8>) -> Seq<u8>;

/// The message that a ciphertext and tag hold, where the tag is right.
pub uninterp spec fn aes_gcm_opened(
    key: Seq<u8>,
    nonce: Seq<u8>,
    sealed: Seq<u8>,
) -> Option<Seq<u8>>;

/// `Aead::encrypt` of the `aes-gcm` crate on `Aes256Gcm`, without associated
/// data. It fails, with the text "aead::Error", exactly on a message of more
/// than 2^36 bytes. What it returns is named, is 16 bytes longer than the
/// message, and opens to the message under the same key and nonce.
#[verifier::external_body]
pub(crate) fn aes_gcm_encrypt(key: &[u8], nonce: &[u8], message: &[u8]) -> (r: Result<
    Vec<u8>,
    String,
>)
    requires
        key@.len() == AES_256_KEY_LEN,
        nonce@.len() == AES_GCM_NONCE_LEN,
    ensures
        r is Err <==> message@.len() > AES_GCM_MAX_LEN,
        r matches Err(e) ==> e@ == "aead::Error"@,
        r matches Ok(sealed) ==> {
            &&& sealed@ == aes_gcm_sealed(key@, nonce@, message@)
            &&& sealed@.len() == message@.len() + AES_GCM_TAG_LEN
            &&& aes_gcm_opened(key@, nonce@, sealed@) == Some(message@)
        },
{
    let cipher = <aes_gcm::Aes256Gcm as aes_gcm::KeyInit>::new_from_slice(key).expect("32 bytes");
    cipher.encrypt(aes_gcm::Nonce::from_slice(nonce), message).map_err(|e| e.to_string())
}

/// `Aead::decrypt` of the `aes-gcm` crate on `Aes256Gcm`, without associated
/// data. The message is named and 16 bytes shorter than the ciphertext with
/// its tag; where there is none, the error text is "aead::Error".
#[verifier::external_body]
pub(crate) fn aes_gcm_decrypt(key: &[u8], nonce: &[u8], sealed: &[u8]) -> (r: Result<
    Vec<u8>,
    String,
>)
    requires
        key@.len() == AES_256_KEY_LEN,
        nonce@.len() == AES_GCM_NONCE_LEN,
    ensures
        r matches Ok(message) ==> {
            &&& aes_gcm_opened(key@, nonce@, sealed@) == Some(message@)
            &&& message@.len() + AES_GCM_TAG_LEN == sealed@.len()
        },
        r matches Err(e) ==> aes_gcm_opened(key@, nonce@, sealed@) is None && e@
            == "aead::Error"@,
{
    let cipher = <aes_gcm::Aes256Gcm as aes_gcm::KeyInit>::new_from_slice(key).expect("32 bytes");
    cipher.decrypt(aes_gcm::Nonce::from_slice(nonce), sealed).map_err(|e| e.to_string())
}

/// What `argon2::Params::new` objects to in a memory cost, a time cost and a
/// number of lanes, for 32 bytes of output; the first objection counts.
pub open spec fn argon2_objection(memory: u32, time: u32, lanes: u32) -> Option<Seq<char>> {
    if memory < 8 || memory < lanes * 8 {
        Some("memory cost is too small"@)
    } else if time < 1 {
        Some("time cost is too small"@)
    } else if lanes < 1 {
        Some("not enough threads"@)
    } else if lanes > 0xff_ffff {
        Some("too many threads"@)
    } else {
        None
    }
}

/// `argon2::Params::new` with an output length of 32: the text of its error,
/// where it has one. It multiplies the number of lanes by eight without a check.
#[verifier::external_body]
pub(crate) fn argon2_check_params(memory: u32, time: u32, lanes: u32) -> (r: Option<String>)
    requires
        lanes * 8 <= u32::MAX,
    ensures
        r matches Some(e) ==> argon2_objection(memory, time, lanes) == Some(e@),
        r is None ==> argon2_objection(memory, time, lanes) is None,
{
    argon2::Params::new(memory, time, lanes, Some(32)).err().map(|e| e.to_string())
}

/// The 32-byte Argon2id (version 0x13) hash of a password with a salt.
pub uninterp spec fn argon2id(
    memory: u32,
    time: u32,
    lanes: u32,
    password: Seq<u8>,
    salt: Seq<u8>,
) -> Seq<u8>;

/// What `Argon2::hash_password_into` objects to in a password and a salt.
pub open spec fn argon2_input_objection(password: Seq<u8>, salt: Seq<u8>) -> Option<Seq<char>> {
    if password.len() > 0xffff_ffff {
        Some("password is too long"@)
    } else if salt.len() < 8 {
        Some("salt is too short"@)
    } else if salt.len() > 0xffff_ffff {
        Some("salt is too long"@)
    } else {
        None
    }
}

/// `Argon2::hash_password_into` of the `argon2` crate for Argon2id, version
/// 0x13 and 32 bytes of output, on parameters that are valid. The hash is
/// named; the error texts are those of the lengths it objects to.
#[verifier::external_body]
pub(crate) fn argon2_hash(memory: u32, time: u32, lanes: u32, password: &[u8], salt: &[u8]) -> (r:
    Result<Vec<u8>, String>)
    requires
        lanes * 8 <= u32::MAX,
        argon2_objection(memory, time, lanes) is None,
    ensures
        r matches Ok(hash) ==> {
            &&& argon2_input_objection(password@, salt@) is None
            &&& hash@ == argon2id(memory, time, lanes, password@, salt@)
            &&& hash@.len() == 32
        },
        r matches Err(e) ==> argon2_input_objection(password@, salt@) == Some(e@),
{
    let params = argon2::Params::new(memory, time, lanes, Some(32)).expect("valid parameters");
    let hasher = argon2::Argon2::new(argon2::Algorithm::Argon2id, argon2::Version::V0x13, params);
    let mut hash = vec![0u8; 32];
    hasher.hash_password_into(password, salt, &mut hash).map_err(|e| e.to_string())?;
    Ok(hash)
}

} // verus!
