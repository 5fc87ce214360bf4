//! Argon2id phrase hashing, verification, and AES-256-GCM encryption at rest.
//!
//! What is stored is always a ciphertext blob, never a plain salt or verifier.

use crate::crypto;
use crate::ids;
use crate::ids::Uuid;
use crate::text;
use vstd::prelude::*;
use vstd::slice::slice_to_vec;

verus! {

/// Argon2id configuration for phrase hashing.
#[derive(Debug, Clone, Copy)]
pub struct PhraseConfig {
    /// Memory cost in KiB.
    pub memory_cost_kib: u32,
    /// Number of iterations.
    pub iterations: u32,
    /// Degree of parallelism.
    pub parallelism: u32,
}

impl Default for PhraseConfig {
    fn default() -> (c: PhraseConfig)
        ensures
            c.memory_cost_kib == 65536,
            c.iterations == 3,
            c.parallelism == 1,
    {
        PhraseConfig { memory_cost_kib: 65536, iterations: 3, parallelism: 1 }
    }
}

/// Result of hashing a phrase with Argon2id.
#[derive(Debug)]
pub struct PhraseHash {
    /// Random salt (16 bytes).
    pub salt: Vec<u8>,
    /// Argon2id output.
    pub verifier: Vec<u8>,
}

/// A verifier for recovery IDs that do not exist, so that refusing them takes
/// as long as refusing a wrong phrase. It lives in memory only.
#[derive(Debug)]
pub struct DummyVerifier {
    /// Random salt used for the dummy hash.
    pub salt: Vec<u8>,
    /// Argon2id output for the dummy hash.
    pub verifier: Vec<u8>,
}

/// Errors from phrase hashing, verification, and encryption operations.
#[derive(Debug)]
pub enum PhraseError {
    HashingFailed(String),
    VerificationFailed,
    InvalidConfig(String),
    EncryptionFailed(String),
    DecryptionFailed(String),
}

impl PhraseError {
    /// The message of this error.
    pub open spec fn message_spec(&self) -> Seq<char> {
        match self {
            PhraseError::HashingFailed(e) => "phrase hashing failed: "@ + e@,
            PhraseError::VerificationFailed => "phrase verification failed"@,
            PhraseError::InvalidConfig(e) => "invalid phrase config: "@ + e@,
            PhraseError::EncryptionFailed(e) => "encryption failed: "@ + e@,
            PhraseError::DecryptionFailed(e) => "decryption failed: "@ + e@,
        }
    }

    /// The message of this error.
    pub fn message(&self) -> (s: String)
        ensures
            s@ == self.message_spec(),
    {
        match self {
            PhraseError::HashingFailed(e) => "phrase hashing failed: ".to_owned().concat(e.as_str()),
            PhraseError::VerificationFailed => "phrase verification failed".to_owned(),
            PhraseError::InvalidConfig(e) => "invalid phrase config: ".to_owned().concat(e.as_str()),
            PhraseError::EncryptionFailed(e) => "encryption failed: ".to_owned().concat(e.as_str()),
            PhraseError::DecryptionFailed(e) => "decryption failed: ".to_owned().concat(e.as_str()),
        }
    }
}

impl PhraseConfig {
    /// What is wrong with this configuration, if anything is.
    pub open spec fn objection(&self) -> Option<Seq<char>> {
        crypto::argon2_objection(self.memory_cost_kib, self.iterations, self.parallelism)
    }

    /// The number of lanes is one that can be multiplied by eight.
    pub open spec fn lanes_in_range(&self) -> bool {
        self.parallelism * 8 <= u32::MAX
    }

    /// The hash of a phrase for a user under this configuration.
    pub open spec fn hash(&self, phrase: Seq<u8>, user_id: Uuid, salt: Seq<u8>) -> Seq<u8> {
        crypto::argon2id(
            self.memory_cost_kib,
            self.iterations,
            self.parallelism,
            phrase,
            bound_salt(salt, user_id),
        )
    }
}

/// The salt that is bound to a user: two users with one phrase and one salt
/// are hashed differently.
pub open spec fn bound_salt(salt: Seq<u8>, user_id: Uuid) -> Seq<u8> {
    salt + ids::uuid_bytes(user_id.value)
}

/// Two different users never share a bound salt: a verifier made for one
/// cannot be the input of the hash of the other.
pub proof fn law_bound_salt_tells_users_apart(salt: Seq<u8>, a: Uuid, b: Uuid)
    requires
        bound_salt(salt, a) == bound_salt(salt, b),
    ensures
        a == b,
{
    let x = ids::uuid_bytes(a.value);
    let y = ids::uuid_bytes(b.value);
    assert forall|i: int| 0 <= i < 16 implies x[i] == y[i] by {
        assert(bound_salt(salt, a)[salt.len() + i] == x[i]);
        assert(bound_salt(salt, b)[salt.len() + i] == y[i]);
    }
    ids::lemma_bytes_determine(a.value, b.value);
}

/// Compares the bytes without leaving early on the first difference.
pub fn constant_time_eq(a: &[u8], b: &[u8]) -> (r: bool)
    ensures
        r == (a@ == b@),
{
    if a.len() != b.len() {
        return false;
    }
    let mut diff: u8 = 0;
    let mut i: usize = 0;
    while i < a.len()
        invariant
            i <= a@.len(),
            a@.len() == b@.len(),
            diff == 0 <==> (forall|j: int| 0 <= j < i ==> a@[j] == b@[j]),
        decreases a@.len() - i,
    {
        let x: u8 = a[i];
        let y: u8 = b[i];
        let next: u8 = diff | (x ^ y);
        assert(next == 0 <==> diff == 0 && x == y) by (bit_vector)
            requires
                next == diff | (x ^ y),
        ;
        diff = next;
        i = i + 1;
    }
    assert(diff == 0 ==> a@ =~= b@);
    diff == 0
}

fn build_bound_salt(random_salt: &[u8], user_id: &Uuid) -> (salt: Vec<u8>)
    ensures
        salt@ == bound_salt(random_salt@, *user_id),
{
    let mut salt = slice_to_vec(random_salt);
    let mut id = user_id.as_bytes();
    salt.append(&mut id);
    salt
}

/// The outcome of hashing `phrase` for `user_id` with a given salt.
pub open spec fn hash_outcome(
    phrase: Seq<u8>,
    user_id: Uuid,
    salt: Seq<u8>,
    config: PhraseConfig,
    r: Result<Vec<u8>, PhraseError>,
) -> bool {
    let refusal = crypto::argon2_input_objection(phrase, bound_salt(salt, user_id));
    match r {
        Ok(v) => config.objection() is None && refusal is None && v@ == config.hash(
            phrase,
            user_id,
            salt,
        ) && v@.len() == 32,
        Err(PhraseError::InvalidConfig(e)) => config.objection() == Some(e@),
        Err(PhraseError::HashingFailed(e)) => config.objection() is None && refusal == Some(e@),
        Err(_) => false,
    }
}

/// Hashes a phrase with the salt given, bound to the user.
pub fn hash_with_salt(
    phrase: &str,
    user_id: &Uuid,
    salt: &[u8],
    config: &PhraseConfig,
) -> (r: Result<Vec<u8>, PhraseError>)
    requires
        config.lanes_in_range(),
    ensures
        hash_outcome(text::utf8(phrase@), *user_id, salt@, *config, r),
{
    let refused = crypto::argon2_check_params(
        config.memory_cost_kib,
        config.iterations,
        config.parallelism,
    );
    if let Some(e) = refused {
        return Err(PhraseError::InvalidConfig(e));
    }
    let full_salt = build_bound_salt(salt, user_id);
    let mut phrase_bytes = slice_to_vec(phrase.as_bytes());
    let r = crypto::argon2_hash(
        config.memory_cost_kib,
        config.iterations,
        config.parallelism,
        phrase_bytes.as_slice(),
        full_salt.as_slice(),
    );
    crypto::wipe(&mut phrase_bytes);
    match r {
        Ok(hash) => Ok(hash),
        Err(e) => Err(PhraseError::HashingFailed(e)),
    }
}

/// Hashes a phrase with a fresh random salt of 16 bytes, bound to the user.
/// The salt returned is the random one alone.
pub fn hash_phrase(phrase: &str, user_id: &Uuid, config: &PhraseConfig) -> (r: Result<
    PhraseHash,
    PhraseError,
>)
    requires
        config.lanes_in_range(),
    ensures
        match r {
            Ok(h) => h.salt@.len() == 16 && hash_outcome(
                text::utf8(phrase@),
                *user_id,
                h.salt@,
                *config,
                Ok(h.verifier),
            ),
            Err(PhraseError::InvalidConfig(e)) => config.objection() == Some(e@),
            Err(PhraseError::HashingFailed(e)) => config.objection() is None
                && text::utf8(phrase@).len() > 0xffff_ffff && e@ == "password is too long"@,
            Err(_) => false,
        },
{
    let salt = crypto::random_bytes(16);
    match hash_with_salt(phrase, user_id, salt.as_slice(), config) {
        Ok(verifier) => Ok(PhraseHash { salt, verifier }),
        Err(e) => Err(e),
    }
}

/// Whether `phrase` is the one that `verifier` was made of, with this salt and
/// for this user.
pub fn verify_phrase(
    phrase: &str,
    user_id: &Uuid,
    salt: &[u8],
    verifier: &[u8],
    config: &PhraseConfig,
) -> (r: Result<bool, PhraseError>)
    requires
        config.lanes_in_range(),
    ensures
        match r {
            Ok(same) => config.objection() is None && crypto::argon2_input_objection(
                text::utf8(phrase@),
                bound_salt(salt@, *user_id),
            ) is None && same == (verifier@ == config.hash(text::utf8(phrase@), *user_id, salt@)),
            Err(PhraseError::InvalidConfig(e)) => config.objection() == Some(e@),
            Err(PhraseError::HashingFailed(e)) => config.objection() is None
                && crypto::argon2_input_objection(text::utf8(phrase@), bound_salt(salt@, *user_id)) == Some(
                e@,
            ),
            Err(_) => false,
        },
{
    match hash_with_salt(phrase, user_id, salt, config) {
        Ok(candidate) => Ok(constant_time_eq(candidate.as_slice(), verifier)),
        Err(e) => Err(e),
    }
}

/// A phrase that was hashed verifies against what was stored of it, for the user
/// that it was hashed for; another phrase or user does exactly where the hash is
/// the same.
pub proof fn law_hashed_phrase_verifies(
    phrase: Seq<u8>,
    user_id: Uuid,
    offered: Seq<u8>,
    by: Uuid,
    salt: Seq<u8>,
    verifier: Vec<u8>,
    config: PhraseConfig,
    checked: Result<Vec<u8>, PhraseError>,
)
    requires
        hash_outcome(phrase, user_id, salt, config, Ok(verifier)),
        hash_outcome(offered, by, salt, config, checked),
    ensures
        offered == phrase && by == user_id ==> checked is Ok && checked->Ok_0@ == verifier@,
        checked is Ok && checked->Ok_0@ == verifier@ ==> config.hash(offered, by, salt)
            == config.hash(phrase, user_id, salt),
{
}

/// The verifier, for the nil user, of the hexadecimal text of a secret.
pub fn dummy_verifier_from(secret: &[u8], salt: Vec<u8>, config: &PhraseConfig) -> (d: DummyVerifier)
    requires
        config.lanes_in_range(),
        config.objection() is None,
        secret@.len() == 32,
        salt@.len() == 16,
    ensures
        d.salt == salt,
        d.verifier@.len() == 32,
        d.verifier@ == config.hash(
            text::utf8(crypto::hex_text(secret@, 'a')),
            (Uuid { value: 0 }),
            salt@,
        ),
{
    let phrase = crypto::hex_lower(secret);
    proof {
        crypto::lemma_hex_is_ascii(secret@, 'a');
        vstd::utf8::is_ascii_chars_encode_utf8(phrase@);
    }
    let hashed = hash_with_salt(phrase.as_str(), &Uuid::nil(), salt.as_slice(), config);
    assert(hashed is Ok);
    match hashed {
        Ok(verifier) => DummyVerifier { salt, verifier },
        Err(_) => DummyVerifier { salt, verifier: Vec::new() },
    }
}

/// Makes a verifier of a random secret that nobody knows, for the nil user.
/// Its hash is that of the secret's hexadecimal text.
pub fn generate_dummy_verifier(config: &PhraseConfig) -> (d: DummyVerifier)
    requires
        config.lanes_in_range(),
        config.objection() is None,
    ensures
        d.salt@.len() == 16,
        d.verifier@.len() == 32,
        exists|secret: Seq<u8>|
            #![trigger crypto::hex_text(secret, 'a')]
            secret.len() == 32 && d.verifier@ == config.hash(
                text::utf8(crypto::hex_text(secret, 'a')),
                (Uuid { value: 0 }),
                d.salt@,
            ),
{
    let secret = crypto::random_bytes(32);
    let salt = crypto::random_bytes(16);
    dummy_verifier_from(secret.as_slice(), salt, config)
}

/// Checks a phrase against the dummy verifier, at the cost of a real check.
pub fn verify_dummy(phrase: &str, dummy: &DummyVerifier, config: &PhraseConfig) -> (r: Result<
    bool,
    PhraseError,
>)
    requires
        config.lanes_in_range(),
    ensures
        match r {
            Ok(same) => config.objection() is None && crypto::argon2_input_objection(
                text::utf8(phrase@),
                bound_salt(dummy.salt@, (Uuid { value: 0 })),
            ) is None && same == (dummy.verifier@ == config.hash(
                text::utf8(phrase@),
                (Uuid { value: 0 }),
                dummy.salt@,
            )),
            Err(PhraseError::InvalidConfig(e)) => config.objection() == Some(e@),
            Err(PhraseError::HashingFailed(e)) => config.objection() is None
                && crypto::argon2_input_objection(
                text::utf8(phrase@),
                bound_salt(dummy.salt@, (Uuid { value: 0 })),
            ) == Some(e@),
            Err(_) => false,
        },
{
    verify_phrase(
        phrase,
        &Uuid::nil(),
        dummy.salt.as_slice(),
        dummy.verifier.as_slice(),
        config,
    )
}

/// What a blob (nonce, then ciphertext and tag) holds under a key.
pub open spec fn blob_plaintext(blob: Seq<u8>, key: Seq<u8>) -> Option<Seq<u8>> {
    if key.len() == crypto::AES_256_KEY_LEN && blob.len() >= crypto::AES_GCM_NONCE_LEN + crypto::AES_GCM_TAG_LEN {
        crypto::aes_gcm_opened(
            key,
            blob.take(crypto::AES_GCM_NONCE_LEN as int),
            blob.skip(crypto::AES_GCM_NONCE_LEN as int),
        )
    } else {
        None
    }
}

/// The complaint about a key of `n` bytes.
pub open spec fn key_length_text(n: nat) -> Seq<char> {
    "key must be exactly 32 bytes, got "@ + text::decimal(n)
}

fn key_length_message(n: usize) -> (s: String)
    ensures
        s@ == key_length_text(n as nat),
{
    let mut s = "key must be exactly 32 bytes, got ".to_owned();
    text::push_decimal(&mut s, n as u64);
    s
}

/// Encrypts one blob under the nonce given: the nonce, then the ciphertext, then
/// the tag. Decrypting it gives the plaintext back.
pub fn encrypt_blob_with(nonce: Vec<u8>, plaintext: &[u8], encryption_key: &[u8]) -> (r: Result<
    Vec<u8>,
    PhraseError,
>)
    requires
        nonce@.len() == crypto::AES_GCM_NONCE_LEN,
    ensures
        match r {
            Ok(blob) => encryption_key@.len() == 32 && plaintext@.len() <= crypto::AES_GCM_MAX_LEN
                && blob@.len() == plaintext@.len() + 28 && blob@ == nonce@ + crypto::aes_gcm_sealed(
                encryption_key@,
                nonce@,
                plaintext@,
            ) && blob_plaintext(blob@, encryption_key@) == Some(plaintext@),
            Err(PhraseError::EncryptionFailed(e)) => if encryption_key@.len() != 32 {
                e@ == key_length_text(encryption_key@.len())
            } else {
                plaintext@.len() > crypto::AES_GCM_MAX_LEN && e@ == "aead::Error"@
            },
            Err(_) => false,
        },
{
    if encryption_key.len() != crypto::AES_256_KEY_LEN {
        return Err(PhraseError::EncryptionFailed(key_length_message(encryption_key.len())));
    }
    match crypto::aes_gcm_encrypt(encryption_key, nonce.as_slice(), plaintext) {
        Ok(sealed) => {
            let mut sealed = sealed;
            let ghost n = nonce@;
            let ghost c = sealed@;
            let mut out = nonce;
            out.append(&mut sealed);
            assert(out@.take(12) =~= n);
            assert(out@.skip(12) =~= c);
            Ok(out)
        },
        Err(e) => Err(PhraseError::EncryptionFailed(e)),
    }
}

/// Encrypts one blob under a fresh random nonce: the nonce, then the
/// ciphertext, then the tag. Decrypting it gives the plaintext back.
pub fn encrypt_blob(plaintext: &[u8], encryption_key: &[u8]) -> (r: Result<Vec<u8>, PhraseError>)
    ensures
        match r {
            Ok(blob) => encryption_key@.len() == 32 && plaintext@.len() <= crypto::AES_GCM_MAX_LEN
                && blob@.len() == plaintext@.len() + 28 && blob@.skip(12) == crypto::aes_gcm_sealed(
                encryption_key@,
                blob@.take(12),
                plaintext@,
            ) && blob_plaintext(blob@, encryption_key@) == Some(plaintext@),
            Err(PhraseError::EncryptionFailed(e)) => if encryption_key@.len() != 32 {
                e@ == key_length_text(encryption_key@.len())
            } else {
                plaintext@.len() > crypto::AES_GCM_MAX_LEN && e@ == "aead::Error"@
            },
            Err(_) => false,
        },
{
    let nonce = crypto::random_bytes(crypto::AES_GCM_NONCE_LEN);
    let ghost n = nonce@;
    let r = encrypt_blob_with(nonce, plaintext, encryption_key);
    proof {
        if r is Ok {
            assert(r->Ok_0@.take(12) =~= n);
            assert(r->Ok_0@.skip(12) =~= crypto::aes_gcm_sealed(encryption_key@, n, plaintext@));
        }
    }
    r
}

/// The complaint about a blob that holds nothing under a key.
pub open spec fn decrypt_complaint(blob: Seq<u8>, key: Seq<u8>) -> Seq<char> {
    if key.len() != 32 {
        key_length_text(key.len())
    } else if blob.len() < 28 {
        "ciphertext too short"@
    } else {
        "aead::Error"@
    }
}

/// The outcome of decrypting one blob.
pub open spec fn decrypt_outcome(
    blob: Seq<u8>,
    key: Seq<u8>,
    r: Result<Vec<u8>, PhraseError>,
) -> bool {
    match r {
        Ok(p) => blob_plaintext(blob, key) == Some(p@),
        Err(PhraseError::DecryptionFailed(e)) => blob_plaintext(blob, key) is None && e@
            == decrypt_complaint(blob, key),
        Err(_) => false,
    }
}

/// Decrypts one blob that `encrypt_blob` made.
pub fn decrypt_blob(encrypted: &[u8], encryption_key: &[u8]) -> (r: Result<Vec<u8>, PhraseError>)
    ensures
        decrypt_outcome(encrypted@, encryption_key@, r),
{
    if encryption_key.len() != crypto::AES_256_KEY_LEN {
        return Err(PhraseError::DecryptionFailed(key_length_message(encryption_key.len())));
    }
    if encrypted.len() < crypto::AES_GCM_NONCE_LEN + crypto::AES_GCM_TAG_LEN {
        return Err(PhraseError::DecryptionFailed("ciphertext too short".to_owned()));
    }
    let (nonce, sealed) = encrypted.split_at(crypto::AES_GCM_NONCE_LEN);
    assert(nonce@ =~= encrypted@.take(12));
    assert(sealed@ =~= encrypted@.skip(12));
    match crypto::aes_gcm_decrypt(encryption_key, nonce, sealed) {
        Ok(p) => Ok(p),
        Err(e) => Err(PhraseError::DecryptionFailed(e)),
    }
}

/// Encrypts salt and verifier for storage, each under a nonce of its own.
/// What is stored decrypts to what was given.
pub fn encrypt_phrase_data(salt: &[u8], verifier: &[u8], encryption_key: &[u8]) -> (r: Result<
    (Vec<u8>, Vec<u8>),
    PhraseError,
>)
    ensures
        match r {
            Ok((s, v)) => encryption_key@.len() == 32 && salt@.len() <= crypto::AES_GCM_MAX_LEN
                && verifier@.len() <= crypto::AES_GCM_MAX_LEN && s@.len() == salt@.len() + 28 && v@.len()
                == verifier@.len() + 28 && blob_plaintext(s@, encryption_key@) == Some(salt@)
                && blob_plaintext(v@, encryption_key@) == Some(verifier@),
            Err(PhraseError::EncryptionFailed(e)) => if encryption_key@.len() != 32 {
                e@ == key_length_text(encryption_key@.len())
            } else {
                (salt@.len() > crypto::AES_GCM_MAX_LEN || verifier@.len() > crypto::AES_GCM_MAX_LEN) && e@
                    == "aead::Error"@
            },
            Err(_) => false,
        },
{
    match encrypt_blob(salt, encryption_key) {
        Ok(encrypted_salt) => match encrypt_blob(verifier, encryption_key) {
            Ok(encrypted_verifier) => Ok((encrypted_salt, encrypted_verifier)),
            Err(e) => Err(e),
        },
        Err(e) => Err(e),
    }
}

/// Decrypts salt and verifier as they are stored. The salt's error comes first.
pub fn decrypt_phrase_data(
    encrypted_salt: &[u8],
    encrypted_verifier: &[u8],
    encryption_key: &[u8],
) -> (r: Result<(Vec<u8>, Vec<u8>), PhraseError>)
    ensures
        match r {
            Ok((s, v)) => blob_plaintext(encrypted_salt@, encryption_key@) == Some(s@)
                && blob_plaintext(encrypted_verifier@, encryption_key@) == Some(v@),
            Err(e) => if blob_plaintext(encrypted_salt@, encryption_key@) is None {
                decrypt_outcome(encrypted_salt@, encryption_key@, Err(e))
            } else {
                decrypt_outcome(encrypted_verifier@, encryption_key@, Err(e))
            },
        },
{
    match decrypt_blob(encrypted_salt, encryption_key) {
        Ok(salt) => match decrypt_blob(encrypted_verifier, encryption_key) {
            Ok(verifier) => Ok((salt, verifier)),
            Err(e) => Err(e),
        },
        Err(e) => Err(e),
    }
}

/// A phrase from its hashing to its check. What is kept is Argon2id of the phrase
/// with all the costs of the configuration, the salt being the random one followed
/// by the user. The check accepts the phrase for its user, and another phrase or
/// user exactly where this gives the same.
pub proof fn law_phrase_from_hashing_to_check(
    phrase: &str,
    user_id: &Uuid,
    config: &PhraseConfig,
    hashed: Result<PhraseHash, PhraseError>,
    offered: &str,
    by: &Uuid,
    salt: &[u8],
    verifier: &[u8],
    checked: Result<bool, PhraseError>,
)
    requires
        call_ensures(hash_phrase, (phrase, user_id, config), hashed),
        hashed is Ok,
        salt@ == hashed->Ok_0.salt@,
        verifier@ == hashed->Ok_0.verifier@,
        call_ensures(verify_phrase, (offered, by, salt, verifier, config), checked),
    ensures
        salt@.len() == 16,
        verifier@ == crypto::argon2id(
            config.memory_cost_kib,
            config.iterations,
            config.parallelism,
            text::utf8(phrase@),
            salt@ + ids::uuid_bytes(user_id.value),
        ),
        offered@ == phrase@ && *by == *user_id ==> checked == Ok::<bool, PhraseError>(true),
        checked is Ok ==> (checked->Ok_0 <==> verifier@ == crypto::argon2id(
            config.memory_cost_kib,
            config.iterations,
            config.parallelism,
            text::utf8(offered@),
            salt@ + ids::uuid_bytes(by.value),
        )),
        checked is Err <==> crypto::argon2_input_objection(
            text::utf8(offered@),
            salt@ + ids::uuid_bytes(by.value),
        ) is Some,
{
}

/// What is encrypted is decrypted again under the same key, the salt as the salt
/// and the verifier as the verifier: a blob is its nonce followed by what AES-GCM
/// seals under it. A key of another length than 32 bytes does neither.
pub proof fn law_phrase_data_comes_back(
    salt: &[u8],
    verifier: &[u8],
    key: &[u8],
    encrypted: Result<(Vec<u8>, Vec<u8>), PhraseError>,
    stored_salt: &[u8],
    stored_verifier: &[u8],
    decrypted: Result<(Vec<u8>, Vec<u8>), PhraseError>,
    blob: &[u8],
    opened: Result<Vec<u8>, PhraseError>,
)
    requires
        call_ensures(encrypt_phrase_data, (salt, verifier, key), encrypted),
        encrypted is Ok ==> stored_salt@ == (encrypted->Ok_0).0@ && stored_verifier@ == (
        encrypted->Ok_0).1@,
        call_ensures(
            decrypt_phrase_data,
            (stored_salt, stored_verifier, key),
            decrypted,
        ),
        call_ensures(decrypt_blob, (blob, key), opened),
    ensures
        key@.len() != 32 ==> encrypted is Err && opened is Err && decrypted is Err,
        key@.len() == 32 && salt@.len() <= 0xf_ffff_ffff && verifier@.len() <= 0xf_ffff_ffff
            ==> encrypted is Ok,
        encrypted is Ok ==> {
            &&& decrypted is Ok
            &&& (decrypted->Ok_0).0@ == salt@
            &&& (decrypted->Ok_0).1@ == verifier@
            &&& crypto::aes_gcm_opened(key@, stored_salt@.take(12), stored_salt@.skip(12)) == Some(
                salt@,
            )
        },
        opened is Ok <==> key@.len() == 32 && blob@.len() >= 28 && crypto::aes_gcm_opened(
            key@,
            blob@.take(12),
            blob@.skip(12),
        ) is Some,
        opened is Ok ==> crypto::aes_gcm_opened(key@, blob@.take(12), blob@.skip(12)) == Some(
            opened->Ok_0@,
        ),
{
}

/// The bytes are compared as a whole.
pub proof fn law_equal_bytes(a: &[u8], b: &[u8], r: bool)
    requires
        call_ensures(constant_time_eq, (a, b), r),
    ensures
        r <==> a@.len() == b@.len() && forall|i: int|
            0 <= i < a@.len() ==> #[trigger] a@[i] == b@[i],
{
    if a@.len() == b@.len() && (forall|i: int| 0 <= i < a@.len() ==> #[trigger] a@[i] == b@[i]) {
        assert(a@ =~= b@);
    }
}

/// Each error is told in its own words.
pub proof fn law_messages_say_what_is_wrong(e: &PhraseError, s: String)
    requires
        call_ensures(PhraseError::message, (e,), s),
    ensures
        *e is HashingFailed ==> s@ == "phrase hashing failed: "@ + e->HashingFailed_0@,
        *e is VerificationFailed ==> s@ == "phrase verification failed"@,
        *e is InvalidConfig ==> s@ == "invalid phrase config: "@ + e->InvalidConfig_0@,
        *e is EncryptionFailed ==> s@ == "encryption failed: "@ + e->EncryptionFailed_0@,
        *e is DecryptionFailed ==> s@ == "decryption failed: "@ + e->DecryptionFailed_0@,
{
}

/// A phrase is hashed with Argon2id under the costs of the configuration, with the
/// salt and the bytes of the user's id behind each other.
pub proof fn law_phrases_are_hashed_for_their_users(
    phrase: &str,
    user_id: &Uuid,
    salt: &[u8],
    config: &PhraseConfig,
    r: Result<Vec<u8>, PhraseError>,
)
    requires
        call_ensures(hash_with_salt, (phrase, user_id, salt, config), r),
    ensures
        r is Ok ==> r->Ok_0@ == crypto::argon2id(
            config.memory_cost_kib,
            config.iterations,
            config.parallelism,
            text::utf8(phrase@),
            salt@ + ids::uuid_bytes(user_id.value),
        ),
        crypto::argon2_objection(config.memory_cost_kib, config.iterations, config.parallelism)
            is None && 0 < text::utf8(phrase@).len() <= 0xffff_ffff && salt@.len() <= 0xffff
            ==> r is Ok,
        r is Err ==> r->Err_0 is InvalidConfig || r->Err_0 is HashingFailed,
{
}

/// By default a hash takes 64 MiB, three passes and one lane.
pub proof fn law_default_costs(c: PhraseConfig)
    requires
        call_ensures(PhraseConfig::default, (), c),
    ensures
        c.memory_cost_kib == 64 * 1024,
        c.iterations == 3,
        c.parallelism == 1,
{
}

/// What is encrypted is the nonce and the sealed text behind it, and a key that has
/// not 32 bytes is told by its length. Decrypting gives back what was encrypted.
pub proof fn law_blobs_are_opened_with_their_key(
    nonce: Vec<u8>,
    plaintext: &[u8],
    key: &[u8],
    r: Result<Vec<u8>, PhraseError>,
    blob: &[u8],
    back: Result<Vec<u8>, PhraseError>,
    short: &[u8],
    of_short: Result<Vec<u8>, PhraseError>,
)
    requires
        nonce@.len() == 12,
        call_ensures(encrypt_blob_with, (nonce, plaintext, key), r),
        r is Ok ==> blob@ == r->Ok_0@,
        call_ensures(decrypt_blob, (blob, key), back),
        call_ensures(decrypt_blob, (short, key), of_short),
        short@.len() < 28,
    ensures
        r is Ok ==> key@.len() == 32 && r->Ok_0@ == nonce@ + crypto::aes_gcm_sealed(
            key@,
            nonce@,
            plaintext@,
        ),
        r is Ok ==> back is Ok && back->Ok_0@ == plaintext@,
        key@.len() != 32 ==> {
            let told = "key must be exactly 32 bytes, got "@ + text::decimal(key@.len());
            &&& r is Err && r->Err_0 is EncryptionFailed && r->Err_0->EncryptionFailed_0@ == told
            &&& back is Err && back->Err_0 is DecryptionFailed && back->Err_0->DecryptionFailed_0@
                == told
        },
        key@.len() == 32 ==> of_short is Err && of_short->Err_0 is DecryptionFailed
            && of_short->Err_0->DecryptionFailed_0@ == "ciphertext too short"@,
        key@.len() == 32 && blob@.len() >= 28 && back is Err ==> back->Err_0 is DecryptionFailed
            && back->Err_0->DecryptionFailed_0@ == "aead::Error"@,
{
}

} // verus!
