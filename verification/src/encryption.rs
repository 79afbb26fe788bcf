//! Data encryption: per-purpose keys derived from a master key, sealed messages
//! framed with their nonce, password hashing, and password strength rules.
use vstd::prelude::*;
use aes_gcm::aead::{Aead, KeyInit};
use argon2::password_hash::{PasswordHasher, PasswordVerifier};
use crate::security::{base64_encode, base64_standard, base64_standard_decoded, char_is_alphanumeric, is_alphanumeric_char, system_random_bytes};
use crate::string_map::StringMap;
use crate::text::{concat2, decimal, decimal_string};
use crate::updates::{sha256, sha256_digest};
use crate::text::{utf8_error_text, utf8_text};
use vstd::utf8::{decode_utf8, encode_utf8, valid_utf8};
use vstd::string::StringSliceAdditionalSpecFns;

verus! {

/// Settings of the encryption manager.
#[derive(Debug, Clone)]
pub struct EncryptionConfig {
    pub kdf_algorithm: String,
    pub cipher_algorithm: String,
    /// Bytes of a derived key.
    pub key_length: usize,
    pub salt_length: usize,
    pub work_factor: u32,
    pub parallelism: u32,
    pub memory_size_kb: u32,
}

/// The default encryption settings: Argon2id and AES-256-GCM, 32-byte keys and
/// salts, work factor 3, four lanes, 64 MiB.
pub open spec fn is_default_encryption_config(c: EncryptionConfig) -> bool {
    &&& c.kdf_algorithm@ == "argon2id"@
    &&& c.cipher_algorithm@ == "aes-256-gcm"@
    &&& c.key_length == 32
    &&& c.salt_length == 32
    &&& c.work_factor == 3
    &&& c.parallelism == 4
    &&& c.memory_size_kb == 65536
}

impl EncryptionConfig {
    /// Argon2id and AES-256-GCM, 32-byte keys and salts, work factor 3, four
    /// lanes, 64 MiB.
    pub fn default() -> (c: EncryptionConfig)
        ensures
            is_default_encryption_config(c),
    {
        EncryptionConfig {
            kdf_algorithm: String::from_str("argon2id"),
            cipher_algorithm: String::from_str("aes-256-gcm"),
            key_length: 32,
            salt_length: 32,
            work_factor: 3,
            parallelism: 4,
            memory_size_kb: 65536,
        }
    }
}

/// HKDF-SHA256 output key material: 32 bytes from salt, input key material and info.
pub uninterp spec fn hkdf_sha256(salt: Seq<u8>, ikm: Seq<u8>, info: Seq<u8>) -> Seq<u8>;

/// `ring::hkdf` with `HKDF_SHA256`: extract with the salt, expand with the info to
/// the algorithm's 32 bytes, and fill `out_len` bytes; filling fails unless
/// `out_len` is 32.
#[verifier::external_body]
fn hkdf_sha256_fill(salt: &[u8], ikm: &[u8], info: &[u8], out_len: usize) -> (r: Option<Vec<u8>>)
    ensures
        match r {
            Some(v) => out_len == 32 && v@ == hkdf_sha256(salt@, ikm@, info@) && v@.len() == 32,
            None => out_len != 32,
        },
{
    let mut out = vec![0u8; out_len];
    let prk = ring::hkdf::Salt::new(ring::hkdf::HKDF_SHA256, salt).extract(ikm);
    let infos = [info];
    let okm = prk.expand(&infos, ring::hkdf::HKDF_SHA256).ok()?;
    okm.fill(&mut out).ok()?;
    Some(out)
}

/// AES-256-GCM sealing: ciphertext and 16-byte tag of a plaintext under a key and
/// a 12-byte nonce, with no associated data.
pub uninterp spec fn aes_gcm_seal(key: Seq<u8>, nonce: Seq<u8>, plaintext: Seq<u8>) -> Seq<u8>;

/// AES-256-GCM opening: the plaintext of an authentic sealed message.
pub uninterp spec fn aes_gcm_open(key: Seq<u8>, nonce: Seq<u8>, ciphertext: Seq<u8>) -> Option<Seq<u8>>;

/// `Aes256Gcm::encrypt`: seals plaintexts of up to 2^36 bytes; what it seals
/// opens to the plaintext under the same key and nonce.
#[verifier::external_body]
fn aes_gcm_encrypt(key: &[u8], nonce: &[u8], plaintext: &[u8]) -> (r: Option<Vec<u8>>)
    requires
        key@.len() == 32,
        nonce@.len() == 12,
    ensures
        match r {
            Some(c) => plaintext@.len() <= 68719476736 && c@ == aes_gcm_seal(key@, nonce@, plaintext@)
                && aes_gcm_open(key@, nonce@, c@) == Some(plaintext@),
            None => plaintext@.len() > 68719476736,
        },
{
    let cipher = aes_gcm::Aes256Gcm::new(aes_gcm::Key::<aes_gcm::Aes256Gcm>::from_slice(key));
    cipher.encrypt(aes_gcm::Nonce::from_slice(nonce), plaintext).ok()
}

/// `Aes256Gcm::decrypt`: the plaintext of an authentic ciphertext.
#[verifier::external_body]
fn aes_gcm_decrypt(key: &[u8], nonce: &[u8], ciphertext: &[u8]) -> (r: Option<Vec<u8>>)
    requires
        key@.len() == 32,
        nonce@.len() == 12,
    ensures
        match r {
            Some(v) => aes_gcm_open(key@, nonce@, ciphertext@) == Some(v@),
            None => aes_gcm_open(key@, nonce@, ciphertext@) is None,
        },
{
    let cipher = aes_gcm::Aes256Gcm::new(aes_gcm::Key::<aes_gcm::Aes256Gcm>::from_slice(key));
    cipher.decrypt(aes_gcm::Nonce::from_slice(nonce), ciphertext).ok()
}

/// `rand::thread_rng().fill_bytes`: `len` random bytes.
#[verifier::external_body]
fn thread_random_bytes(len: usize) -> (v: Vec<u8>)
    ensures
        v@.len() == len,
{
    let mut v = vec![0u8; len];
    rand::RngCore::fill_bytes(&mut rand::thread_rng(), &mut v);
    v
}

/// The text of the error of decoding a text that is not base64.
pub uninterp spec fn base64_decode_error(text: Seq<char>) -> Seq<char>;

/// `base64::decode`: the bytes of a standard, padded base64 text.
#[verifier::external_body]
#[allow(deprecated)]
pub(crate) fn base64_decode(text: &str) -> (r: Result<Vec<u8>, String>)
    ensures
        match r {
            Ok(v) => base64_standard_decoded(text@) == Some(v@),
            Err(e) => base64_standard_decoded(text@) is None && e@ == base64_decode_error(text@),
        },
{
    base64::decode(text).map_err(|e| e.to_string())
}


/// Whether an Argon2 PHC hash string parses.
pub uninterp spec fn argon2_hash_parses(hash: Seq<char>) -> bool;

/// The text of the error of parsing an Argon2 hash string that does not parse.
pub uninterp spec fn argon2_parse_error(hash: Seq<char>) -> Seq<char>;

/// Whether a password matches a parsed Argon2 hash string.
pub uninterp spec fn argon2_matches(password: Seq<char>, hash: Seq<char>) -> bool;

/// `PasswordHash::new` and `Argon2::default().verify_password`.
#[verifier::external_body]
fn argon2_verify(password: &str, hash: &str) -> (r: Result<bool, String>)
    ensures
        match r {
            Ok(b) => argon2_hash_parses(hash@) && b == argon2_matches(password@, hash@),
            Err(e) => !argon2_hash_parses(hash@) && e@ == argon2_parse_error(hash@),
        },
{
    let parsed = argon2::password_hash::PasswordHash::new(hash).map_err(|e| e.to_string())?;
    Ok(argon2::Argon2::default().verify_password(password.as_bytes(), &parsed).is_ok())
}

/// `Argon2::default().hash_password` with a fresh random salt, as a PHC string;
/// the string parses and the password matches it.  With the default parameters
/// and a generated salt the only error argon2's source can reach is a password of
/// more than `0xFFFF_FFFF` bytes (`verify_inputs`), which it always refuses.  The
/// text of the error is not stated.
#[verifier::external_body]
fn argon2_hash(password: &str) -> (r: Result<String, String>)
    ensures
        match r {
            Ok(h) => password.len() <= MAX_ARGON2_PASSWORD_BYTES && argon2_hash_parses(h@) && argon2_matches(
                password@,
                h@,
            ),
            Err(_) => password.len() > MAX_ARGON2_PASSWORD_BYTES,
        },
{
    let salt = argon2::password_hash::SaltString::generate(&mut rand::thread_rng());
    argon2::Argon2::default().hash_password(password.as_bytes(), &salt).map(|h| h.to_string()).map_err(|e| e.to_string())
}

/// Longest password, in bytes, that argon2 hashes.
pub const MAX_ARGON2_PASSWORD_BYTES: usize = 0xFFFF_FFFF;

/// `Argon2::default().hash_password` with a fresh random salt: the raw hash bytes,
/// of argon2's default output length, 32 (`Params::DEFAULT_OUTPUT_LEN`).  As for
/// `argon2_hash`, it fails exactly on passwords of more than `0xFFFF_FFFF` bytes.
/// The bytes rest on the random salt and are not stated; nor is the error text.
#[verifier::external_body]
fn argon2_raw_hash(password: &str) -> (r: Result<Vec<u8>, String>)
    ensures
        match r {
            Ok(v) => password.len() <= MAX_ARGON2_PASSWORD_BYTES && v@.len() == 32,
            Err(_) => password.len() > MAX_ARGON2_PASSWORD_BYTES,
        },
{
    let salt = argon2::password_hash::SaltString::generate(&mut rand::thread_rng());
    let h = argon2::Argon2::default().hash_password(password.as_bytes(), &salt).map_err(|e| e.to_string())?;
    Ok(h.hash.map(|o| o.as_bytes().to_vec()).unwrap_or_default())
}

/// The salt of data-key derivation.
pub open spec fn key_salt() -> Seq<u8> {
    "encryption_key_salt"@.map_values(|c: char| c as u8)
}

/// The data key of `key_id` under a master key.
pub open spec fn data_key(master: Seq<u8>, key_id: Seq<char>) -> Seq<u8> {
    hkdf_sha256(key_salt(), master + encode_utf8(key_id), "encryption"@.map_values(|c: char| c as u8))
}

fn ascii_bytes(s: &str) -> (v: Vec<u8>)
    requires
        s.is_ascii(),
    ensures
        v@ == s@.map_values(|c: char| c as u8),
{
    proof {
        vstd::string::is_ascii_spec_bytes(s);
    }
    let b = s.as_bytes();
    let mut v: Vec<u8> = Vec::new();
    let mut i: usize = 0;
    while i < b.len()
        invariant
            b@ == s.spec_bytes(),
            s.spec_bytes() == Seq::new(s@.len(), |j: int| s@.index(j) as u8),
            i <= b@.len(),
            v@ == b@.take(i as int),
        decreases b@.len() - i,
    {
        v.push(b[i]);
        assert(v@ =~= b@.take(i + 1));
        i += 1;
    }
    assert(v@ =~= s@.map_values(|c: char| c as u8));
    v
}

/// The bytes of a result, or the text of its error.
pub open spec fn bytes_result(r: Result<Vec<u8>, String>) -> Result<Seq<u8>, Seq<char>> {
    match r {
        Ok(v) => Ok(v@),
        Err(e) => Err(e@),
    }
}

/// The text of a result, or the text of its error.
pub open spec fn text_result(r: Result<String, String>) -> Result<Seq<char>, Seq<char>> {
    match r {
        Ok(v) => Ok(v@),
        Err(e) => Err(e@),
    }
}

/// Encrypts and decrypts with keys derived per purpose from a master key.
pub struct EncryptionManager {
    config: EncryptionConfig,
    master_key: Option<Vec<u8>>,
    key_cache: StringMap<Vec<u8>>,
}

impl EncryptionManager {
    pub closed spec fn wf(&self) -> bool {
        &&& self.key_cache.wf()
        &&& forall|k: Seq<char>| #[trigger] self.key_cache@.contains_key(k) ==> self.key_cache@[k]@.len() == 32
    }

    pub closed spec fn configuration(&self) -> EncryptionConfig {
        self.config
    }

    pub closed spec fn master(&self) -> Option<Seq<u8>> {
        match self.master_key {
            Some(k) => Some(k@),
            None => None,
        }
    }

    /// The data keys derived so far, by key id.
    pub closed spec fn keys(&self) -> Map<Seq<char>, Seq<u8>> {
        self.key_cache@.map_values(|v: Vec<u8>| v@)
    }

    pub fn new(config: EncryptionConfig) -> (m: EncryptionManager)
        ensures
            m.wf(),
            m.configuration() == config,
            m.master() is None,
            m.keys() == Map::<Seq<char>, Seq<u8>>::empty(),
    {
        let m = EncryptionManager { config, master_key: None, key_cache: StringMap::new() };
        assert(m.keys() =~= Map::<Seq<char>, Seq<u8>>::empty());
        m
    }

    /// Replaces the master key; keys already derived stay.
    pub fn set_master_key(&mut self, key: Vec<u8>)
        requires
            old(self).wf(),
        ensures
            final(self).wf(),
            final(self).configuration() == old(self).configuration(),
            final(self).master() == Some(key@),
            final(self).keys() == old(self).keys(),
    {
        self.master_key = Some(key);
    }

    /// The data key of `key_id`: the one already derived, or one derived now from
    /// the master key (and kept).
    pub fn get_or_create_key(&mut self, key_id: &str) -> (r: Result<Vec<u8>, String>)
        requires
            old(self).wf(),
        ensures
            final(self).wf(),
            final(self).configuration() == old(self).configuration(),
            final(self).master() == old(self).master(),
            bytes_result(r) == key_outcome(*old(self), key_id@),
            final(self).keys() == keys_after(*old(self), key_id@),
            r matches Ok(k) ==> k@.len() == 32,
    {
        match self.key_cache.get(key_id) {
            Some(k) => {
                let k2 = k.clone();
                assert(k2@ == k@);
                return Ok(k2);
            },
            None => {},
        }
        let master = match &self.master_key {
            Some(m) => m,
            None => {
                return Err(String::from_str("Master key not set"));
            },
        };
        let mut material = master.clone();
        let id_bytes = key_id.as_bytes();
        let mut i: usize = 0;
        let ghost m0 = material@;
        while i < id_bytes.len()
            invariant
                i <= id_bytes@.len(),
                material@ == m0 + id_bytes@.take(i as int),
            decreases id_bytes@.len() - i,
        {
            material.push(id_bytes[i]);
            assert(material@ =~= m0 + id_bytes@.take(i + 1));
            i += 1;
        }
        assert(id_bytes@.take(id_bytes@.len() as int) =~= id_bytes@);
        proof {
            reveal_strlit("encryption_key_salt");
            reveal_strlit("encryption");
        }
        let salt = ascii_bytes("encryption_key_salt");
        let info = ascii_bytes("encryption");
        match hkdf_sha256_fill(salt.as_slice(), material.as_slice(), info.as_slice(), self.config.key_length) {
            Some(k) => {
                self.key_cache.insert(String::from_str(key_id), k.clone());
                proof {
                    assert(self.keys() =~= old(self).keys().insert(key_id@, k@));
                }
                Ok(k)
            },
            None => Err(String::from_str("Failed to derive key")),
        }
    }
}


/// The data key a manager uses for `key_id`: the one it derived before, else one
/// derived from its master key (which needs a master key and 32-byte keys).
pub open spec fn key_outcome(m: EncryptionManager, key_id: Seq<char>) -> Result<Seq<u8>, Seq<char>> {
    if m.keys().contains_key(key_id) {
        Ok(m.keys()[key_id])
    } else {
        match m.master() {
            None => Err("Master key not set"@),
            Some(master) => if m.configuration().key_length == 32 {
                Ok(data_key(master, key_id))
            } else {
                Err("Failed to derive key"@)
            },
        }
    }
}

/// The derived keys after looking up `key_id`: a newly derived key is kept.
pub open spec fn keys_after(m: EncryptionManager, key_id: Seq<char>) -> Map<Seq<char>, Seq<u8>> {
    match key_outcome(m, key_id) {
        Ok(k) => m.keys().insert(key_id, k),
        Err(_) => m.keys(),
    }
}

/// Whether `message` is `data` sealed under `key`: a 12-byte nonce followed by
/// the sealed data, which opens back to the data.
pub open spec fn sealed_message(key: Seq<u8>, data: Seq<u8>, message: Seq<u8>) -> bool {
    &&& message.len() >= 12
    &&& message.skip(12) == aes_gcm_seal(key, message.take(12), data)
    &&& aes_gcm_open(key, message.take(12), message.skip(12)) == Some(data)
}

/// What decrypting `message` under `key` gives.
pub open spec fn opened(key: Seq<u8>, message: Seq<u8>) -> Result<Seq<u8>, Seq<char>> {
    if message.len() < 12 {
        Err("Encrypted data too short"@)
    } else {
        match aes_gcm_open(key, message.take(12), message.skip(12)) {
            Some(p) => Ok(p),
            None => Err("Decryption failed: aead::Error"@),
        }
    }
}

/// What decrypting `message` with the key of `key_id` gives.
pub open spec fn decryption(m: EncryptionManager, key_id: Seq<char>, message: Seq<u8>) -> Result<Seq<u8>, Seq<char>> {
    if message.len() < 12 {
        Err("Encrypted data too short"@)
    } else {
        match key_outcome(m, key_id) {
            Err(e) => Err(e),
            Ok(k) => opened(k, message),
        }
    }
}

impl EncryptionManager {
    /// Derives the master key from a password with Argon2 and a fresh salt; a key
    /// of another length than configured is refused.
    pub fn derive_master_key(&mut self, password: &str) -> (r: Result<(), String>)
        requires
            old(self).wf(),
        ensures
            final(self).wf(),
            final(self).configuration() == old(self).configuration(),
            final(self).keys() == old(self).keys(),
            r is Ok ==> (final(self).master() matches Some(k) && k.len() == old(self).configuration().key_length),
            r is Err ==> final(self).master() == old(self).master(),
            password.len() > MAX_ARGON2_PASSWORD_BYTES ==> (r matches Err(e) && "Failed to hash password: "@.is_prefix_of(
                e@,
            )),
            password.len() <= MAX_ARGON2_PASSWORD_BYTES && old(self).configuration().key_length == 32 ==> r is Ok,
            password.len() <= MAX_ARGON2_PASSWORD_BYTES && old(self).configuration().key_length != 32 ==> (r matches Err(
                e,
            ) && e@ == "Derived key length "@ + decimal(32) + " does not match expected length "@
                + decimal(old(self).configuration().key_length as nat)),
    {
        let key = match argon2_raw_hash(password) {
            Ok(k) => k,
            Err(e) => {
                return Err(concat2("Failed to hash password: ", e.as_str()));
            },
        };
        if key.len() != self.config.key_length {
            let mut m = String::from_str("Derived key length ");
            let a = decimal_string(key.len() as u64);
            m.append(a.as_str());
            m.append(" does not match expected length ");
            let b = decimal_string(self.config.key_length as u64);
            m.append(b.as_str());
            return Err(m);
        }
        self.master_key = Some(key);
        Ok(())
    }

    /// Encrypts `data` with the key of `key_id` under a fresh random nonce: the
    /// nonce followed by the sealed data.
    pub fn encrypt(&mut self, data: &[u8], key_id: &str) -> (r: Result<Vec<u8>, String>)
        requires
            old(self).wf(),
        ensures
            final(self).wf(),
            final(self).configuration() == old(self).configuration(),
            final(self).master() == old(self).master(),
            final(self).keys() == keys_after(*old(self), key_id@),
            match key_outcome(*old(self), key_id@) {
                Err(e) => r matches Err(m) && m@ == e,
                Ok(k) => if data@.len() <= 68719476736 {
                    r matches Ok(c) && sealed_message(k, data@, c@)
                } else {
                    r matches Err(m) && m@ == "Encryption failed: aead::Error"@
                },
            },
    {
        let key = self.get_or_create_key(key_id)?;
        let nonce = thread_random_bytes(12);
        match aes_gcm_encrypt(key.as_slice(), nonce.as_slice(), data) {
            Some(sealed) => {
                let mut out = nonce.clone();
                let mut i: usize = 0;
                while i < sealed.len()
                    invariant
                        nonce@.len() == 12,
                        i <= sealed@.len(),
                        out@ == nonce@ + sealed@.take(i as int),
                    decreases sealed@.len() - i,
                {
                    out.push(sealed[i]);
                    assert(out@ =~= nonce@ + sealed@.take(i + 1));
                    i += 1;
                }
                assert(sealed@.take(sealed@.len() as int) =~= sealed@);
                assert(out@.take(12) =~= nonce@);
                assert(out@.skip(12) =~= sealed@);
                Ok(out)
            },
            None => Err(String::from_str("Encryption failed: aead::Error")),
        }
    }

    /// Decrypts a message made by `encrypt` with the key of `key_id`.
    pub fn decrypt(&mut self, encrypted_data: &[u8], key_id: &str) -> (r: Result<Vec<u8>, String>)
        requires
            old(self).wf(),
        ensures
            final(self).wf(),
            final(self).configuration() == old(self).configuration(),
            final(self).master() == old(self).master(),
            encrypted_data@.len() < 12 ==> final(self).keys() == old(self).keys(),
            encrypted_data@.len() >= 12 ==> final(self).keys() == keys_after(*old(self), key_id@),
            bytes_result(r) == decryption(*old(self), key_id@, encrypted_data@),
    {
        if encrypted_data.len() < 12 {
            return Err(String::from_str("Encrypted data too short"));
        }
        let key = self.get_or_create_key(key_id)?;
        let mut nonce: Vec<u8> = Vec::new();
        let mut body: Vec<u8> = Vec::new();
        let mut i: usize = 0;
        while i < encrypted_data.len()
            invariant
                encrypted_data@.len() >= 12,
                i <= encrypted_data@.len(),
                i < 12 ==> nonce@ == encrypted_data@.take(i as int) && body@.len() == 0,
                i >= 12 ==> nonce@ == encrypted_data@.take(12) && body@ == encrypted_data@.subrange(12, i as int),
            decreases encrypted_data@.len() - i,
        {
            if i < 12 {
                nonce.push(encrypted_data[i]);
                assert(nonce@ =~= encrypted_data@.take(i + 1));
            } else {
                body.push(encrypted_data[i]);
                assert(body@ =~= encrypted_data@.subrange(12, i + 1));
            }
            if i + 1 == 12 {
                assert(body@ =~= encrypted_data@.subrange(12, 12));
            }
            i += 1;
        }
        assert(body@ =~= encrypted_data@.skip(12));
        match aes_gcm_decrypt(key.as_slice(), nonce.as_slice(), body.as_slice()) {
            Some(p) => Ok(p),
            None => Err(String::from_str("Decryption failed: aead::Error")),
        }
    }

    /// Encrypts a text: its UTF-8 bytes, encrypted, in base64.
    pub fn encrypt_string(&mut self, text: &str, key_id: &str) -> (r: Result<String, String>)
        requires
            old(self).wf(),
        ensures
            final(self).wf(),
            final(self).configuration() == old(self).configuration(),
            final(self).master() == old(self).master(),
            final(self).keys() == keys_after(*old(self), key_id@),
            match key_outcome(*old(self), key_id@) {
                Err(e) => r matches Err(m) && m@ == e,
                Ok(k) => if encode_utf8(text@).len() <= 68719476736 {
                    r matches Ok(s) && exists|c: Seq<u8>|
                        #![trigger base64_standard(c)]
                        sealed_message(k, encode_utf8(text@), c) && s@ == base64_standard(c)
                            && base64_standard_decoded(s@) == Some(c)
                } else {
                    r matches Err(m) && m@ == "Encryption failed: aead::Error"@
                },
            },
    {
        let data = text.as_bytes();
        let encrypted = self.encrypt(data, key_id)?;
        let s = base64_encode(&encrypted);
        Ok(s)
    }

    /// Decrypts a text made by `encrypt_string` with the key of `key_id`.
    pub fn decrypt_string(&mut self, encrypted_text: &str, key_id: &str) -> (r: Result<String, String>)
        requires
            old(self).wf(),
        ensures
            final(self).wf(),
            final(self).configuration() == old(self).configuration(),
            final(self).master() == old(self).master(),
            final(self).keys() == (match base64_standard_decoded(encrypted_text@) {
                Some(bytes) => if bytes.len() >= 12 {
                    keys_after(*old(self), key_id@)
                } else {
                    old(self).keys()
                },
                None => old(self).keys(),
            }),
            text_result(r) == text_decryption(*old(self), key_id@, encrypted_text@),
    {
        let bytes = match base64_decode(encrypted_text) {
            Ok(b) => b,
            Err(e) => {
                return Err(concat2("Failed to decode base64: ", e.as_str()));
            },
        };
        let plain = self.decrypt(bytes.as_slice(), key_id)?;
        match utf8_text(plain.as_slice()) {
            Ok(s) => Ok(s),
            Err(e) => Err(concat2("Failed to decode UTF-8: ", e.as_str())),
        }
    }
}

/// What decrypting a base64 text with the key of `key_id` gives.
pub open spec fn text_decryption(m: EncryptionManager, key_id: Seq<char>, text: Seq<char>) -> Result<Seq<char>, Seq<char>> {
    match base64_standard_decoded(text) {
        None => Err("Failed to decode base64: "@ + base64_decode_error(text)),
        Some(c) => match decryption(m, key_id, c) {
            Err(e) => Err(e),
            Ok(p) => if valid_utf8(p) {
                Ok(decode_utf8(p))
            } else {
                Err("Failed to decode UTF-8: "@ + utf8_error_text(p))
            },
        },
    }
}


/// What `encrypt` sealed, `decrypt` on the same manager opens again: with the key
/// of `key_id` that encryption used (and kept), the data comes back.
pub proof fn lemma_encrypt_then_decrypt(
    before: EncryptionManager,
    after: EncryptionManager,
    key_id: Seq<char>,
    data: Seq<u8>,
    message: Seq<u8>,
)
    requires
        after.keys() == keys_after(before, key_id),
        key_outcome(before, key_id) is Ok,
        sealed_message(key_outcome(before, key_id)->Ok_0, data, message),
    ensures
        decryption(after, key_id, message) == Ok::<Seq<u8>, Seq<char>>(data),
{
    let k = key_outcome(before, key_id)->Ok_0;
    assert(after.keys().contains_key(key_id) && after.keys()[key_id] == k);
}

/// What `encrypt_string` made of a text, `decrypt_string` on the same manager
/// turns back into the text.
pub proof fn lemma_encrypt_then_decrypt_text(
    before: EncryptionManager,
    after: EncryptionManager,
    key_id: Seq<char>,
    text: Seq<char>,
    message: Seq<u8>,
    encoded: Seq<char>,
)
    requires
        after.keys() == keys_after(before, key_id),
        key_outcome(before, key_id) is Ok,
        sealed_message(key_outcome(before, key_id)->Ok_0, encode_utf8(text), message),
        base64_standard_decoded(encoded) == Some(message),
    ensures
        text_decryption(after, key_id, encoded) == Ok::<Seq<char>, Seq<char>>(text),
{
    lemma_encrypt_then_decrypt(before, after, key_id, encode_utf8(text), message);
    vstd::utf8::encode_utf8_valid_utf8(text);
    vstd::utf8::encode_utf8_decode_utf8(text);
}

impl EncryptionManager {
    /// Whether a password matches an Argon2 hash string.
    pub fn verify_password(&self, password: &str, hash: &str) -> (r: Result<bool, String>)
        ensures
            argon2_hash_parses(hash@) ==> r == Ok::<bool, String>(argon2_matches(password@, hash@)),
            !argon2_hash_parses(hash@) ==> (r matches Err(e) && e@ == "Failed to parse password hash: "@
                + argon2_parse_error(hash@)),
    {
        match argon2_verify(password, hash) {
            Ok(b) => Ok(b),
            Err(e) => Err(concat2("Failed to parse password hash: ", e.as_str())),
        }
    }

    /// An Argon2 hash string of a password under a fresh salt; the password
    /// matches it.
    pub fn hash_password(&self, password: &str) -> (r: Result<String, String>)
        ensures
            match r {
                Ok(h) => password.len() <= MAX_ARGON2_PASSWORD_BYTES && argon2_hash_parses(h@) && argon2_matches(
                    password@,
                    h@,
                ),
                Err(e) => password.len() > MAX_ARGON2_PASSWORD_BYTES && "Failed to hash password: "@.is_prefix_of(e@),
            },
    {
        match argon2_hash(password) {
            Ok(h) => Ok(h),
            Err(e) => Err(concat2("Failed to hash password: ", e.as_str())),
        }
    }

    /// `length` random bytes.
    pub fn generate_random_key(length: usize) -> (v: Vec<u8>)
        ensures
            v@.len() == length,
    {
        thread_random_bytes(length)
    }

    /// `length` random bytes in base64.
    pub fn generate_token(length: usize) -> (s: String)
        ensures
            exists|b: Seq<u8>| b.len() == length && s@ == #[trigger] base64_standard(b),
    {
        let bytes = Self::generate_random_key(length);
        base64_encode(&bytes)
    }

    /// Forgets every derived key.
    pub fn clear_key_cache(&mut self)
        requires
            old(self).wf(),
        ensures
            final(self).wf(),
            final(self).configuration() == old(self).configuration(),
            final(self).master() == old(self).master(),
            final(self).keys() == Map::<Seq<char>, Seq<u8>>::empty(),
    {
        self.key_cache = StringMap::new();
        assert(self.keys() =~= Map::<Seq<char>, Seq<u8>>::empty());
    }

    /// Number of derived keys.
    pub fn key_cache_size(&self) -> (n: usize)
        requires
            self.wf(),
        ensures
            n == self.keys().dom().len(),
    {
        proof {
            self.key_cache.lemma_enumeration();
            assert(self.keys().dom() =~= self.key_cache@.dom());
        }
        self.key_cache.len()
    }

    /// A manager with the default settings.
    pub fn default() -> (m: EncryptionManager)
        ensures
            m.wf(),
            m.master() is None,
            m.keys() == Map::<Seq<char>, Seq<u8>>::empty(),
            is_default_encryption_config(m.configuration()),
    {
        EncryptionManager::new(EncryptionConfig::default())
    }
}

/// Encrypted storage of named texts.
pub trait SecureStorage {
    /// Stores `value` under `key`.
    fn secure_store(&self, key: &str, value: &str) -> Result<(), String>;

    /// The value stored under `key`, if any.
    fn secure_load(&self, key: &str) -> Result<Option<String>, String>;

    /// Forgets the value stored under `key`; a missing value is no error.
    fn secure_delete(&self, key: &str) -> Result<(), String>;
}

/// The file that holds the value of `key` in a storage directory.
pub fn storage_file_path(storage_path: &str, key: &str) -> (s: String)
    ensures
        s@ == storage_path@ + "/"@ + key@,
{
    let mut s = String::from_str(storage_path);
    s.append("/");
    s.append(key);
    s
}

/// Overwrites sensitive bytes with zeros.
pub fn secure_zeroize(data: &mut Vec<u8>)
    ensures
        final(data)@.len() == old(data)@.len(),
        forall|i: int| 0 <= i < final(data)@.len() ==> final(data)@[i] == 0,
{
    let mut i: usize = 0;
    while i < data.len()
        invariant
            data@.len() == old(data)@.len(),
            i <= data@.len(),
            forall|j: int| 0 <= j < i ==> data@[j] == 0,
        decreases data@.len() - i,
    {
        data.set(i, 0);
        i += 1;
    }
}

/// Whether a character beyond ASCII is upper case in the Unicode sense.
pub uninterp spec fn unicode_uppercase(c: char) -> bool;

/// Whether a character beyond ASCII is lower case in the Unicode sense.
pub uninterp spec fn unicode_lowercase(c: char) -> bool;

/// Whether a character is upper case: on ASCII, exactly `A`..`Z`.
pub open spec fn is_uppercase_char(c: char) -> bool {
    if (c as u32) < 128 {
        'A' <= c && c <= 'Z'
    } else {
        unicode_uppercase(c)
    }
}

/// Whether a character is lower case: on ASCII, exactly `a`..`z`.
pub open spec fn is_lowercase_char(c: char) -> bool {
    if (c as u32) < 128 {
        'a' <= c && c <= 'z'
    } else {
        unicode_lowercase(c)
    }
}

/// `char::is_uppercase`: the Unicode Uppercase property, which on ASCII holds
/// exactly of `A`..`Z`.
#[verifier::external_body]
fn char_is_uppercase(c: char) -> (b: bool)
    ensures
        b == (if (c as u32) < 128 {
            'A' <= c && c <= 'Z'
        } else {
            unicode_uppercase(c)
        }),
{
    c.is_uppercase()
}

/// `char::is_lowercase`: the Unicode Lowercase property, which on ASCII holds
/// exactly of `a`..`z`.
#[verifier::external_body]
fn char_is_lowercase(c: char) -> (b: bool)
    ensures
        b == (if (c as u32) < 128 {
            'a' <= c && c <= 'z'
        } else {
            unicode_lowercase(c)
        }),
{
    c.is_lowercase()
}

/// Whether a password is strong: at least 8 bytes, with an upper-case and a
/// lower-case letter, an ASCII digit, and a character that is neither letter nor
/// digit.
pub open spec fn strong_password(p: Seq<char>) -> bool {
    &&& exists|i: int| 0 <= i < p.len() && #[trigger] is_uppercase_char(p[i])
    &&& exists|i: int| 0 <= i < p.len() && #[trigger] is_lowercase_char(p[i])
    &&& exists|i: int| 0 <= i < p.len() && '0' <= #[trigger] p[i] && p[i] <= '9'
    &&& exists|i: int| 0 <= i < p.len() && !#[trigger] is_alphanumeric_char(p[i])
}

/// Whether some character of `p` is neither a letter nor a digit (an ASCII
/// one is then none of `a`..`z`, `A`..`Z`, `0`..`9`).
pub open spec fn has_special_char(p: Seq<char>) -> bool {
    exists|i: int|
        0 <= i < p.len() && !is_alphanumeric_char(#[trigger] p[i]) && !('a' <= p[i] && p[i] <= 'z') && !('A'
            <= p[i] && p[i] <= 'Z') && !('0' <= p[i] && p[i] <= '9')
}

/// A strong password holds a special character: one that is neither a letter
/// nor a digit, so a password of letters and digits alone is never strong.
pub proof fn lemma_strong_password_has_special_char(p: Seq<char>)
    ensures
        strong_password(p) ==> has_special_char(p),
{
    if !strong_password(p) {
        return;
    }
    let i = choose|i: int| 0 <= i < p.len() && !#[trigger] is_alphanumeric_char(p[i]);
    let c = p[i];
    assert(!is_alphanumeric_char(c));
    assert(!('a' <= c && c <= 'z') && !('A' <= c && c <= 'Z') && !('0' <= c && c <= '9'));
}

/// Checks the strength rules of a password; a short one fails first.
pub fn check_password_strength(password: &str) -> (r: Result<(), String>)
    ensures
        password.len() < 8 ==> (r matches Err(e) && e@ == "Password must be at least 8 characters long"@),
        password.len() >= 8 && !strong_password(password@) ==> (r matches Err(e) && e@
            == "Password must contain uppercase, lowercase, digit, and special characters"@),
        r is Ok <==> (password.len() >= 8 && strong_password(password@)),
        r is Ok ==> password.len() >= 8 && has_special_char(password@) && (exists|i: int|
            0 <= i < password@.len() && #[trigger] is_uppercase_char(password@[i])) && (exists|i: int|
            0 <= i < password@.len() && #[trigger] is_lowercase_char(password@[i])) && (exists|i: int|
            0 <= i < password@.len() && '0' <= #[trigger] password@[i] && password@[i] <= '9'),
{
    proof {
        lemma_strong_password_has_special_char(password@);
    }
    if password.len() < 8 {
        return Err(String::from_str("Password must be at least 8 characters long"));
    }
    let cs = crate::text::chars_of(password);
    let mut upper = false;
    let mut lower = false;
    let mut digit = false;
    let mut special = false;
    let mut i: usize = 0;
    while i < cs.len()
        invariant
            cs@ == password@,
            i <= cs@.len(),
            upper == exists|j: int| 0 <= j < i && #[trigger] is_uppercase_char(cs@[j]),
            lower == exists|j: int| 0 <= j < i && #[trigger] is_lowercase_char(cs@[j]),
            digit == exists|j: int| 0 <= j < i && '0' <= #[trigger] cs@[j] && cs@[j] <= '9',
            special == exists|j: int| 0 <= j < i && !#[trigger] is_alphanumeric_char(cs@[j]),
        decreases cs@.len() - i,
    {
        let c = cs[i];
        let is_upper = char_is_uppercase(c);
        let is_lower = char_is_lowercase(c);
        let is_alnum = char_is_alphanumeric(c);
        assert(is_upper == is_uppercase_char(cs@[i as int]));
        assert(is_lower == is_lowercase_char(cs@[i as int]));
        assert(is_alnum == is_alphanumeric_char(cs@[i as int]));
        if is_upper {
            upper = true;
        }
        if is_lower {
            lower = true;
        }
        if '0' <= c && c <= '9' {
            digit = true;
        }
        if !is_alnum {
            special = true;
        }
        i += 1;
    }
    if !upper || !lower || !digit || !special {
        return Err(String::from_str("Password must contain uppercase, lowercase, digit, and special characters"));
    }
    Ok(())
}

/// `length` random bytes from the operating system; none when it gives none.
pub fn secure_random_bytes(length: usize) -> (r: Option<Vec<u8>>)
    ensures
        r matches Some(v) ==> v@.len() == length,
{
    system_random_bytes(length)
}

/// The SHA-256 digest of some data, in base64.
pub fn hash_data(data: &[u8]) -> (s: String)
    ensures
        s@ == base64_standard(sha256(data@)),
{
    let d = sha256_digest(data);
    base64_encode(&d)
}

} // verus!
