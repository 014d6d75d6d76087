//! Secrets kept encrypted while the application runs: the database password, sealed under
//! its short "easy open" password and parked in the system keyring, and values such as key
//! files, sealed under a master key made for the session.
use vstd::prelude::*;
use vstd::string::StringSliceAdditionalSpecFns;
use vstd::utf8::{decode_utf8, encode_utf8, valid_utf8};
use crate::easy_open::{short_password, to_short_password, SHORT_PW_LENGTH};
use crate::outside::{
    aead_decrypt, aead_encrypt, kdf_new_key, AEAD_MESSAGE_MAX, kdf_subkey, kdf_subkey_of, keyring_delete, keyring_entry, keyring_get,
    keyring_set, opened, pwhash_key, pwhash_of, random_nonce, random_salt, sealed, utf8_str, wipe_bytes,
};

verus! {

broadcast use vstd::utf8::encode_utf8_decode_utf8, vstd::utf8::encode_utf8_valid_utf8;

/// Why a secret could not be sealed, kept or opened.
#[derive(Debug, Clone, Copy, PartialEq, Eq, Structural)]
pub enum CryptoError {
    /// Hashing the password failed.
    Hash,
    /// Encryption failed.
    Encrypt,
    /// The ciphertext does not open with the key: a wrong password, or a damaged value.
    Decrypt,
    /// The opened password is no UTF-8 text.
    NotUtf8,
    /// The system keyring refused the request.
    Keyring,
    /// No master key could be made.
    KeyGeneration,
    /// No subkey could be derived from the master key.
    SubKey,
}

/// The key a password's text seals under with a salt: the password hash of its UTF-8 bytes.
pub open spec fn password_key(password: Seq<char>, salt: Seq<u8>) -> Option<Seq<u8>> {
    pwhash_of(encode_utf8(password), salt)
}

/// Hashes a password with a salt into a 32-byte key (see `password_key`).
pub fn hash_password(value: &str, pw_salt: &[u8]) -> (r: Result<Vec<u8>, CryptoError>)
    ensures
        match r {
            Ok(k) => password_key(value@, pw_salt@) == Some(k@) && k@.len() == 32,
            Err(e) => password_key(value@, pw_salt@) is None && e == CryptoError::Hash,
        },
{
    match pwhash_key(value.as_bytes(), pw_salt) {
        Some(k) => Ok(k),
        None => Err(CryptoError::Hash),
    }
}

/// The database password can be cut to its short password (see `to_short_password`).
pub open spec fn shortenable(password: &str) -> bool {
    &&& password.spec_bytes().len() <= usize::MAX
    &&& password.spec_bytes().len() <= SHORT_PW_LENGTH || password@.len() > SHORT_PW_LENGTH
}

/// The ciphertext seals the password: it opens, with the nonce and the key of the short
/// password and salt, to the password's UTF-8 bytes.
pub open spec fn seals_password(ciphertext: Seq<u8>, password: &str, salt: Seq<u8>, nonce: Seq<u8>) -> bool {
    password_key(short_password(password), salt) matches Some(k) && opened(ciphertext, nonce, k) == Some(
        encode_utf8(password@),
    )
}

/// Seals the database password under its short password, with the salt and nonce given.
/// The nonce must be 24 bytes for sealing to succeed, and the password may take at most
/// `AEAD_MESSAGE_MAX` bytes, past which libsodium aborts.
pub fn seal_password(db_password: &str, salt: &[u8], nonce: &[u8]) -> (r: Result<Vec<u8>, CryptoError>)
    requires
        shortenable(db_password),
        db_password.spec_bytes().len() <= AEAD_MESSAGE_MAX,
    ensures
        match r {
            Ok(c) => seals_password(c@, db_password, salt@, nonce@) && (password_key(
                short_password(db_password),
                salt@,
            ) matches Some(k) && c@ == sealed(encode_utf8(db_password@), nonce@, k)),
            Err(e) => e == CryptoError::Hash && password_key(short_password(db_password), salt@) is None || e
                == CryptoError::Encrypt && password_key(short_password(db_password), salt@) is Some && nonce@.len()
                != 24,
        },
        password_key(short_password(db_password), salt@) is Some && nonce@.len() == 24 ==> r is Ok,
{
    let short = match to_short_password(db_password) {
        Ok(s) => s,
        Err(_) => {
            return Err(CryptoError::Hash);
        },
    };
    let key = hash_password(short, salt)?;
    match aead_encrypt(db_password.as_bytes(), nonce, key.as_slice()) {
        Some(c) => Ok(c),
        None => Err(CryptoError::Encrypt),
    }
}

/// What opening a sealed password with a short password gives: the text of the opened
/// bytes, or why there is none.
pub open spec fn opened_password(ciphertext: Seq<u8>, salt: Seq<u8>, nonce: Seq<u8>, short: Seq<char>) -> Result<Seq<char>, CryptoError> {
    match password_key(short, salt) {
        None => Err(CryptoError::Hash),
        Some(k) => match opened(ciphertext, nonce, k) {
            None => Err(CryptoError::Decrypt),
            Some(m) => if valid_utf8(m) {
                Ok(decode_utf8(m))
            } else {
                Err(CryptoError::NotUtf8)
            },
        },
    }
}

/// Opens a sealed password with a short password (see `opened_password`).
pub fn open_password(ciphertext: &[u8], salt: &[u8], nonce: &[u8], short_password: &str) -> (r: Result<String, CryptoError>)
    ensures
        match r {
            Ok(s) => opened_password(ciphertext@, salt@, nonce@, short_password@) == Ok::<Seq<char>, CryptoError>(s@),
            Err(e) => opened_password(ciphertext@, salt@, nonce@, short_password@) == Err::<Seq<char>, CryptoError>(e),
        },
{
    let key = hash_password(short_password, salt)?;
    let plain = match aead_decrypt(ciphertext, nonce, key.as_slice()) {
        Some(m) => m,
        None => {
            return Err(CryptoError::Decrypt);
        },
    };
    match utf8_str(plain.as_slice()) {
        Some(s) => Ok(crate::text::to_owned_string(s)),
        None => Err(CryptoError::NotUtf8),
    }
}

/// A password sealed under its short password opens again, with that short password, to
/// the password itself.
pub proof fn lemma_easy_open_round_trip(password: &str, salt: Seq<u8>, nonce: Seq<u8>, ciphertext: Seq<u8>)
    requires
        seals_password(ciphertext, password, salt, nonce),
    ensures
        opened_password(ciphertext, salt, nonce, short_password(password)) == Ok::<Seq<char>, CryptoError>(
            password@,
        ),
{
}

/// A secret parked in the system keyring, under this application's service and user.
pub struct KernelBackedSecret {
    secret: keyring::Entry,
}

impl KernelBackedSecret {
    /// Parks a secret in the keyring.
    pub fn new(pw: &[u8]) -> (r: Result<KernelBackedSecret, CryptoError>)
        ensures
            r matches Err(e) ==> e == CryptoError::Keyring,
    {
        let entry = match keyring_entry("keepassrx", "keepassrx") {
            Some(e) => e,
            None => {
                return Err(CryptoError::Keyring);
            },
        };
        if keyring_set(&entry, pw) {
            Ok(KernelBackedSecret { secret: entry })
        } else {
            Err(CryptoError::Keyring)
        }
    }

    /// The secret the keyring holds.
    pub fn retrieve(&self) -> (r: Result<Vec<u8>, CryptoError>)
        ensures
            r matches Err(e) ==> e == CryptoError::Keyring,
    {
        match keyring_get(&self.secret) {
            Some(v) => Ok(v),
            None => Err(CryptoError::Keyring),
        }
    }

    /// Removes the secret from the keyring.
    pub fn destroy(self) -> (r: Result<(), CryptoError>)
        ensures
            r matches Err(e) ==> e == CryptoError::Keyring,
    {
        if keyring_delete(&self.secret) {
            Ok(())
        } else {
            Err(CryptoError::Keyring)
        }
    }
}

/// The database password, sealed under its short password: the salt and nonce stay in
/// memory, the ciphertext goes to the keyring.
pub struct EncryptedPassword {
    pw_salt: Vec<u8>,
    secret: KernelBackedSecret,
    nonce: Vec<u8>,
    /// The ciphertext handed to the keyring.
    parked: Ghost<Seq<u8>>,
}

impl EncryptedPassword {
    /// The salt the password was sealed with.
    pub closed spec fn salt(&self) -> Seq<u8> {
        self.pw_salt@
    }

    /// The nonce the password was sealed with.
    pub closed spec fn sealing_nonce(&self) -> Seq<u8> {
        self.nonce@
    }

    /// The ciphertext that was handed to the keyring.
    pub closed spec fn parked_secret(&self) -> Seq<u8> {
        self.parked@
    }

    /// Seals the database password under its short password with a fresh salt and nonce,
    /// and parks the ciphertext in the keyring.
    pub fn new(db_password: &str) -> (r: Result<EncryptedPassword, CryptoError>)
        requires
            shortenable(db_password),
            db_password.spec_bytes().len() <= AEAD_MESSAGE_MAX,
        ensures
            r matches Ok(p) ==> seals_password(p.parked_secret(), db_password, p.salt(), p.sealing_nonce()),
            r matches Err(e) ==> e == CryptoError::Hash || e == CryptoError::Keyring,
    {
        let salt = random_salt();
        let nonce = random_nonce();
        let ciphertext = match seal_password(db_password, salt.as_slice(), nonce.as_slice()) {
            Ok(c) => c,
            Err(e) => {
                return Err(e);
            },
        };
        let ghost parked = ciphertext@;
        let secret = match KernelBackedSecret::new(ciphertext.as_slice()) {
            Ok(s) => s,
            Err(e) => {
                return Err(e);
            },
        };
        Ok(EncryptedPassword { pw_salt: salt, secret, nonce, parked: Ghost(parked) })
    }

    /// Opens the password with a short password, from the ciphertext the keyring gives
    /// back, and removes it from the keyring once opened.
    pub fn decrypt(self, short_password: &str) -> (r: Result<String, CryptoError>)
        ensures
            r matches Ok(s) ==> exists|c: Seq<u8>|
                opened_password(c, self.salt(), self.sealing_nonce(), short_password@) == Ok::<
                    Seq<char>,
                    CryptoError,
                >(s@),
            r matches Err(e) ==> e == CryptoError::Keyring || exists|c: Seq<u8>|
                opened_password(c, self.salt(), self.sealing_nonce(), short_password@) == Err::<
                    Seq<char>,
                    CryptoError,
                >(e),
    {
        let ciphertext = match self.secret.retrieve() {
            Ok(c) => c,
            Err(e) => {
                return Err(e);
            },
        };
        let master = match open_password(ciphertext.as_slice(), self.pw_salt.as_slice(), self.nonce.as_slice(), short_password) {
            Ok(m) => m,
            Err(e) => {
                assert(opened_password(ciphertext@, self.salt(), self.sealing_nonce(), short_password@) == Err::<
                    Seq<char>,
                    CryptoError,
                >(e));
                return Err(e);
            },
        };
        assert(opened_password(ciphertext@, self.salt(), self.sealing_nonce(), short_password@) == Ok::<
            Seq<char>,
            CryptoError,
        >(master@));
        let _ = self.secret.destroy();
        Ok(master)
    }
}

/// The context subkeys are derived in.
pub open spec fn kdf_context_bytes() -> Seq<u8> {
    seq![75u8, 69u8, 69u8, 80u8, 83u8, 83u8, 82u8, 88u8]
}

/// The context subkeys are derived in: `KEEPSSRX`.
fn kdf_context() -> (r: Vec<u8>)
    ensures
        r@ == kdf_context_bytes(),
{
    let r: Vec<u8> = vec![75u8, 69u8, 69u8, 80u8, 83u8, 83u8, 82u8, 88u8];
    assert(r@ =~= kdf_context_bytes());
    r
}

/// The master key of a session, which values are sealed under.
pub struct MasterKey {
    key: Vec<u8>,
}

impl MasterKey {
    /// The bytes of the key.
    pub closed spec fn key_bytes(&self) -> Seq<u8> {
        self.key@
    }

    /// A fresh random master key.
    pub fn new() -> (r: Result<MasterKey, CryptoError>)
        ensures
            r matches Ok(m) && m.key_bytes().len() == 32,
    {
        match kdf_new_key() {
            Some(k) => Ok(MasterKey { key: k }),
            None => Err(CryptoError::KeyGeneration),
        }
    }

    /// The subkey with the given id.
    pub fn derive_subkey(&self, id: u64) -> (r: Result<Vec<u8>, CryptoError>)
        ensures
            match r {
                Ok(s) => kdf_subkey_of(self.key_bytes(), id, kdf_context_bytes()) == Some(s@) && s@.len() == 32,
                Err(e) => kdf_subkey_of(self.key_bytes(), id, kdf_context_bytes()) is None && e == CryptoError::SubKey,
            },
    {
        let context = kdf_context();
        match kdf_subkey(self.key.as_slice(), id, context.as_slice()) {
            Some(s) => Ok(s),
            None => Err(CryptoError::SubKey),
        }
    }
}

/// A value sealed under the subkey with its id.
pub struct EncryptedValue {
    id: u64,
    value: Vec<u8>,
    nonce: Vec<u8>,
}

impl EncryptedValue {
    /// The id of the subkey the value is sealed under.
    pub closed spec fn key_id(&self) -> u64 {
        self.id
    }

    /// The number of sealed bytes held.
    pub closed spec fn sealed_len(&self) -> nat {
        self.value@.len()
    }

    /// What exposing the value under a master key gives.
    pub closed spec fn exposed_under(&self, master: Seq<u8>) -> Result<Seq<u8>, CryptoError> {
        match kdf_subkey_of(master, self.id, kdf_context_bytes()) {
            None => Err(CryptoError::SubKey),
            Some(sk) => match opened(self.value@, self.nonce@, sk) {
                None => Err(CryptoError::Decrypt),
                Some(m) => Ok(m),
            },
        }
    }

    /// Seals a value under the subkey of the master key with the given id, with a fresh
    /// nonce. It succeeds exactly when the subkey can be derived. The value may take at most
    /// `AEAD_MESSAGE_MAX` bytes, past which libsodium aborts.
    pub fn new(key: &MasterKey, id: u64, value: Vec<u8>) -> (r: Result<EncryptedValue, CryptoError>)
        requires
            value@.len() <= AEAD_MESSAGE_MAX,
        ensures
            r matches Ok(v) ==> v.key_id() == id && v.exposed_under(key.key_bytes()) == Ok::<Seq<u8>, CryptoError>(
                value@,
            ),
            r matches Err(e) ==> e == CryptoError::SubKey && kdf_subkey_of(key.key_bytes(), id, kdf_context_bytes()) is None,
    {
        let subkey = match key.derive_subkey(id) {
            Ok(s) => s,
            Err(e) => {
                return Err(e);
            },
        };
        let nonce = random_nonce();
        match aead_encrypt(value.as_slice(), nonce.as_slice(), subkey.as_slice()) {
            Some(c) => Ok(EncryptedValue { id, value: c, nonce }),
            None => Err(CryptoError::Encrypt),
        }
    }

    /// Opens the value under the master key (see `exposed_under`).
    fn decrypt(&self, key: &MasterKey) -> (r: Result<Vec<u8>, CryptoError>)
        ensures
            match r {
                Ok(m) => self.exposed_under(key.key_bytes()) == Ok::<Seq<u8>, CryptoError>(m@),
                Err(e) => self.exposed_under(key.key_bytes()) == Err::<Seq<u8>, CryptoError>(e),
            },
    {
        let subkey = key.derive_subkey(self.id)?;
        match aead_decrypt(self.value.as_slice(), self.nonce.as_slice(), subkey.as_slice()) {
            Some(m) => Ok(m),
            None => Err(CryptoError::Decrypt),
        }
    }

    /// Seals the value again under a fresh nonce; the old ciphertext is wiped first.
    fn reencrypt(&mut self, key: &MasterKey) -> (r: Result<(), CryptoError>)
        ensures
            final(self).key_id() == old(self).key_id(),
            r is Ok ==> (old(self).exposed_under(key.key_bytes()) matches Ok(m)
                && final(self).exposed_under(key.key_bytes()) == Ok::<Seq<u8>, CryptoError>(m)),
            old(self).exposed_under(key.key_bytes()) matches Err(e) ==> r == Err::<(), CryptoError>(e)
                && final(self).exposed_under(key.key_bytes()) == old(self).exposed_under(key.key_bytes()),
            old(self).exposed_under(key.key_bytes()) is Ok && r is Err ==> r == Err::<(), CryptoError>(
                CryptoError::Encrypt,
            ),
    {
        let decrypted = self.decrypt(key)?;
        if decrypted.len() as u64 > AEAD_MESSAGE_MAX {
            return Err(CryptoError::Encrypt);
        }
        wipe_bytes(&mut self.value);
        let fresh = match EncryptedValue::new(key, self.id, decrypted) {
            Ok(v) => v,
            Err(e) => {
                return Err(e);
            },
        };
        self.nonce = fresh.nonce;
        self.value = fresh.value;
        Ok(())
    }

    /// The value, opened under the master key; it is sealed again under a fresh nonce.
    pub fn expose(&mut self, key: &MasterKey) -> (r: Result<Vec<u8>, CryptoError>)
        ensures
            final(self).key_id() == old(self).key_id(),
            r matches Ok(m) ==> old(self).exposed_under(key.key_bytes()) == Ok::<Seq<u8>, CryptoError>(m@)
                && final(self).exposed_under(key.key_bytes()) == Ok::<Seq<u8>, CryptoError>(m@),
            old(self).exposed_under(key.key_bytes()) matches Err(e) ==> r == Err::<Vec<u8>, CryptoError>(e),
            old(self).exposed_under(key.key_bytes()) is Ok && r is Err ==> r == Err::<Vec<u8>, CryptoError>(
                CryptoError::Encrypt,
            ),
    {
        let plaintext = self.decrypt(key)?;
        self.reencrypt(key)?;
        Ok(plaintext)
    }

    /// Wipes the ciphertext, and replaces the nonce by a fresh one after wiping it.
    pub fn wipe(&mut self)
        ensures
            final(self).key_id() == old(self).key_id(),
            final(self).sealed_len() == 0,
    {
        let mut old_nonce = random_nonce();
        core::mem::swap(&mut old_nonce, &mut self.nonce);
        wipe_bytes(&mut old_nonce);
        wipe_bytes(&mut self.value);
    }
}

/// A value sealed under a master key is exposed unchanged under that key, however often it
/// is exposed: each exposure leaves it sealed to the same bytes.
pub proof fn lemma_exposure_is_stable(before: EncryptedValue, after: EncryptedValue, master: Seq<u8>, v: Seq<u8>)
    requires
        before.exposed_under(master) == Ok::<Seq<u8>, CryptoError>(v),
        after.exposed_under(master) == before.exposed_under(master),
    ensures
        after.exposed_under(master) == Ok::<Seq<u8>, CryptoError>(v),
{
}

/// The key file given for a database: as read, or sealed under the session's master key.
pub enum KeyFile {
    Unencrypted(Vec<u8>),
    Encrypted(EncryptedValue),
}

/// The bytes of a key file under a master key.
pub open spec fn key_file_bytes(k: KeyFile, master: Seq<u8>) -> Result<Seq<u8>, CryptoError> {
    match k {
        KeyFile::Unencrypted(b) => Ok(b@),
        KeyFile::Encrypted(v) => v.exposed_under(master),
    }
}

impl Default for KeyFile {
    /// No key file bytes.
    fn default() -> (r: KeyFile)
        ensures
            r matches KeyFile::Unencrypted(b) && b@.len() == 0,
    {
        KeyFile::Unencrypted(Vec::new())
    }
}

impl KeyFile {
    /// The key file is held as read.
    pub fn is_unencrypted(&self) -> (r: bool)
        ensures
            r == (self is Unencrypted),
    {
        match self {
            KeyFile::Unencrypted(_) => true,
            _ => false,
        }
    }

    /// Seals the key file under the master key with the subkey of the given id; a sealed key
    /// file stays as it is. Its bytes under that key do not change.
    /// A key file held as read may take at most `AEAD_MESSAGE_MAX` bytes, past which
    /// libsodium aborts; sealing it succeeds exactly when the subkey can be derived.
    pub fn encrypt(self, master_key: &MasterKey, id: u64) -> (r: Result<KeyFile, CryptoError>)
        requires
            self matches KeyFile::Unencrypted(b) ==> b@.len() <= AEAD_MESSAGE_MAX,
        ensures
            r matches Ok(k) ==> key_file_bytes(k, master_key.key_bytes()) == key_file_bytes(self, master_key.key_bytes())
                && k is Encrypted,
            self is Encrypted ==> r is Ok,
            r matches Err(e) ==> e == CryptoError::SubKey && kdf_subkey_of(master_key.key_bytes(), id, kdf_context_bytes())
                is None,
    {
        match self {
            KeyFile::Encrypted(_) => Ok(self),
            KeyFile::Unencrypted(bytes) => {
                match EncryptedValue::new(master_key, id, bytes) {
                    Ok(v) => Ok(KeyFile::Encrypted(v)),
                    Err(e) => Err(e),
                }
            },
        }
    }

    /// The bytes of a key file held as read.
    pub fn bytes_unencrypted(&self) -> (r: Option<Vec<u8>>)
        ensures
            match self {
                KeyFile::Unencrypted(b) => r matches Some(v) && v@ == b@,
                KeyFile::Encrypted(_) => r is None,
            },
    {
        match self {
            KeyFile::Unencrypted(bytes) => Some(crate::rx::rx_entry::copy_bytes(bytes.as_slice())),
            _ => None,
        }
    }

    /// The bytes of the key file, opened under the master key when sealed (see
    /// `key_file_bytes`); a sealed key file is sealed again under a fresh nonce.
    pub fn bytes(&mut self, master_key: &MasterKey) -> (r: Result<Vec<u8>, CryptoError>)
        ensures
            match r {
                Ok(b) => key_file_bytes(*old(self), master_key.key_bytes()) == Ok::<Seq<u8>, CryptoError>(b@),
                Err(e) => key_file_bytes(*old(self), master_key.key_bytes()) == Err::<Seq<u8>, CryptoError>(e)
                    || (key_file_bytes(*old(self), master_key.key_bytes()) is Ok && e == CryptoError::Encrypt),
            },
            r is Ok ==> key_file_bytes(*final(self), master_key.key_bytes()) == key_file_bytes(
                *old(self),
                master_key.key_bytes(),
            ),
    {
        let mut taken = KeyFile::Unencrypted(Vec::new());
        core::mem::swap(&mut taken, self);
        match taken {
            KeyFile::Encrypted(mut value) => {
                let r = value.expose(master_key);
                *self = KeyFile::Encrypted(value);
                r
            },
            KeyFile::Unencrypted(bytes) => {
                let copy = crate::rx::rx_entry::copy_bytes(bytes.as_slice());
                *self = KeyFile::Unencrypted(bytes);
                Ok(copy)
            },
        }
    }

    /// Wipes the key file's bytes: a key file held as read is left empty, a sealed one keeps
    /// its subkey id and holds no sealed bytes.
    pub fn wipe(&mut self)
        ensures
            match *old(self) {
                KeyFile::Unencrypted(_) => *final(self) matches KeyFile::Unencrypted(b) && b@.len() == 0,
                KeyFile::Encrypted(v) => *final(self) matches KeyFile::Encrypted(w) && w.key_id() == v.key_id()
                    && w.sealed_len() == 0,
            },
    {
        match self {
            KeyFile::Unencrypted(bytes) => wipe_bytes(bytes),
            KeyFile::Encrypted(value) => value.wipe(),
        }
    }
}

} // verus!
