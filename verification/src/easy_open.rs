//! Derivation of the "easy open" short password from the database password.
use vstd::prelude::*;
use vstd::string::StrSliceExecFns;
use vstd::string::StringSliceAdditionalSpecFns;
use vstd::utf8::{decode_utf8, encode_utf8, valid_utf8};
pub use crate::crypto::KernelBackedSecret;
use crate::crypto::{hash_password, shortenable, CryptoError};
use crate::outside::{
    gcm_decrypt, gcm_encrypt, gcm_nonce, GCM_MESSAGE_MAX, gcm_opened, random_salt, random_salt_string, scrypt_key, scrypt_key_of, utf8_str,
};

verus! {

/// Number of characters kept of the master password for easy opening.
pub const SHORT_PW_LENGTH: usize = 5;

/// Never produced: shortening always succeeds on the inputs it accepts.
#[derive(Debug)]
pub struct ShortPasswordError;

/// The short password: the first five characters when the password takes more than five
/// bytes in UTF-8, otherwise the whole password.
pub open spec fn short_password(value: &str) -> Seq<char> {
    if value.spec_bytes().len() > SHORT_PW_LENGTH {
        value@.take(SHORT_PW_LENGTH as int)
    } else {
        value@
    }
}

/// Cuts a password down to the short password used for easy opening.
pub fn to_short_password<'a>(value: &'a str) -> (r: Result<&'a str, ShortPasswordError>)
    requires
        value.spec_bytes().len() <= usize::MAX,
        value.spec_bytes().len() <= SHORT_PW_LENGTH || value@.len() > SHORT_PW_LENGTH,
    ensures
        r matches Ok(s) && s@ == short_password(value),
{
    if value.len() > SHORT_PW_LENGTH {
        Ok(value.substring_char(0, SHORT_PW_LENGTH))
    } else {
        Ok(value)
    }
}

} // verus!

verus! {

/// The key the short password seals under in this scheme: its password hash with one salt,
/// stretched by scrypt with a second salt (given as text).
pub open spec fn stretched_key(short: Seq<char>, pw_salt: Seq<u8>, cipher_salt: Seq<char>) -> Option<Seq<u8>> {
    match crate::crypto::password_key(short, pw_salt) {
        Some(h) => scrypt_key_of(h, encode_utf8(cipher_salt)),
        None => None,
    }
}

/// The ciphertext seals the password under the stretched key of its short password.
pub open spec fn gcm_seals_password(
    ciphertext: Seq<u8>,
    password: &str,
    pw_salt: Seq<u8>,
    cipher_salt: Seq<char>,
    nonce: Seq<u8>,
) -> bool {
    stretched_key(short_password(password), pw_salt, cipher_salt) matches Some(k) && gcm_opened(ciphertext, nonce, k)
        == Some(encode_utf8(password@))
}

/// Derives the key that seals the password from the hash of the short password.
pub fn derive_key(pw_hash: &[u8], cipher_salt: &str) -> (r: Result<Vec<u8>, CryptoError>)
    ensures
        match r {
            Ok(k) => scrypt_key_of(pw_hash@, encode_utf8(cipher_salt@)) == Some(k@) && k@.len() == 32,
            Err(e) => scrypt_key_of(pw_hash@, encode_utf8(cipher_salt@)) is None && e == CryptoError::Hash,
        },
        r is Ok,
{
    match scrypt_key(pw_hash, cipher_salt.as_bytes()) {
        Some(k) => Ok(k),
        None => Err(CryptoError::Hash),
    }
}

/// The stretched key of a short password (see `stretched_key`).
fn short_password_key(short: &str, pw_salt: &[u8], cipher_salt: &str) -> (r: Result<Vec<u8>, CryptoError>)
    ensures
        match r {
            Ok(k) => stretched_key(short@, pw_salt@, cipher_salt@) == Some(k@) && k@.len() == 32,
            Err(e) => stretched_key(short@, pw_salt@, cipher_salt@) is None && e == CryptoError::Hash,
        },
{
    let pw_hash = hash_password(short, pw_salt)?;
    derive_key(pw_hash.as_slice(), cipher_salt)
}

/// Seals the database password under the stretched key of its short password.
pub fn seal_password_gcm(db_password: &str, pw_salt: &[u8], cipher_salt: &str, nonce: &[u8]) -> (r: Result<Vec<u8>, CryptoError>)
    requires
        shortenable(db_password),
        nonce@.len() == 12,
    ensures
        r matches Ok(c) ==> gcm_seals_password(c@, db_password, pw_salt@, cipher_salt@, nonce@),
        r matches Err(e) ==> (e == CryptoError::Hash && stretched_key(short_password(db_password), pw_salt@, cipher_salt@) is None)
            || (e == CryptoError::Encrypt && stretched_key(short_password(db_password), pw_salt@, cipher_salt@) is Some
            && db_password.spec_bytes().len() > GCM_MESSAGE_MAX),
        stretched_key(short_password(db_password), pw_salt@, cipher_salt@) is Some && db_password.spec_bytes().len()
            <= GCM_MESSAGE_MAX ==> r is Ok,
{
    let short = match to_short_password(db_password) {
        Ok(s) => s,
        Err(_) => {
            return Err(CryptoError::Hash);
        },
    };
    let key = short_password_key(short, pw_salt, cipher_salt)?;
    match gcm_encrypt(db_password.as_bytes(), nonce, key.as_slice()) {
        Some(c) => Ok(c),
        None => Err(CryptoError::Encrypt),
    }
}

/// What opening a sealed password with a short password gives in this scheme.
pub open spec fn gcm_opened_password(
    ciphertext: Seq<u8>,
    pw_salt: Seq<u8>,
    cipher_salt: Seq<char>,
    nonce: Seq<u8>,
    short: Seq<char>,
) -> Result<Seq<char>, CryptoError> {
    match stretched_key(short, pw_salt, cipher_salt) {
        None => Err(CryptoError::Hash),
        Some(k) => match gcm_opened(ciphertext, nonce, k) {
            None => Err(CryptoError::Decrypt),
            Some(m) => if valid_utf8(m) {
                Ok(decode_utf8(m))
            } else {
                Err(CryptoError::NotUtf8)
            },
        },
    }
}

/// Opens a sealed password with a short password (see `gcm_opened_password`).
pub fn open_password_gcm(ciphertext: &[u8], pw_salt: &[u8], cipher_salt: &str, nonce: &[u8], short_password: &str) -> (r: Result<String, CryptoError>)
    requires
        nonce@.len() == 12,
    ensures
        match r {
            Ok(s) => gcm_opened_password(ciphertext@, pw_salt@, cipher_salt@, nonce@, short_password@) == Ok::<
                Seq<char>,
                CryptoError,
            >(s@),
            Err(e) => gcm_opened_password(ciphertext@, pw_salt@, cipher_salt@, nonce@, short_password@) == Err::<
                Seq<char>,
                CryptoError,
            >(e),
        },
{
    let key = short_password_key(short_password, pw_salt, cipher_salt)?;
    let plain = match gcm_decrypt(ciphertext, nonce, key.as_slice()) {
        Some(m) => m,
        None => {
            return Err(CryptoError::Decrypt);
        },
    };
    match utf8_str(plain.as_slice()) {
        Some(s) => Ok(crate::text::to_owned_string(s)),
        None => Err(CryptoError::NotUtf8),
    }
}

/// A password sealed under the stretched key of its short password opens again, with that
/// short password, to the password itself.
pub proof fn lemma_gcm_easy_open_round_trip(
    password: &str,
    pw_salt: Seq<u8>,
    cipher_salt: Seq<char>,
    nonce: Seq<u8>,
    ciphertext: Seq<u8>,
)
    requires
        gcm_seals_password(ciphertext, password, pw_salt, cipher_salt, nonce),
    ensures
        gcm_opened_password(ciphertext, pw_salt, cipher_salt, nonce, short_password(password)) == Ok::<
            Seq<char>,
            CryptoError,
        >(password@),
{
    broadcast use vstd::utf8::encode_utf8_decode_utf8, vstd::utf8::encode_utf8_valid_utf8;

}

/// The database password, sealed with AES-256-GCM under a key stretched from its short
/// password: the salts and nonce stay in memory, the ciphertext goes to the keyring.
pub struct EncryptedPassword {
    pw_salt: Vec<u8>,
    cipher_salt: String,
    secret: KernelBackedSecret,
    nonce: Vec<u8>,
    parked: Ghost<Seq<u8>>,
}

impl EncryptedPassword {
    /// The salt of the password hash.
    pub closed spec fn hash_salt(&self) -> Seq<u8> {
        self.pw_salt@
    }

    /// The salt of the stretching.
    pub closed spec fn stretch_salt(&self) -> Seq<char> {
        self.cipher_salt@
    }

    /// The nonce the password was sealed with.
    pub closed spec fn sealing_nonce(&self) -> Seq<u8> {
        self.nonce@
    }

    /// The ciphertext that was handed to the keyring.
    pub closed spec fn parked_secret(&self) -> Seq<u8> {
        self.parked@
    }

    /// The nonce has the 12 bytes AES-GCM takes.
    pub fn has_gcm_nonce(&self) -> (r: bool)
        ensures
            r == (self.sealing_nonce().len() == 12),
    {
        self.nonce.len() == 12
    }

    /// Seals the database password with fresh salts and nonce, and parks the ciphertext in
    /// the keyring.
    pub fn new(db_password: &str) -> (r: Result<EncryptedPassword, CryptoError>)
        requires
            shortenable(db_password),
        ensures
            r matches Ok(p) ==> p.sealing_nonce().len() == 12 && gcm_seals_password(
                p.parked_secret(),
                db_password,
                p.hash_salt(),
                p.stretch_salt(),
                p.sealing_nonce(),
            ),
            r matches Err(e) ==> e == CryptoError::Hash || e == CryptoError::Encrypt || e == CryptoError::Keyring,
    {
        let pw_salt = random_salt();
        let cipher_salt = random_salt_string();
        let nonce = gcm_nonce();
        let ciphertext = match seal_password_gcm(db_password, pw_salt.as_slice(), cipher_salt.as_str(), nonce.as_slice()) {
            Ok(c) => c,
            Err(e) => {
                return Err(e);
            },
        };
        let ghost parked = ciphertext@;
        let secret = match KernelBackedSecret::new(ciphertext.as_slice()) {
            Ok(s) => s,
            Err(e) => {
                return Err(e);
            },
        };
        Ok(EncryptedPassword { pw_salt, cipher_salt, secret, nonce, parked: Ghost(parked) })
    }

    /// Opens the password with a short password, from a ciphertext that the keyring gave
    /// back, under this password's salts and nonce (see `gcm_opened_password`).
    pub fn open_retrieved(&self, ciphertext: &[u8], short_password: &str) -> (r: Result<String, CryptoError>)
        requires
            self.sealing_nonce().len() == 12,
        ensures
            match r {
                Ok(s) => gcm_opened_password(ciphertext@, self.hash_salt(), self.stretch_salt(), self.sealing_nonce(), short_password@)
                    == Ok::<Seq<char>, CryptoError>(s@),
                Err(e) => gcm_opened_password(ciphertext@, self.hash_salt(), self.stretch_salt(), self.sealing_nonce(), short_password@)
                    == Err::<Seq<char>, CryptoError>(e),
            },
    {
        open_password_gcm(
            ciphertext,
            self.pw_salt.as_slice(),
            self.cipher_salt.as_str(),
            self.nonce.as_slice(),
            short_password,
        )
    }

    /// Opens the password with a short password, from the ciphertext the keyring gives
    /// back (`open_retrieved`); the ciphertext stays in the keyring.
    pub fn decrypt(&self, short_password: &str) -> (r: Result<String, CryptoError>)
        requires
            self.sealing_nonce().len() == 12,
        ensures
            r matches Ok(s) ==> exists|c: Seq<u8>|
                gcm_opened_password(c, self.hash_salt(), self.stretch_salt(), self.sealing_nonce(), short_password@)
                    == Ok::<Seq<char>, CryptoError>(s@),
            r matches Err(e) ==> e == CryptoError::Keyring || exists|c: Seq<u8>|
                gcm_opened_password(c, self.hash_salt(), self.stretch_salt(), self.sealing_nonce(), short_password@)
                    == Err::<Seq<char>, CryptoError>(e),
    {
        let ciphertext = match self.secret.retrieve() {
            Ok(c) => c,
            Err(e) => {
                return Err(e);
            },
        };
        self.open_retrieved(ciphertext.as_slice(), short_password)
    }
}

/// A password sealed by `EncryptedPassword::new` opens again from the ciphertext it parked,
/// with the short password of the database password, to the database password itself.
pub proof fn lemma_encrypted_password_reopens(p: EncryptedPassword, db_password: &str)
    requires
        gcm_seals_password(p.parked_secret(), db_password, p.hash_salt(), p.stretch_salt(), p.sealing_nonce()),
    ensures
        gcm_opened_password(p.parked_secret(), p.hash_salt(), p.stretch_salt(), p.sealing_nonce(), short_password(db_password))
            == Ok::<Seq<char>, CryptoError>(db_password@),
{
    lemma_gcm_easy_open_round_trip(db_password, p.hash_salt(), p.stretch_salt(), p.sealing_nonce(), p.parked_secret());
}

} // verus!
