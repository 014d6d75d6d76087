//! The session the user interface drives: the master password as typed, the same password
//! sealed for easy opening once the database is open, and the open database. Each request of
//! the interface is one step here, from the state and the request to the next state and the
//! answer.
use vstd::prelude::*;
use vstd::string::StrSliceExecFns;
use vstd::string::StringSliceAdditionalSpecFns;
use vstd::utf8::encode_utf8;
use crate::crypto::CryptoError;
use crate::easy_open::{gcm_opened_password, gcm_seals_password, EncryptedPassword};
use crate::mirror::opt_text;
use crate::rx::rx_db::RxDatabase;
use crate::text::to_owned_string;

verus! {

/// Why a request of the session was refused.
#[derive(Debug, Clone, Copy, PartialEq, Eq, Structural)]
pub enum SessionError {
    /// No master password is stored.
    NoPasswordStored,
    /// No database is open.
    DatabaseNotOpen,
    /// The password cannot be cut to a short password (see `shortenable`).
    Unsealable,
    /// Sealing the password failed.
    Crypto(CryptoError),
}

/// The sealed password seals the given password (see `gcm_seals_password`), with a nonce of
/// the 12 bytes AES-GCM takes.
pub open spec fn sealed_from(e: EncryptedPassword, password: Seq<char>) -> bool {
    &&& e.sealing_nonce().len() == 12
    &&& exists|t: &str|
        t@ == password && #[trigger] gcm_seals_password(e.parked_secret(), t, e.hash_salt(), e.stretch_salt(), e.sealing_nonce())
}

/// The stored password is what the sealed password opens to with the short password, from
/// the ciphertext the keyring gave back (see `gcm_opened_password`).
pub open spec fn opened_by(e: EncryptedPassword, short: Seq<char>, stored: Option<String>) -> bool {
    stored matches Some(p) && exists|c: Seq<u8>|
        gcm_opened_password(c, e.hash_salt(), e.stretch_salt(), e.sealing_nonce(), short) == Ok::<Seq<char>, CryptoError>(p@)
}

/// The state of the session.
pub struct Session {
    /// The master password as typed, until it is sealed or forgotten.
    pub stored_password: Option<String>,
    /// The master password sealed for easy opening.
    pub encrypted_password: Option<EncryptedPassword>,
    /// The open database.
    pub database: Option<RxDatabase>,
}

impl Session {
    /// A session with no password and no database.
    pub fn new() -> (r: Session)
        ensures
            r.stored_password is None && r.encrypted_password is None && r.database is None,
    {
        Session { stored_password: None, encrypted_password: None, database: None }
    }

    /// Stores the master password as typed.
    pub fn store_master_password(&mut self, password: String)
        ensures
            opt_text(final(self).stored_password) == Some(password@),
            final(self).encrypted_password == old(self).encrypted_password,
            final(self).database == old(self).database,
    {
        self.stored_password = Some(password);
    }

    /// Forgets the master password, as typed and as sealed.
    pub fn invalidate_master_password(&mut self)
        ensures
            final(self).stored_password is None,
            final(self).encrypted_password is None,
            final(self).database == old(self).database,
    {
        self.stored_password = None;
        self.encrypted_password = None;
    }

    /// Whether easy opening is set up: `set` when a sealed password is held, `unset`
    /// otherwise.
    pub fn locking_status(&self) -> (r: String)
        ensures
            r@ == if self.encrypted_password is Some {
                "set"@
            } else {
                "unset"@
            },
    {
        match self.encrypted_password {
            Some(_) => to_owned_string("set"),
            None => to_owned_string("unset"),
        }
    }

    /// The password to open the database with: the stored one, an error when none is.
    pub fn password_for_opening(&self) -> (r: Result<String, SessionError>)
        ensures
            match self.stored_password {
                Some(p) => r matches Ok(q) && q@ == p@,
                None => r matches Err(SessionError::NoPasswordStored),
            },
    {
        match &self.stored_password {
            Some(p) => Ok(crate::rx::rx_entry::copy_string(p)),
            None => Err(SessionError::NoPasswordStored),
        }
    }

    /// The database opened: it becomes the session's database.
    pub fn database_opened(&mut self, db: RxDatabase)
        ensures
            final(self).database == Some(db),
            final(self).stored_password == old(self).stored_password,
            final(self).encrypted_password == old(self).encrypted_password,
    {
        self.database = Some(db);
    }

    /// Closes the database, wiping its secrets (see `RxDatabase::close`): an error when none
    /// is open.
    pub fn close_database(&mut self) -> (r: Result<(), SessionError>)
        ensures
            old(self).database is None ==> r matches Err(SessionError::DatabaseNotOpen),
            old(self).database is Some ==> r is Ok,
            final(self).database is None,
            final(self).stored_password == old(self).stored_password,
            final(self).encrypted_password == old(self).encrypted_password,
    {
        match self.database.take() {
            Some(mut db) => {
                db.close();
                Ok(())
            },
            None => Err(SessionError::DatabaseNotOpen),
        }
    }

    /// Seals the stored master password for easy opening. The typed password is taken in
    /// any case: an error when none was stored, when it cannot be sealed, or when sealing
    /// fails; otherwise the sealed password replaces any held before.
    pub fn encrypt_master_password(&mut self) -> (r: Result<(), SessionError>)
        ensures
            final(self).stored_password is None,
            final(self).database == old(self).database,
            old(self).stored_password is None ==> r matches Err(SessionError::NoPasswordStored),
            old(self).stored_password matches Some(p) ==> ((r matches Err(SessionError::Unsealable)) <==> !(encode_utf8(
                p@,
            ).len() <= 5 || p@.len() > 5)),
            r is Err ==> final(self).encrypted_password == old(self).encrypted_password,
            r is Ok ==> (old(self).stored_password matches Some(p) && (final(self).encrypted_password matches Some(e)
                && sealed_from(e, p@))),
    {
        let password = match self.stored_password.take() {
            Some(p) => p,
            None => {
                return Err(SessionError::NoPasswordStored);
            },
        };
        let text = password.as_str();
        let byte_len = text.as_bytes().len();
        if !(byte_len <= 5 || text.unicode_len() > 5) {
            return Err(SessionError::Unsealable);
        }
        match EncryptedPassword::new(text) {
            Ok(e) => {
                let ghost sealed_e = e;
                assert(gcm_seals_password(
                    sealed_e.parked_secret(),
                    text,
                    sealed_e.hash_salt(),
                    sealed_e.stretch_salt(),
                    sealed_e.sealing_nonce(),
                ));
                assert(text@ == password@);
                self.encrypted_password = Some(e);
                assert(self.encrypted_password == Some(sealed_e));
                assert(old(self).stored_password == Some(password));
                assert(sealed_from(sealed_e, password@));
                Ok(())
            },
            Err(err) => Err(SessionError::Crypto(err)),
        }
    }

    /// Opens the sealed master password with a short password. With no sealed password, an
    /// error and no change. When it opens, the opened password is stored as typed and the
    /// sealed one is dropped; on any other error both stay as they were.
    pub fn decrypt_master_password(&mut self, short_password: &str) -> (r: Result<(), SessionError>)
        ensures
            final(self).database == old(self).database,
            old(self).encrypted_password is None ==> r matches Err(SessionError::NoPasswordStored),
            r is Err ==> final(self).stored_password == old(self).stored_password
                && final(self).encrypted_password == old(self).encrypted_password,
            r is Ok ==> final(self).encrypted_password is None,
            r is Ok ==> (old(self).encrypted_password matches Some(e) && opened_by(e, short_password@, final(self).stored_password)),
    {
        let opened = match &self.encrypted_password {
            None => {
                return Err(SessionError::NoPasswordStored);
            },
            Some(e) => {
                if !e.has_gcm_nonce() {
                    return Err(SessionError::Crypto(CryptoError::Decrypt));
                }
                e.decrypt(short_password)
            },
        };
        match opened {
            Ok(p) => {
                self.stored_password = Some(p);
                self.encrypted_password = None;
                Ok(())
            },
            Err(err) => Err(SessionError::Crypto(err)),
        }
    }
}

} // verus!
