use keepassrx::gui::session::{Session, SessionError};
use keepassrx::crypto::{hash_password, open_password, seal_password, CryptoError, EncryptedValue, KeyFile, MasterKey};

const SALT: [u8; 16] = [7; 16];
const NONCE: [u8; 24] = [9; 24];

#[test]
fn easy_open_round_trip() {
    let sealed = seal_password("VeryLongPassword", &SALT, &NONCE).expect("seal");
    assert_ne!(sealed.as_slice(), b"VeryLongPassword");
    let opened = open_password(&sealed, &SALT, &NONCE, "VeryL").expect("open");
    assert_eq!(opened, "VeryLongPassword");
}

#[test]
fn easy_open_refuses_wrong_short_password() {
    let sealed = seal_password("12345678910", &SALT, &NONCE).expect("seal");
    assert_eq!(open_password(&sealed, &SALT, &NONCE, "1234").unwrap_err(), CryptoError::Decrypt);
    assert_eq!(open_password(&sealed, &SALT, &NONCE, "12345").unwrap(), "12345678910");
}

#[test]
fn short_passwords_seal_whole() {
    let sealed = seal_password("abc", &SALT, &NONCE).expect("seal");
    assert_eq!(open_password(&sealed, &SALT, &NONCE, "abc").unwrap(), "abc");
}

#[test]
fn hashing_is_deterministic_and_needs_a_proper_salt() {
    let a = hash_password("secret", &SALT).expect("hash");
    let b = hash_password("secret", &SALT).expect("hash");
    assert_eq!(a, b);
    assert_eq!(a.len(), 32);
    assert_ne!(hash_password("other", &SALT).unwrap(), a);
    assert_eq!(hash_password("secret", &[1, 2, 3]).unwrap_err(), CryptoError::Hash);
}

#[test]
fn sealed_values_expose_unchanged() {
    let master = MasterKey::new().expect("master key");
    let mut value = EncryptedValue::new(&master, 4, b"key file bytes".to_vec()).expect("seal");
    assert_eq!(value.expose(&master).unwrap(), b"key file bytes");
    assert_eq!(value.expose(&master).unwrap(), b"key file bytes");
    let other = MasterKey::new().expect("master key");
    assert_eq!(value.expose(&other).unwrap_err(), CryptoError::Decrypt);
    assert_eq!(value.expose(&master).unwrap(), b"key file bytes");
}

#[test]
fn key_files_keep_their_bytes_when_sealed() {
    let master = MasterKey::new().expect("master key");
    let plain = KeyFile::Unencrypted(b"abc".to_vec());
    assert!(plain.is_unencrypted());
    assert_eq!(plain.bytes_unencrypted().unwrap(), b"abc");
    let mut sealed = plain.encrypt(&master, 1).expect("seal");
    assert!(!sealed.is_unencrypted());
    assert!(sealed.bytes_unencrypted().is_none());
    assert_eq!(sealed.bytes(&master).unwrap(), b"abc");
    assert_eq!(sealed.bytes(&master).unwrap(), b"abc");
    let mut again = sealed.encrypt(&master, 2).expect("already sealed");
    assert_eq!(again.bytes(&master).unwrap(), b"abc");
    let mut empty = KeyFile::default();
    assert_eq!(empty.bytes(&master).unwrap(), b"");
    empty.wipe();
}

#[test]
fn wiped_key_files_hold_nothing() {
    let master = MasterKey::new().expect("master key");
    let mut plain = KeyFile::Unencrypted(b"secret".to_vec());
    plain.wipe();
    assert!(plain.is_unencrypted());
    assert_eq!(plain.bytes_unencrypted().unwrap(), b"");
    let mut sealed = KeyFile::Unencrypted(b"secret".to_vec()).encrypt(&master, 4).expect("seal");
    sealed.wipe();
    assert!(!sealed.is_unencrypted());
    assert!(sealed.bytes(&master).is_err());
}

#[test]
fn stretched_easy_open_needs_a_proper_salt() {
    let nonce = [3u8; 12];
    assert_eq!(
        keepassrx::easy_open::open_password_gcm(&[], &[1, 2, 3], "c2FsdHNhbHQ", &nonce, "hunte").unwrap_err(),
        CryptoError::Hash
    );
    assert_eq!(
        keepassrx::easy_open::seal_password_gcm("hunter2", &[1, 2, 3], "c2FsdHNhbHQ", &nonce).unwrap_err(),
        CryptoError::Hash
    );
}

#[test]
fn session_steps_keep_the_master_password_state() {
    let mut session = Session::new();
    assert_eq!(session.locking_status(), "unset");
    assert!(matches!(session.password_for_opening(), Err(SessionError::NoPasswordStored)));
    assert!(matches!(session.close_database(), Err(SessionError::DatabaseNotOpen)));
    assert!(matches!(session.encrypt_master_password(), Err(SessionError::NoPasswordStored)));
    session.store_master_password("hunter22".to_string());
    assert_eq!(session.password_for_opening().unwrap(), "hunter22");
    session.invalidate_master_password();
    assert!(session.stored_password.is_none() && session.encrypted_password.is_none());
    session.store_master_password("ééé".to_string());
    assert!(matches!(session.encrypt_master_password(), Err(SessionError::Unsealable)));
    assert!(session.stored_password.is_none());
    assert!(matches!(session.decrypt_master_password("short"), Err(SessionError::NoPasswordStored)));
    assert!(session.stored_password.is_none() && session.encrypted_password.is_none());
}
