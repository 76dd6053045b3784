use aes_gcm::aead::Aead;
use aes_gcm::{Aes256Gcm, KeyInit, Nonce};
use popcorn_hero::player::{strip_verbatim_prefix, vlc_candidates};
use popcorn_hero::user::{
    avatar_candidates, check_user_exists, create_user, decrypt, derive_key, encrypt,
    encrypt_with_nonce, save_avatar, update_username, validate_new_user, validate_pin,
    validate_username, verify_pin, ExistingUser, UserError, UserProfile,
};
use sha2::{Digest, Sha256};

#[test]
fn usernames() {
    assert_eq!(validate_username("alice"), Ok(()));
    assert_eq!(validate_username("Al-ice_42"), Ok(()));
    assert_eq!(validate_username("élodie"), Ok(()));
    assert_eq!(validate_username(""), Err(UserError::EmptyUsername));
    assert_eq!(validate_username("a b"), Err(UserError::BadUsername));
    assert_eq!(validate_username("a.b"), Err(UserError::BadUsername));
    assert_eq!(validate_username("a!"), Err(UserError::BadUsername));
}

#[test]
fn pins() {
    assert_eq!(validate_pin("0000"), Ok(()));
    assert_eq!(validate_pin("1234"), Ok(()));
    assert_eq!(validate_pin(""), Err(UserError::BadPin));
    assert_eq!(validate_pin("123"), Err(UserError::BadPin));
    assert_eq!(validate_pin("12345"), Err(UserError::BadPin));
    assert_eq!(validate_pin("12a4"), Err(UserError::BadPin));
    assert_eq!(validate_pin("١٢٣٤"), Err(UserError::BadPin));
    assert_eq!(validate_pin("+123"), Err(UserError::BadPin));
}

#[test]
fn new_user_checks_name_first() {
    assert_eq!(validate_new_user("alice", "1234"), Ok(()));
    assert_eq!(validate_new_user("", "12"), Err(UserError::EmptyUsername));
    assert_eq!(validate_new_user("a b", "12"), Err(UserError::BadUsername));
    assert_eq!(validate_new_user("alice", "12"), Err(UserError::BadPin));
}

#[test]
fn messages() {
    assert_eq!(UserError::EmptyUsername.message(), "Username cannot be empty");
    assert_eq!(
        UserError::BadUsername.message(),
        "Username can only contain letters, numbers, hyphens and underscores"
    );
    assert_eq!(UserError::BadPin.message(), "PIN must be exactly 4 digits");
    assert_eq!(UserError::UserExists.message(), "User already exists");
    assert_eq!(UserError::InvalidPin.message(), "Invalid PIN");
    assert_eq!(UserError::InvalidData.message(), "Invalid encrypted data");
    assert_eq!(UserError::Cipher.message(), "aead::Error");
    assert_eq!(
        UserError::UnsupportedImage.message(),
        "Unsupported image format. Use JPG, PNG, WebP, GIF or BMP."
    );
}

#[test]
fn creating_a_user() {
    let p = create_user("alice", "1234", "id-1".to_string(), "2024".to_string(), false);
    assert_eq!(
        p,
        Ok(UserProfile {
            id: "id-1".to_string(),
            username: "alice".to_string(),
            created_at: "2024".to_string(),
        })
    );
    assert_eq!(
        create_user("alice", "1234", "id".to_string(), "t".to_string(), true),
        Err(UserError::UserExists)
    );
    assert_eq!(
        create_user("", "1234", "id".to_string(), "t".to_string(), true),
        Err(UserError::EmptyUsername)
    );
    assert_eq!(
        create_user("alice", "x", "id".to_string(), "t".to_string(), false),
        Err(UserError::BadPin)
    );
}

#[test]
fn renaming_a_user() {
    let p = UserProfile {
        id: "old-id".to_string(),
        username: "alice".to_string(),
        created_at: "2024".to_string(),
    };
    assert_eq!(
        update_username(p, "id-1", "bob"),
        Ok(UserProfile {
            id: "id-1".to_string(),
            username: "bob".to_string(),
            created_at: "2024".to_string(),
        })
    );
    let p = UserProfile { id: "i".to_string(), username: "a".to_string(), created_at: "c".to_string() };
    assert_eq!(update_username(p, "i", "b c"), Err(UserError::BadUsername));
}

#[test]
fn discovery_file() {
    assert_eq!(
        check_user_exists(r#"{"id":"abc","username":"alice"}"#),
        Some(ExistingUser { id: "abc".to_string(), username: "alice".to_string() })
    );
    assert_eq!(check_user_exists(r#"{"id":"abc"}"#), None);
    assert_eq!(check_user_exists(r#"{"id":1,"username":"alice"}"#), None);
    assert_eq!(check_user_exists("nonsense"), None);
    assert_eq!(check_user_exists(r#"["id","username"]"#), None);
}

fn expected_key(pin: &str) -> Vec<u8> {
    let mut h = Sha256::new();
    h.update(pin.as_bytes());
    h.update(b"popcorn-hero-salt-2026");
    h.finalize().to_vec()
}

#[test]
fn key_is_the_salted_digest_of_the_pin() {
    assert_eq!(derive_key("1234"), expected_key("1234"));
    assert_eq!(derive_key(""), expected_key(""));
    assert_eq!(derive_key("1234").len(), 32);
    assert_ne!(derive_key("1234"), derive_key("1235"));
    assert_ne!(derive_key("1234"), b"1234popcorn-hero-salt-2026".to_vec());
}

#[test]
fn pin_is_verified_against_the_stored_key() {
    let stored = expected_key("4321");
    assert_eq!(verify_pin(&stored, "4321"), Ok(()));
    assert_eq!(verify_pin(&stored, "1234"), Err(UserError::InvalidPin));
    assert_eq!(verify_pin(&stored[..31], "4321"), Err(UserError::InvalidPin));
    assert_eq!(verify_pin(&[], "4321"), Err(UserError::InvalidPin));
}

#[test]
fn sealing_puts_the_nonce_in_front() {
    let nonce = [7u8; 12];
    let out = encrypt_with_nonce(b"hello", "1234", &nonce).unwrap();
    assert_eq!(&out[..12], &nonce);
    let cipher = Aes256Gcm::new_from_slice(&expected_key("1234")).unwrap();
    let want = cipher.encrypt(Nonce::from_slice(&nonce), b"hello".as_ref()).unwrap();
    assert_eq!(&out[12..], want.as_slice());
    assert_eq!(out.len(), 12 + 5 + 16);
    assert_ne!(&out[12..17], b"hello");
}

#[test]
fn sealing_and_opening_round_trip() {
    let sealed = encrypt(b"{\"id\":\"x\"}", "1234").unwrap();
    assert_eq!(decrypt(&sealed, "1234"), Ok(b"{\"id\":\"x\"}".to_vec()));
    let again = encrypt(b"{\"id\":\"x\"}", "1234").unwrap();
    assert_ne!(sealed, again);
    assert_eq!(decrypt(&again, "1234"), Ok(b"{\"id\":\"x\"}".to_vec()));
    let empty = encrypt(b"", "0000").unwrap();
    assert_eq!(empty.len(), 12 + 16);
    assert_eq!(decrypt(&empty, "0000"), Ok(vec![]));
}

#[test]
fn opening_with_the_wrong_pin_fails() {
    let sealed = encrypt(b"secret", "1234").unwrap();
    assert_eq!(decrypt(&sealed, "1235"), Err(UserError::Cipher));
}

#[test]
fn opening_damaged_data_fails() {
    let mut sealed = encrypt(b"secret", "1234").unwrap();
    let last = sealed.len() - 1;
    sealed[last] ^= 1;
    assert_eq!(decrypt(&sealed, "1234"), Err(UserError::Cipher));
    assert_eq!(decrypt(&[0u8; 12], "1234"), Err(UserError::Cipher));
}

#[test]
fn opening_short_data_fails() {
    assert_eq!(decrypt(&[], "1234"), Err(UserError::InvalidData));
    assert_eq!(decrypt(&[0u8; 11], "1234"), Err(UserError::InvalidData));
}

#[test]
fn avatar_names() {
    assert_eq!(save_avatar("/home/me/face.PNG"), Ok("avatar.png".to_string()));
    assert_eq!(save_avatar("C:\\pics\\me.jpeg"), Ok("avatar.jpeg".to_string()));
    assert_eq!(save_avatar("me.webp"), Ok("avatar.webp".to_string()));
    assert_eq!(save_avatar("me.tiff"), Err(UserError::UnsupportedImage));
    assert_eq!(save_avatar("me"), Err(UserError::UnsupportedImage));
    assert_eq!(save_avatar(""), Err(UserError::UnsupportedImage));
    assert_eq!(
        avatar_candidates(),
        vec!["avatar.jpg", "avatar.jpeg", "avatar.png", "avatar.webp", "avatar.gif", "avatar.bmp"]
    );
}

#[test]
fn verbatim_prefix_is_stripped() {
    assert_eq!(strip_verbatim_prefix("\\\\?\\C:\\films\\a.mkv"), "C:\\films\\a.mkv");
    assert_eq!(strip_verbatim_prefix("C:\\films\\a.mkv"), "C:\\films\\a.mkv");
    assert_eq!(strip_verbatim_prefix("/films/a.mkv"), "/films/a.mkv");
    assert_eq!(strip_verbatim_prefix("\\\\?\\"), "");
    assert_eq!(strip_verbatim_prefix("\\\\?"), "\\\\?");
    assert_eq!(strip_verbatim_prefix(""), "");
}

#[test]
fn player_candidates() {
    assert_eq!(
        vlc_candidates(),
        vec![
            "C:\\Program Files\\VideoLAN\\VLC\\vlc.exe",
            "C:\\Program Files (x86)\\VideoLAN\\VLC\\vlc.exe",
            "vlc",
        ]
    );
}
