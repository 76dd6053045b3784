//! The user's account: what a name and a PIN must look like, how the profile
//! is sealed under the PIN, and where the avatar goes.

use vstd::prelude::*;
use vstd::slice::slice_subrange;
use vstd::slice::slice_to_vec;
use crate::media::{extension, extension_of};
use crate::metadata::{json_string_field, read_json_string};
use crate::text::{append_str, is_ascii_digit, lowercase, str_eq, to_lowercase};

verus! {

/// The user's profile, which is stored sealed.
#[derive(Debug, PartialEq, Eq)]
pub struct UserProfile {
    pub id: String,
    pub username: String,
    pub created_at: String,
}

/// What a `UserProfile` holds, as mathematical values.
pub struct UserProfileView {
    pub id: Seq<char>,
    pub username: Seq<char>,
    pub created_at: Seq<char>,
}

impl View for UserProfile {
    type V = UserProfileView;

    open spec fn view(&self) -> UserProfileView {
        UserProfileView { id: self.id@, username: self.username@, created_at: self.created_at@ }
    }
}

/// What is known of the user before the PIN is given.
#[derive(Debug, PartialEq, Eq)]
pub struct ExistingUser {
    pub id: String,
    pub username: String,
}

/// What a `ExistingUser` holds, as mathematical values.
pub struct ExistingUserView {
    pub id: Seq<char>,
    pub username: Seq<char>,
}

impl View for ExistingUser {
    type V = ExistingUserView;

    open spec fn view(&self) -> ExistingUserView {
        ExistingUserView { id: self.id@, username: self.username@ }
    }
}

impl DeepView for ExistingUser {
    type V = ExistingUserView;

    open spec fn deep_view(&self) -> ExistingUserView {
        self@
    }
}

/// Why something about the account was refused.
#[derive(Clone, Copy, Debug, PartialEq, Eq, Structural)]
pub enum UserError {
    EmptyUsername,
    BadUsername,
    BadPin,
    UserExists,
    InvalidPin,
    InvalidData,
    Cipher,
    UnsupportedImage,
}

impl UserError {
    /// The message shown to the user.
    pub open spec fn message_text(self) -> Seq<char> {
        match self {
            UserError::EmptyUsername => "Username cannot be empty"@,
            UserError::BadUsername =>
                "Username can only contain letters, numbers, hyphens and underscores"@,
            UserError::BadPin => "PIN must be exactly 4 digits"@,
            UserError::UserExists => "User already exists"@,
            UserError::InvalidPin => "Invalid PIN"@,
            UserError::InvalidData => "Invalid encrypted data"@,
            UserError::Cipher => "aead::Error"@,
            UserError::UnsupportedImage =>
                "Unsupported image format. Use JPG, PNG, WebP, GIF or BMP."@,
        }
    }

    /// The message shown to the user.
    pub fn message(&self) -> (r: String)
        ensures
            r@ == self.message_text(),
    {
        match self {
            UserError::EmptyUsername => "Username cannot be empty".to_owned(),
            UserError::BadUsername =>
                "Username can only contain letters, numbers, hyphens and underscores".to_owned(),
            UserError::BadPin => "PIN must be exactly 4 digits".to_owned(),
            UserError::UserExists => "User already exists".to_owned(),
            UserError::InvalidPin => "Invalid PIN".to_owned(),
            UserError::InvalidData => "Invalid encrypted data".to_owned(),
            UserError::Cipher => "aead::Error".to_owned(),
            UserError::UnsupportedImage =>
                "Unsupported image format. Use JPG, PNG, WebP, GIF or BMP.".to_owned(),
        }
    }
}

/// Whether `char::is_alphanumeric` holds of a character.
pub uninterp spec fn unicode_alphanumeric(c: char) -> bool;

/// `char::is_alphanumeric`: whether `c` is a letter or a number as Unicode
/// classes them.
#[verifier::external_body]
pub(crate) fn is_alphanumeric(c: char) -> (r: bool)
    ensures
        r == unicode_alphanumeric(c),
{
    c.is_alphanumeric()
}

/// Whether a character may stand in a user name.
pub open spec fn is_username_char(c: char) -> bool {
    unicode_alphanumeric(c) || c == '-' || c == '_'
}

/// What is wrong with a user name, if anything: it must not be empty and
/// must hold letters, numbers, hyphens and underscores only.
pub open spec fn username_fault(username: Seq<char>) -> Option<UserError> {
    if username.len() == 0 {
        Some(UserError::EmptyUsername)
    } else if !(forall|i: int| 0 <= i < username.len() ==> is_username_char(#[trigger] username[i])) {
        Some(UserError::BadUsername)
    } else {
        None
    }
}

/// Checks a user name.
pub fn validate_username(username: &str) -> (r: Result<(), UserError>)
    ensures
        match r {
            Ok(_) => username_fault(username@) is None,
            Err(e) => username_fault(username@) == Some(e),
        },
{
    if username.is_empty() {
        return Err(UserError::EmptyUsername);
    }
    for c in it: username.chars()
        invariant
            it.seq() == username@,
            forall|i: int| 0 <= i < it.index() ==> is_username_char(#[trigger] username@[i]),
    {
        if !(is_alphanumeric(c) || c == '-' || c == '_') {
            assert(!is_username_char(username@[it.index()]));
            return Err(UserError::BadUsername);
        }
    }
    Ok(())
}

/// Whether a text is a PIN: exactly four digits of `0` to `9`.
pub open spec fn is_pin(pin: Seq<char>) -> bool {
    pin.len() == 4 && forall|i: int| 0 <= i < pin.len() ==> is_ascii_digit(#[trigger] pin[i])
}

/// Checks a PIN.
pub fn validate_pin(pin: &str) -> (r: Result<(), UserError>)
    ensures
        match r {
            Ok(_) => is_pin(pin@),
            Err(e) => e == UserError::BadPin && !is_pin(pin@),
        },
{
    let mut count: usize = 0;
    for c in it: pin.chars()
        invariant
            it.seq() == pin@,
            count == it.index(),
            count <= 4,
            forall|i: int| 0 <= i < it.index() ==> is_ascii_digit(#[trigger] pin@[i]),
    {
        if count == 4 || !(c >= '0' && c <= '9') {
            assert(count == 4 || !is_ascii_digit(pin@[it.index()]));
            return Err(UserError::BadPin);
        }
        count = count + 1;
    }
    if count == 4 {
        Ok(())
    } else {
        Err(UserError::BadPin)
    }
}

/// What stands in the way of a new account, if anything: the name is checked
/// first, then the PIN.
pub open spec fn new_user_fault(username: Seq<char>, pin: Seq<char>) -> Option<UserError> {
    match username_fault(username) {
        Some(e) => Some(e),
        None => if is_pin(pin) {
            None
        } else {
            Some(UserError::BadPin)
        },
    }
}

/// Checks the name and the PIN of an account to be created.
pub fn validate_new_user(username: &str, pin: &str) -> (r: Result<(), UserError>)
    ensures
        match r {
            Ok(_) => new_user_fault(username@, pin@) is None,
            Err(e) => new_user_fault(username@, pin@) == Some(e),
        },
{
    match validate_username(username) {
        Err(e) => Err(e),
        Ok(_) => validate_pin(pin),
    }
}

/// The profile of a new account. The application keeps one account only:
/// `user_exists` says that there is one already.
pub fn create_user(username: &str, pin: &str, id: String, created_at: String, user_exists: bool)
    -> (r: Result<UserProfile, UserError>)
    ensures
        match r {
            Ok(p) => new_user_fault(username@, pin@) is None && !user_exists && p@ == (
            UserProfileView { id: id@, username: username@, created_at: created_at@ }),
            Err(e) => match new_user_fault(username@, pin@) {
                Some(fault) => e == fault,
                None => user_exists && e == UserError::UserExists,
            },
        },
{
    match validate_new_user(username, pin) {
        Err(e) => Err(e),
        Ok(_) => if user_exists {
            Err(UserError::UserExists)
        } else {
            Ok(UserProfile { id, username: username.to_owned(), created_at })
        },
    }
}

/// The profile under a new name; the day of creation stays.
pub fn update_username(profile: UserProfile, user_id: &str, new_username: &str) -> (r: Result<
    UserProfile,
    UserError,
>)
    ensures
        match r {
            Ok(p) => username_fault(new_username@) is None && p@ == (UserProfileView {
                id: user_id@,
                username: new_username@,
                created_at: profile.created_at@,
            }),
            Err(e) => username_fault(new_username@) == Some(e),
        },
{
    match validate_username(new_username) {
        Err(e) => Err(e),
        Ok(_) => Ok(
            UserProfile {
                id: user_id.to_owned(),
                username: new_username.to_owned(),
                created_at: profile.created_at,
            },
        ),
    }
}

/// What the discovery file of an account says: the identifier and the name,
/// when both stand there as strings.
pub open spec fn discovered_user(meta: Seq<char>) -> Option<ExistingUserView> {
    match (json_string_field(meta, "id"@), json_string_field(meta, "username"@)) {
        (Some(Some(id)), Some(Some(username))) => Some(
            ExistingUserView { id: id, username: username },
        ),
        _ => None,
    }
}

/// Reads the discovery file of an account.
pub fn check_user_exists(meta: &str) -> (r: Option<ExistingUser>)
    ensures
        r.deep_view() == discovered_user(meta@),
{
    match read_json_string(meta, "id") {
        Some(Some(id)) => match read_json_string(meta, "username") {
            Some(Some(username)) => Some(ExistingUser { id, username }),
            _ => None,
        },
        _ => None,
    }
}

/// The SHA-256 digest of a byte string.
pub uninterp spec fn sha256(data: Seq<u8>) -> Seq<u8>;

/// `sha2::Sha256::digest`: the SHA-256 digest of `data`, which is 32 bytes
/// long.
#[verifier::external_body]
pub(crate) fn sha256_digest(data: &[u8]) -> (r: Vec<u8>)
    ensures
        r@ == sha256(data@),
        r@.len() == 32,
{
    <sha2::Sha256 as sha2::Digest>::digest(data).to_vec()
}

/// The key that a PIN gives: the digest of the PIN followed by a fixed salt.
pub open spec fn key_of(pin: Seq<char>) -> Seq<u8> {
    sha256(vstd::utf8::encode_utf8(pin) + vstd::utf8::encode_utf8("popcorn-hero-salt-2026"@))
}

/// Derives the 256-bit key from a PIN.
pub fn derive_key(pin: &str) -> (r: Vec<u8>)
    ensures
        r@ == key_of(pin@),
        r@.len() == 32,
{
    let mut buf = slice_to_vec(pin.as_bytes());
    let salt = slice_to_vec("popcorn-hero-salt-2026".as_bytes());
    let mut i: usize = 0;
    let ghost start = buf@;
    assert(start + salt@.take(0) =~= start);
    while i < salt.len()
        invariant
            i <= salt.len(),
            buf@ == start + salt@.take(i as int),
        decreases salt.len() - i,
    {
        buf.push(salt[i]);
        assert(start + salt@.take(i + 1) =~= (start + salt@.take(i as int)).push(salt@[i as int]));
        i = i + 1;
    }
    assert(salt@.take(i as int) =~= salt@);
    sha256_digest(buf.as_slice())
}

/// Whether `pin` is the PIN whose key is stored.
pub fn verify_pin(stored_key: &[u8], pin: &str) -> (r: Result<(), UserError>)
    ensures
        match r {
            Ok(_) => stored_key@ == key_of(pin@),
            Err(e) => e == UserError::InvalidPin && stored_key@ != key_of(pin@),
        },
{
    let key = derive_key(pin);
    if stored_key.len() != key.len() {
        return Err(UserError::InvalidPin);
    }
    let mut i: usize = 0;
    while i < key.len()
        invariant
            i <= key.len(),
            key.len() == stored_key.len(),
            key@ == key_of(pin@),
            forall|k: int| 0 <= k < i ==> stored_key@[k] == key@[k],
        decreases key.len() - i,
    {
        if stored_key[i] != key[i] {
            return Err(UserError::InvalidPin);
        }
        i = i + 1;
    }
    assert(stored_key@ =~= key@);
    Ok(())
}

/// What AES-256-GCM makes of a message under a key and a nonce: the
/// ciphertext with its tag, or nothing where the cipher refuses.
pub uninterp spec fn aes256_gcm_sealed(key: Seq<u8>, nonce: Seq<u8>, message: Seq<u8>) -> Option<
    Seq<u8>,
>;

/// What AES-256-GCM reads out of a ciphertext under a key and a nonce: the
/// message, or nothing where the tag does not fit.
pub uninterp spec fn aes256_gcm_opened(key: Seq<u8>, nonce: Seq<u8>, sealed: Seq<u8>) -> Option<
    Seq<u8>,
>;

/// `Aes256Gcm::new_from_slice` on the key, then `Aead::encrypt` with the
/// nonce: the ciphertext of `message`, `None` where either refuses. The key
/// is 32 bytes and the nonce 12 bytes long, as the cipher asks.
#[verifier::external_body]
pub(crate) fn seal(key: &[u8], nonce: &[u8], message: &[u8]) -> (r: Option<Vec<u8>>)
    requires
        key@.len() == 32,
        nonce@.len() == 12,
    ensures
        match r {
            Some(sealed) => aes256_gcm_sealed(key@, nonce@, message@) == Some(sealed@),
            None => aes256_gcm_sealed(key@, nonce@, message@) is None,
        },
{
    let cipher = match <aes_gcm::Aes256Gcm as aes_gcm::KeyInit>::new_from_slice(key) {
        Ok(c) => c,
        Err(_) => return None,
    };
    aes_gcm::aead::Aead::encrypt(&cipher, aes_gcm::Nonce::from_slice(nonce), message).ok()
}

/// `Aes256Gcm::new_from_slice` on the key, then `Aead::decrypt` with the
/// nonce: the message in `sealed`, `None` where either refuses. The key is 32
/// bytes and the nonce 12 bytes long, as the cipher asks.
#[verifier::external_body]
pub(crate) fn open(key: &[u8], nonce: &[u8], sealed: &[u8]) -> (r: Option<Vec<u8>>)
    requires
        key@.len() == 32,
        nonce@.len() == 12,
    ensures
        match r {
            Some(message) => aes256_gcm_opened(key@, nonce@, sealed@) == Some(message@),
            None => aes256_gcm_opened(key@, nonce@, sealed@) is None,
        },
{
    let cipher = match <aes_gcm::Aes256Gcm as aes_gcm::KeyInit>::new_from_slice(key) {
        Ok(c) => c,
        Err(_) => return None,
    };
    aes_gcm::aead::Aead::decrypt(&cipher, aes_gcm::Nonce::from_slice(nonce), sealed).ok()
}

/// `rand::thread_rng` and `RngCore::fill_bytes` on twelve bytes: a random
/// nonce. Nothing is promised of what was drawn.
#[verifier::external_body]
pub(crate) fn random_nonce() -> (r: [u8; 12]) {
    let mut nonce = [0u8; 12];
    rand::RngCore::fill_bytes(&mut rand::thread_rng(), &mut nonce);
    nonce
}

/// What is stored for `data` sealed under `pin` with `nonce`: the nonce, then
/// the ciphertext.
pub open spec fn encrypted(data: Seq<u8>, pin: Seq<char>, nonce: Seq<u8>) -> Option<Seq<u8>> {
    match aes256_gcm_sealed(key_of(pin), nonce, data) {
        Some(sealed) => Some(nonce + sealed),
        None => None,
    }
}

/// Seals `data` under the PIN with the given nonce, and puts the nonce in
/// front.
pub fn encrypt_with_nonce(data: &[u8], pin: &str, nonce: &[u8; 12]) -> (r: Result<
    Vec<u8>,
    UserError,
>)
    ensures
        match r {
            Ok(out) => encrypted(data@, pin@, nonce@) == Some(out@),
            Err(e) => e == UserError::Cipher && encrypted(data@, pin@, nonce@) is None,
        },
{
    let key = derive_key(pin);
    let nonce = nonce.as_slice();
    match seal(key.as_slice(), nonce, data) {
        None => Err(UserError::Cipher),
        Some(sealed) => {
            let mut out = slice_to_vec(nonce);
            let mut i: usize = 0;
            assert(nonce@ + sealed@.take(0) =~= nonce@);
            while i < sealed.len()
                invariant
                    i <= sealed.len(),
                    out@ == nonce@ + sealed@.take(i as int),
                decreases sealed.len() - i,
            {
                out.push(sealed[i]);
                assert(nonce@ + sealed@.take(i + 1) =~= (nonce@ + sealed@.take(i as int)).push(
                    sealed@[i as int],
                ));
                i = i + 1;
            }
            assert(sealed@.take(i as int) =~= sealed@);
            Ok(out)
        },
    }
}

/// Whether the cipher refuses to seal `data` under `pin` with some nonce.
pub open spec fn sealing_can_fail(data: Seq<u8>, pin: Seq<char>) -> bool {
    exists|nonce: Seq<u8>| nonce.len() == 12 && #[trigger] encrypted(data, pin, nonce) is None
}

/// Seals `data` under the PIN with a fresh random nonce. The result is the
/// nonce that was drawn, then the ciphertext under it; it fails only where
/// the cipher refuses under the nonce that was drawn.
pub fn encrypt(data: &[u8], pin: &str) -> (r: Result<Vec<u8>, UserError>)
    ensures
        match r {
            Ok(out) => out@.len() >= 12 && encrypted(data@, pin@, out@.take(12)) == Some(out@),
            Err(e) => e == UserError::Cipher && sealing_can_fail(data@, pin@),
        },
{
    let nonce = random_nonce();
    let r = encrypt_with_nonce(data, pin, &nonce);
    proof {
        if r is Ok {
            assert(r->Ok_0@.take(12) =~= nonce@);
        } else {
            assert(nonce@.len() == 12);
            assert(encrypted(data@, pin@, nonce@) is None);
        }
    }
    r
}

/// What `data` holds when it is read under `pin`: its first twelve bytes are
/// the nonce, the rest the ciphertext.
pub open spec fn decrypted(data: Seq<u8>, pin: Seq<char>) -> Result<Seq<u8>, UserError> {
    if data.len() < 12 {
        Err(UserError::InvalidData)
    } else {
        match aes256_gcm_opened(key_of(pin), data.take(12), data.skip(12)) {
            Some(message) => Ok(message),
            None => Err(UserError::Cipher),
        }
    }
}

/// Reads what was sealed under the PIN.
pub fn decrypt(data: &[u8], pin: &str) -> (r: Result<Vec<u8>, UserError>)
    ensures
        match r {
            Ok(message) => decrypted(data@, pin@) == Ok::<Seq<u8>, UserError>(message@),
            Err(e) => decrypted(data@, pin@) == Err::<Seq<u8>, UserError>(e),
        },
{
    if data.len() < 12 {
        return Err(UserError::InvalidData);
    }
    let key = derive_key(pin);
    let nonce = slice_subrange(data, 0, 12);
    let sealed = slice_subrange(data, 12, data.len());
    assert(nonce@ == data@.take(12));
    assert(sealed@ == data@.skip(12));
    match open(key.as_slice(), nonce, sealed) {
        Some(message) => Ok(message),
        None => Err(UserError::Cipher),
    }
}

/// Whether an extension, in lower case, is that of an image that can serve
/// as avatar.
pub open spec fn is_image_extension(ext: Seq<char>) -> bool {
    ext == "jpg"@ || ext == "jpeg"@ || ext == "png"@ || ext == "webp"@ || ext == "gif"@ || ext
        == "bmp"@
}

/// The file name under which the image at `source_path` is kept as avatar:
/// `avatar.` and the image's extension in lower case.
pub open spec fn avatar_name_of(source_path: Seq<char>) -> Option<Seq<char>> {
    let ext = match extension_of(source_path) {
        Some(e) => lowercase(e),
        None => lowercase(Seq::empty()),
    };
    if is_image_extension(ext) {
        Some("avatar."@ + ext)
    } else {
        None
    }
}

/// The file name for a new avatar.
pub fn save_avatar(source_path: &str) -> (r: Result<String, UserError>)
    ensures
        match r {
            Ok(name) => avatar_name_of(source_path@) == Some(name@),
            Err(e) => e == UserError::UnsupportedImage && avatar_name_of(source_path@) is None,
        },
{
    let ext = match extension(source_path) {
        Some(e) => to_lowercase(e.as_str()),
        None => to_lowercase(""),
    };
    proof {
        reveal_strlit("");
        assert(""@ =~= Seq::<char>::empty());
    }
    let e = ext.as_str();
    if str_eq(e, "jpg") || str_eq(e, "jpeg") || str_eq(e, "png") || str_eq(e, "webp") || str_eq(
        e,
        "gif",
    ) || str_eq(e, "bmp") {
        let mut name = "avatar.".to_owned();
        append_str(&mut name, e);
        Ok(name)
    } else {
        Err(UserError::UnsupportedImage)
    }
}

/// The file names under which an avatar may be kept, in the order in which
/// they are looked for.
pub fn avatar_candidates() -> (r: Vec<String>)
    ensures
        r.deep_view() == seq![
            "avatar.jpg"@,
            "avatar.jpeg"@,
            "avatar.png"@,
            "avatar.webp"@,
            "avatar.gif"@,
            "avatar.bmp"@,
        ],
{
    let mut v: Vec<String> = Vec::new();
    v.push("avatar.jpg".to_owned());
    v.push("avatar.jpeg".to_owned());
    v.push("avatar.png".to_owned());
    v.push("avatar.webp".to_owned());
    v.push("avatar.gif".to_owned());
    v.push("avatar.bmp".to_owned());
    assert(v.deep_view() =~= seq![
        "avatar.jpg"@,
        "avatar.jpeg"@,
        "avatar.png"@,
        "avatar.webp"@,
        "avatar.gif"@,
        "avatar.bmp"@,
    ]);
    v
}

} // verus!
