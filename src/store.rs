//! The pure side of the credential and message store: which row records a
//! chat message, and how a password is checked against, or turned into, the
//! stored Argon2 hash. The database itself is reached by the server.
use vstd::prelude::*;
use argon2::password_hash::Salt;
use argon2::{Argon2, PasswordHash, PasswordHasher, PasswordVerifier};
use crate::connection::AuthVerdict;
use crate::protocol::{ChatMessage, ChatMessageContent, ContentModel, MessageModel};

verus! {

/// The discriminator stored with a text message.
pub const TEXT_CONTENT: u8 = 1;

/// The discriminator stored with an image message.
pub const IMAGE_CONTENT: u8 = 2;

/// The discriminator stored with a file message.
pub const FILE_CONTENT: u8 = 3;

/// Why the store could not do what was asked.
#[derive(Clone, Copy, Debug, PartialEq, Eq, Structural)]
pub enum StoreError {
    /// No user of that name is registered.
    NoSuchUser,
    /// The stored hash is not a valid PHC string.
    MalformedHash,
    /// The server-wide salt has not been loaded.
    MissingSalt,
    /// Hashing the password failed.
    HashFailed,
    /// The database failed.
    Database,
}

/// One row of the append-only message log.
pub struct StoredMessage {
    pub sender: String,
    /// `TEXT_CONTENT`, `IMAGE_CONTENT` or `FILE_CONTENT`.
    pub content_type: u8,
    pub text: Option<String>,
    pub filename: Option<String>,
    pub content: Option<Vec<u8>>,
}

/// The row for a message, as plain values: sender, discriminator, text,
/// file name and binary payload.
pub open spec fn row_of(m: MessageModel) -> (
    Seq<char>,
    u8,
    Option<Seq<char>>,
    Option<Seq<char>>,
    Option<Seq<u8>>,
) {
    match m.content {
        ContentModel::Text(t) => (m.sender, TEXT_CONTENT, Some(t), None, None),
        ContentModel::Image(d) => (m.sender, IMAGE_CONTENT, None, None, Some(d)),
        ContentModel::File(n, d) => (m.sender, FILE_CONTENT, None, Some(n), Some(d)),
    }
}

pub open spec fn opt_chars(o: Option<String>) -> Option<Seq<char>> {
    match o {
        Some(s) => Some(s@),
        None => None,
    }
}

pub open spec fn opt_bytes(o: Option<Vec<u8>>) -> Option<Seq<u8>> {
    match o {
        Some(v) => Some(v@),
        None => None,
    }
}

impl StoredMessage {
    pub open spec fn row(&self) -> (
        Seq<char>,
        u8,
        Option<Seq<char>>,
        Option<Seq<char>>,
        Option<Seq<u8>>,
    ) {
        (
            self.sender@,
            self.content_type,
            opt_chars(self.text),
            opt_chars(self.filename),
            opt_bytes(self.content),
        )
    }

    /// The row that records `message`.
    pub fn of(message: ChatMessage) -> (r: StoredMessage)
        ensures
            r.row() == row_of(message@),
    {
        let ChatMessage { sender, content } = message;
        match content {
            ChatMessageContent::Text(t) => StoredMessage {
                sender,
                content_type: TEXT_CONTENT,
                text: Some(t),
                filename: None,
                content: None,
            },
            ChatMessageContent::Image(d) => StoredMessage {
                sender,
                content_type: IMAGE_CONTENT,
                text: None,
                filename: None,
                content: Some(d),
            },
            ChatMessageContent::File(n, d) => StoredMessage {
                sender,
                content_type: FILE_CONTENT,
                text: None,
                filename: Some(n),
                content: Some(d),
            },
        }
    }
}

/// Whether `PasswordHash::new` accepts a string as a PHC hash.
pub uninterp spec fn phc_parses(phc: Seq<char>) -> bool;

/// Whether Argon2 with its default parameters verifies a password against a
/// parsed PHC hash.
pub uninterp spec fn argon2_verifies(password: Seq<char>, phc: Seq<char>) -> bool;

/// The PHC string that Argon2, with its default parameters, makes of a
/// password and a base64 salt.
pub uninterp spec fn argon2_phc(password: Seq<char>, salt: Seq<char>) -> Seq<char>;

/// Whether `Salt::from_b64` accepts the salt and Argon2, with its default
/// parameters, hashes the password with it.
pub uninterp spec fn argon2_hashes(password: Seq<char>, salt: Seq<char>) -> bool;

/// Relies on `PasswordHash::new` to parse the stored PHC string, then on
/// `PasswordVerifier::verify_password` of `Argon2::default()` to check the
/// password's bytes against it. Both depend on their arguments alone.
#[verifier::external_body]
fn verify_phc(password: &str, phc: &str) -> (r: Option<bool>)
    ensures
        r is Some <==> phc_parses(phc@),
        r matches Some(ok) ==> ok == argon2_verifies(password@, phc@),
{
    match PasswordHash::new(phc) {
        Ok(hash) => Some(Argon2::default().verify_password(password.as_bytes(), &hash).is_ok()),
        Err(_) => None,
    }
}

/// Relies on `Salt::from_b64` and `PasswordHasher::hash_password` of
/// `Argon2::default()`, serialised as a PHC string: the same password and salt
/// always give the same string. Either call may fail, on a salt it refuses.
#[verifier::external_body]
fn hash_phc(password: &str, salt: &str) -> (r: Option<String>)
    ensures
        r is Some <==> argon2_hashes(password@, salt@),
        r matches Some(h) ==> h@ == argon2_phc(password@, salt@),
{
    let salt = Salt::from_b64(salt).ok()?;
    Argon2::default().hash_password(password.as_bytes(), salt).ok().map(|h| h.to_string())
}

/// Checks a password against the hash stored for a user, given what the
/// store's lookup found: no row means no such user.
pub fn check_password(stored: Option<String>, password: &str) -> (r: Result<bool, StoreError>)
    ensures
        match stored {
            None => r == Err::<bool, StoreError>(StoreError::NoSuchUser),
            Some(h) => if phc_parses(h@) {
                r == Ok::<bool, StoreError>(argon2_verifies(password@, h@))
            } else {
                r == Err::<bool, StoreError>(StoreError::MalformedHash)
            },
        },
{
    match stored {
        None => Err(StoreError::NoSuchUser),
        Some(h) => match verify_phc(password, h.as_str()) {
            Some(ok) => Ok(ok),
            None => Err(StoreError::MalformedHash),
        },
    }
}

/// The verdict on a login from the outcome of checking its password: an
/// unknown user is refused like a wrong password; any other failure of the
/// store leaves the login undecided.
pub fn auth_verdict(checked: Result<bool, StoreError>) -> (v: AuthVerdict)
    ensures
        v == match checked {
            Ok(true) => AuthVerdict::Accepted,
            Ok(false) => AuthVerdict::Rejected,
            Err(StoreError::NoSuchUser) => AuthVerdict::Rejected,
            Err(_) => AuthVerdict::Unavailable,
        },
{
    match checked {
        Ok(true) => AuthVerdict::Accepted,
        Ok(false) => AuthVerdict::Rejected,
        Err(StoreError::NoSuchUser) => AuthVerdict::Rejected,
        Err(_) => AuthVerdict::Unavailable,
    }
}

/// The hash to store for a new user's password, made with the server-wide
/// salt; fails when the salt has not been loaded, or when hashing fails.
pub fn password_record(password: &str, salt: Option<&str>) -> (r: Result<String, StoreError>)
    ensures
        salt is None ==> r == Err::<String, StoreError>(StoreError::MissingSalt),
        salt matches Some(s) ==> (r is Ok <==> argon2_hashes(password@, s@)),
        salt matches Some(s) ==> match r {
            Ok(h) => h@ == argon2_phc(password@, s@),
            Err(e) => e == StoreError::HashFailed,
        },
{
    match salt {
        None => Err(StoreError::MissingSalt),
        Some(s) => match hash_phc(password, s) {
            Some(h) => Ok(h),
            None => Err(StoreError::HashFailed),
        },
    }
}

} // verus!
