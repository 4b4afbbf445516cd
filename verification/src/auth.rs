//! Credentials: the two authentication cookies, what a client is shown of
//! them, and the key file that holds the master key for private cookies.

use base64::Engine;
use vstd::prelude::*;

verus! {

/// Which of the two services a token is for.
#[derive(Clone, Copy, Debug, PartialEq, Eq, Structural)]
pub enum AuthDataType {
    Policy,
    Deliberation,
}

/// The name of the cookie that holds the token for a service.
pub open spec fn cookie_name_text(t: AuthDataType) -> Seq<char> {
    match t {
        AuthDataType::Policy => "reasoner_policy_auth"@,
        AuthDataType::Deliberation => "reasoner_deliberation_auth"@,
    }
}

impl AuthDataType {
    /// The name of the cookie that holds the token for this service.
    pub fn cookie_name(&self) -> (res: &'static str)
        ensures
            res@ == cookie_name_text(*self),
    {
        match self {
            AuthDataType::Policy => "reasoner_policy_auth",
            AuthDataType::Deliberation => "reasoner_deliberation_auth",
        }
    }
}

/// The tokens that a client holds, as it is shown them; an empty string
/// stands for a token it does not hold.
#[derive(Clone, Debug, PartialEq, Eq)]
pub struct AuthDataViewModel {
    pub policy: String,
    pub deliberation: String,
}

impl AuthDataViewModel {
    /// The view of a client that holds no token.
    pub fn new() -> (res: Self)
        ensures
            res.policy@ == Seq::<char>::empty(),
            res.deliberation@ == Seq::<char>::empty(),
    {
        Self { policy: String::new(), deliberation: String::new() }
    }

    /// The view of a client whose cookies hold the given tokens.
    pub fn from_cookies(policy: Option<String>, deliberation: Option<String>) -> (res: Self)
        ensures
            res.policy@ == match policy {
                Some(token) => token@,
                None => Seq::<char>::empty(),
            },
            res.deliberation@ == match deliberation {
                Some(token) => token@,
                None => Seq::<char>::empty(),
            },
    {
        let mut auth_data = AuthDataViewModel::new();
        if let Some(token) = policy {
            auth_data.policy = token;
        }
        if let Some(token) = deliberation {
            auth_data.deliberation = token;
        }
        auth_data
    }
}

/// A token that a client hands in, and the service it is for.
#[derive(Clone, Debug, PartialEq, Eq)]
pub struct AuthDataPostModel {
    pub t: AuthDataType,
    pub token: String,
}

/// A cookie to set at the client.
#[derive(Clone, Debug, PartialEq, Eq)]
pub struct AuthCookie {
    pub name: String,
    pub value: String,
    pub secure: bool,
    pub http_only: bool,
}

impl AuthDataPostModel {
    /// The cookie that stores this token: named after the service, holding
    /// the token, sent over secure connections only and hidden from scripts.
    pub fn cookie(self) -> (res: AuthCookie)
        ensures
            res.name@ == cookie_name_text(self.t),
            res.value@ == self.token@,
            res.secure,
            res.http_only,
    {
        AuthCookie {
            name: self.t.cookie_name().to_owned(),
            value: self.token,
            secure: true,
            http_only: true,
        }
    }
}

/// The least number of bytes of a master key.
pub const MIN_KEY_LEN: usize = 64;

/// Why the contents of a key file give no master key.
#[derive(Clone, Copy, Debug, PartialEq, Eq, Structural)]
pub enum KeyError {
    /// The contents are not base64.
    InvalidEncoding,
    /// The contents decode to `len` bytes, fewer than a master key needs.
    TooShort { len: usize },
}

#[verifier::external_type_specification]
#[verifier::external_body]
pub struct ExDecodeError(base64::DecodeError);

/// The bytes that a text stands for in base64 with the standard alphabet and
/// canonical padding; `None` for a text that is no such encoding.
pub uninterp spec fn base64_decoding(text: Seq<char>) -> Option<Seq<u8>>;

/// The text that stands for the bytes in base64 with the standard alphabet
/// and padding.
pub uninterp spec fn base64_encoding(bytes: Seq<u8>) -> Seq<char>;

/// Whether the base64 text of `len` bytes, padding included, has a length that
/// fits the machine.
pub open spec fn base64_length_fits(len: nat) -> bool {
    len / 3 * 4 + (if len % 3 > 0 {
        4nat
    } else {
        0nat
    }) <= usize::MAX
}

/// `Engine::decode` of `base64::engine::general_purpose::STANDARD`: decoding
/// depends on the text alone and either yields the decoded bytes or fails.
#[verifier::external_body]
fn base64_decode(text: &str) -> (res: Result<Vec<u8>, base64::DecodeError>)
    ensures
        match res {
            Ok(bytes) => base64_decoding(text@) == Some(bytes@),
            Err(_) => base64_decoding(text@) is None,
        },
{
    base64::engine::general_purpose::STANDARD.decode(text)
}

/// `Engine::encode` of `base64::engine::general_purpose::STANDARD`: the text
/// depends on the bytes alone. It panics where the length of the text does
/// not fit the machine, so such input is left out.
#[verifier::external_body]
fn base64_encode(bytes: &[u8]) -> (res: String)
    requires
        base64_length_fits(bytes@.len()),
    ensures
        res@ == base64_encoding(bytes@),
{
    base64::engine::general_purpose::STANDARD.encode(bytes)
}

/// Accepts decoded key material if it is long enough for a master key.
pub fn check_key_length(bytes: Vec<u8>) -> (res: Result<Vec<u8>, KeyError>)
    ensures
        res == if bytes@.len() < MIN_KEY_LEN {
            Err::<Vec<u8>, KeyError>(KeyError::TooShort { len: bytes@.len() as usize })
        } else {
            Ok::<Vec<u8>, KeyError>(bytes)
        },
{
    if bytes.len() < MIN_KEY_LEN {
        Err(KeyError::TooShort { len: bytes.len() })
    } else {
        Ok(bytes)
    }
}

/// Reads the master key from the contents of a key file: the contents are
/// the key in base64, and nothing else.
pub fn key_material(contents: &str) -> (res: Result<Vec<u8>, KeyError>)
    ensures
        match base64_decoding(contents@) {
            None => res == Err::<Vec<u8>, KeyError>(KeyError::InvalidEncoding),
            Some(bytes) => if bytes.len() < MIN_KEY_LEN {
                res == Err::<Vec<u8>, KeyError>(KeyError::TooShort { len: bytes.len() as usize })
            } else {
                res is Ok && res->Ok_0@ == bytes
            },
        },
{
    match base64_decode(contents) {
        Ok(bytes) => check_key_length(bytes),
        Err(_) => Err(KeyError::InvalidEncoding),
    }
}

/// The contents of the key file for a master key: the key in base64.
pub fn key_file_contents(master: &[u8]) -> (res: String)
    requires
        base64_length_fits(master@.len()),
    ensures
        res@ == base64_encoding(master@),
{
    base64_encode(master)
}

} // verus!
