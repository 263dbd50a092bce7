//! Checks on a create request, made before anything reaches the store.
use vstd::prelude::*;
use vstd::string::*;

verus! {

/// Longest accepted message, counted in characters.
pub const MAX_MESSAGE_CHARS: usize = 500;

/// Time to live, in seconds, of a request that names none.
pub const DEFAULT_EXPIRATION_SECS: u64 = 600;

/// What can go wrong when creating or fetching a secret.
#[derive(Debug, Clone, Copy, PartialEq, Eq, Structural)]
pub enum SecretError {
    /// The message has more than `MAX_MESSAGE_CHARS` characters.
    MessageTooLong,
    /// The requested time to live is not one of the allowed values.
    InvalidExpiration,
    /// The identifier was never stored, was already taken, or has expired.
    NotFound,
    /// Every freshly drawn identifier was already in use.
    IdCollision,
}

/// A create request as a client sends it.
pub struct CreateSecretPayload {
    pub message: String,
    pub expires_in_secs: Option<u64>,
}

/// The times to live that a secret may be given: 1, 5, 10 and 30 minutes,
/// 1, 6, 12 and 24 hours.
pub open spec fn allowed_expiration(secs: u64) -> bool {
    secs == 60 || secs == 300 || secs == 600 || secs == 1800 || secs == 3600 || secs == 21600
        || secs == 43200 || secs == 86400
}

/// A message is short enough when it has at most `MAX_MESSAGE_CHARS` characters.
pub open spec fn message_fits(message: Seq<char>) -> bool {
    message.len() <= MAX_MESSAGE_CHARS
}

/// The time to live a request asks for, the default standing in for none.
pub open spec fn requested_expiration(expires_in_secs: Option<u64>) -> u64 {
    match expires_in_secs {
        Some(secs) => secs,
        None => DEFAULT_EXPIRATION_SECS,
    }
}

/// The outcome of validating a request: the time to live to store it with,
/// or the first reason to reject it (length is checked before expiration).
pub open spec fn validation(message: Seq<char>, expires_in_secs: Option<u64>) -> Result<u64, SecretError> {
    if !message_fits(message) {
        Err(SecretError::MessageTooLong)
    } else if !allowed_expiration(requested_expiration(expires_in_secs)) {
        Err(SecretError::InvalidExpiration)
    } else {
        Ok(requested_expiration(expires_in_secs))
    }
}

/// Whether `secs` is one of the allowed times to live.
pub fn is_allowed_expiration(secs: u64) -> (r: bool)
    ensures
        r == allowed_expiration(secs),
{
    secs == 60 || secs == 300 || secs == 600 || secs == 1800 || secs == 3600 || secs == 21600
        || secs == 43200 || secs == 86400
}

/// Whether `message` is within the length limit, counting characters rather than bytes.
pub fn is_message_length_ok(message: &String) -> (r: bool)
    ensures
        r == message_fits(message@),
{
    message.as_str().unicode_len() <= MAX_MESSAGE_CHARS
}

impl CreateSecretPayload {
    /// Checks the request and returns the time to live, in seconds, to store it with.
    pub fn validate(&self) -> (r: Result<u64, SecretError>)
        ensures
            r == validation(self.message@, self.expires_in_secs),
    {
        if !is_message_length_ok(&self.message) {
            return Err(SecretError::MessageTooLong);
        }
        let secs = match self.expires_in_secs {
            Some(secs) => secs,
            None => DEFAULT_EXPIRATION_SECS,
        };
        if !is_allowed_expiration(secs) {
            return Err(SecretError::InvalidExpiration);
        }
        Ok(secs)
    }
}

} // verus!
