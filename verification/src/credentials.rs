//! Credentials of the network to join, held in the fixed-capacity strings
//! that the radio driver stores them in.

use crate::error::CredentialsError;
use vstd::prelude::*;

verus! {

/// Largest number of bytes of a network identifier.
pub const SSID_CAPACITY: usize = 32;

/// Largest number of bytes of a secret.
pub const PASSWORD_CAPACITY: usize = 64;

/// `heapless::String`, a string in a buffer of `N` bytes. Nothing is claimed
/// of what is inside a value but through [`ssid_text`] and
/// [`password_text`].
#[verifier::external_type_specification]
#[verifier::external_body]
pub struct ExBoundedString<const N: usize>(heapless::String<N>);

/// The text that a bounded string of capacity 32 holds.
pub uninterp spec fn ssid_text(s: heapless::String<32>) -> Seq<char>;

/// The text that a bounded string of capacity 64 holds.
pub uninterp spec fn password_text(s: heapless::String<64>) -> Seq<char>;

/// Calls `heapless::String::<32>::try_from` on a string slice. It appends the
/// slice to an empty string of capacity 32; the append is refused, and `Err`
/// returned, exactly when the slice has more bytes than the capacity.
/// Otherwise the new string holds the text of the slice.
#[verifier::external_body]
fn bounded_ssid(text: &str) -> (r: Result<heapless::String<32>, ()>)
    ensures
        r is Ok <==> text.len() <= 32,
        r matches Ok(s) ==> ssid_text(s) == text@,
{
    heapless::String::try_from(text)
}

/// Calls `heapless::String::<64>::try_from` on a string slice. It appends the
/// slice to an empty string of capacity 64; the append is refused, and `Err`
/// returned, exactly when the slice has more bytes than the capacity.
/// Otherwise the new string holds the text of the slice.
#[verifier::external_body]
fn bounded_password(text: &str) -> (r: Result<heapless::String<64>, ()>)
    ensures
        r is Ok <==> text.len() <= 64,
        r matches Ok(s) ==> password_text(s) == text@,
{
    heapless::String::try_from(text)
}

/// Mathematical content of [`ConnectionCredentials`].
pub struct CredentialsModel {
    /// The network identifier.
    pub ssid: Seq<char>,
    /// The secret.
    pub password: Seq<char>,
}

/// A network identifier and a secret that both fit the driver's bounds.
///
/// Credentials cannot be changed once built.
pub struct ConnectionCredentials {
    ssid: heapless::String<32>,
    password: heapless::String<64>,
}

impl View for ConnectionCredentials {
    type V = CredentialsModel;

    closed spec fn view(&self) -> CredentialsModel {
        CredentialsModel { ssid: ssid_text(self.ssid), password: password_text(self.password) }
    }
}

/// Why `ssid` and `password` cannot be used together, if they cannot. The
/// identifier is looked at first.
pub open spec fn rejection(ssid: &str, password: &str) -> Option<CredentialsError> {
    if ssid.len() > SSID_CAPACITY {
        Some(CredentialsError::SsidTooLong)
    } else if password.len() > PASSWORD_CAPACITY {
        Some(CredentialsError::PasswordTooLong)
    } else {
        None
    }
}

/// Whether `r` is the right answer to a request for credentials made of
/// `ssid` and `password`: the rejection where there is one, and else
/// credentials that hold exactly the two texts.
pub open spec fn checked(
    ssid: &str,
    password: &str,
    r: Result<ConnectionCredentials, CredentialsError>,
) -> bool {
    match rejection(ssid, password) {
        Some(e) => r == Err::<ConnectionCredentials, CredentialsError>(e),
        None => r matches Ok(c) && c@ == (CredentialsModel { ssid: ssid@, password: password@ }),
    }
}

/// Nothing oversized gets through: an answer to a request with an identifier
/// of more than 32 bytes or a secret of more than 64 bytes holds no
/// credentials, so none can be handed to the driver.
pub proof fn lemma_oversized_is_rejected(
    ssid: &str,
    password: &str,
    r: Result<ConnectionCredentials, CredentialsError>,
)
    requires
        checked(ssid, password, r),
        ssid.len() > SSID_CAPACITY || password.len() > PASSWORD_CAPACITY,
    ensures
        r is Err,
        ssid.len() > SSID_CAPACITY ==> r == Err::<ConnectionCredentials, CredentialsError>(
            CredentialsError::SsidTooLong,
        ),
{
}

impl ConnectionCredentials {
    /// Builds credentials from an identifier of at most 32 bytes and a secret
    /// of at most 64 bytes, and refuses anything longer.
    pub fn new(ssid: &str, password: &str) -> (r: Result<ConnectionCredentials, CredentialsError>)
        ensures
            checked(ssid, password, r),
    {
        match bounded_ssid(ssid) {
            Err(_) => Err(CredentialsError::SsidTooLong),
            Ok(ssid) => match bounded_password(password) {
                Err(_) => Err(CredentialsError::PasswordTooLong),
                Ok(password) => Ok(ConnectionCredentials { ssid, password }),
            },
        }
    }

    /// Gives up the two strings, in the form the driver's configuration
    /// takes them: the identifier first, the secret second.
    pub fn into_parts(self) -> (parts: (heapless::String<32>, heapless::String<64>))
        ensures
            ssid_text(parts.0) == self@.ssid,
            password_text(parts.1) == self@.password,
    {
        (self.ssid, self.password)
    }
}

} // verus!
