//! Error values of the connection manager.

use vstd::prelude::*;

verus! {

/// Why an operation of the connection manager failed.
///
/// `E` is the error type of the radio driver; its values are carried through
/// untouched.
#[derive(Debug, Clone, PartialEq, Eq)]
pub enum WifiHandlerError<E> {
    /// The driver reported a failure of its own.
    WifiError(E),
    /// The controller accepted the start request but does not report itself
    /// started.
    NotStarted,
    /// No probe within the attempt ceiling saw the station associated.
    CantConnect,
    /// No probe within the attempt ceiling saw the interface up.
    NoIface,
}

/// Why a pair of credentials was rejected before it reached the driver.
#[derive(Debug, Clone, Copy, PartialEq, Eq)]
pub enum CredentialsError {
    /// The network identifier occupies more bytes than the driver can store.
    SsidTooLong,
    /// The secret occupies more bytes than the driver can store.
    PasswordTooLong,
}

/// What a driver call yields once its error is wrapped for the caller.
pub open spec fn wrapped<T, E>(outcome: Result<T, E>) -> Result<T, WifiHandlerError<E>> {
    match outcome {
        Ok(value) => Ok(value),
        Err(e) => Err(WifiHandlerError::WifiError(e)),
    }
}

/// Wraps a driver error as the generic controller-error kind.
pub fn parse_wifi_error<E>(e: E) -> (r: WifiHandlerError<E>)
    ensures
        r == WifiHandlerError::WifiError(e),
{
    WifiHandlerError::WifiError(e)
}

/// Passes a driver answer on, with a failure wrapped by [`parse_wifi_error`].
pub fn wrap_outcome<T, E>(outcome: Result<T, E>) -> (r: Result<T, WifiHandlerError<E>>)
    ensures
        r == wrapped(outcome),
{
    match outcome {
        Ok(value) => Ok(value),
        Err(e) => Err(parse_wifi_error(e)),
    }
}

} // verus!
