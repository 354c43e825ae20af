//! What the remote management interface can answer when a call fails, and what
//! the library reports to its own callers.

use vstd::prelude::*;

verus! {

/// A failed call to the remote management interface, as the transport saw it.
#[derive(Clone, Copy, Debug, PartialEq, Eq, Structural)]
pub enum RemoteError {
    /// The remote answered with this HTTP status, which is not a success.
    Status(u16),
    /// No answer arrived: the connection failed, timed out or broke off.
    Transport,
}

/// The classes into which every failed remote call falls.
#[derive(Clone, Copy, Debug, PartialEq, Eq, Structural)]
pub enum RemoteErrorKind {
    NotFound,
    Conflict,
    Transient,
    Unauthorized,
    Malformed,
}

/// What a provisioning call reports when it does not succeed.
#[derive(Clone, Copy, Debug, PartialEq, Eq, Structural)]
pub enum ProvisioningError {
    /// The remote does not show a service that it should show by now.
    NotFoundUnexpected,
    /// The remote holds the target already where the caller said it does not.
    Conflict,
    /// A failure that may pass; the caller decides whether to try again.
    Transient,
    /// The remote refused the caller's credentials or permissions.
    Unauthorized,
    /// The input was rejected, by this library or by the remote.
    Malformed,
}

/// The class of a remote failure: 404 is `NotFound`, 409 is `Conflict`, 401 and
/// 403 are `Unauthorized`, 400 and 422 are `Malformed`; every other status, and
/// a call that got no answer, is `Transient`.
pub open spec fn kind_of(e: RemoteError) -> RemoteErrorKind {
    match e {
        RemoteError::Status(404) => RemoteErrorKind::NotFound,
        RemoteError::Status(409) => RemoteErrorKind::Conflict,
        RemoteError::Status(401) | RemoteError::Status(403) => RemoteErrorKind::Unauthorized,
        RemoteError::Status(400) | RemoteError::Status(422) => RemoteErrorKind::Malformed,
        _ => RemoteErrorKind::Transient,
    }
}

/// The error that reports a remote failure of class `k` to the caller as it is.
/// A missing resource is reported as `NotFoundUnexpected`: the caller had
/// reason to expect it.
pub open spec fn surfaced(k: RemoteErrorKind) -> ProvisioningError {
    match k {
        RemoteErrorKind::NotFound => ProvisioningError::NotFoundUnexpected,
        RemoteErrorKind::Conflict => ProvisioningError::Conflict,
        RemoteErrorKind::Transient => ProvisioningError::Transient,
        RemoteErrorKind::Unauthorized => ProvisioningError::Unauthorized,
        RemoteErrorKind::Malformed => ProvisioningError::Malformed,
    }
}

/// The HTTP status under which the gateway reports an error to its caller.
pub open spec fn status_of(e: ProvisioningError) -> u16 {
    match e {
        ProvisioningError::NotFoundUnexpected => 500,
        ProvisioningError::Conflict => 409,
        ProvisioningError::Transient => 503,
        ProvisioningError::Unauthorized => 401,
        ProvisioningError::Malformed => 400,
    }
}

impl ProvisioningError {
    /// The HTTP status under which the gateway reports this error.
    pub fn status(self) -> (code: u16)
        ensures
            code == status_of(self),
    {
        match self {
            ProvisioningError::NotFoundUnexpected => 500,
            ProvisioningError::Conflict => 409,
            ProvisioningError::Transient => 503,
            ProvisioningError::Unauthorized => 401,
            ProvisioningError::Malformed => 400,
        }
    }
}

/// Two different errors are reported under different statuses, and none
/// under a status that says success.
pub proof fn law_statuses_tell_errors_apart(a: ProvisioningError, b: ProvisioningError)
    ensures
        status_of(a) == status_of(b) ==> a == b,
        400 <= status_of(a) < 600,
{
}

impl RemoteError {
    /// Classifies this failure.
    pub fn classify(&self) -> (k: RemoteErrorKind)
        ensures
            k == kind_of(*self),
    {
        match *self {
            RemoteError::Transport => RemoteErrorKind::Transient,
            RemoteError::Status(code) => {
                if code == 404 {
                    RemoteErrorKind::NotFound
                } else if code == 409 {
                    RemoteErrorKind::Conflict
                } else if code == 401 || code == 403 {
                    RemoteErrorKind::Unauthorized
                } else if code == 400 || code == 422 {
                    RemoteErrorKind::Malformed
                } else {
                    RemoteErrorKind::Transient
                }
            },
        }
    }
}

impl RemoteErrorKind {
    /// The error under which a failure of this class reaches the caller.
    pub fn surface(self) -> (e: ProvisioningError)
        ensures
            e == surfaced(self),
    {
        match self {
            RemoteErrorKind::NotFound => ProvisioningError::NotFoundUnexpected,
            RemoteErrorKind::Conflict => ProvisioningError::Conflict,
            RemoteErrorKind::Transient => ProvisioningError::Transient,
            RemoteErrorKind::Unauthorized => ProvisioningError::Unauthorized,
            RemoteErrorKind::Malformed => ProvisioningError::Malformed,
        }
    }
}

} // verus!
