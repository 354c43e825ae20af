//! The values that travel between a caller, this library and the remote
//! management interface.

use vstd::prelude::*;
use crate::addr::ListenAddr;

verus! {

/// A certificate and its private key, for a service that answers HTTPS.
#[derive(Clone, Debug, PartialEq, Eq)]
pub struct TlsMaterial {
    pub certificate: String,
    pub private_key: String,
}

/// How long a service waits, in seconds.
#[derive(Clone, Copy, Debug, PartialEq, Eq)]
pub struct Timeouts {
    pub request: u64,
    pub response: u64,
}

/// A user name and password to attach to a service.
#[derive(Clone, Debug, PartialEq, Eq)]
pub struct UserCredential {
    pub username: String,
    pub password: String,
}

/// The desired state of a proxy service, as it is sent to the remote.
#[derive(Clone, Debug, PartialEq, Eq)]
pub struct ServiceSpec {
    /// The service's unique name.
    pub name: String,
    /// The server name under which the service answers.
    pub server_name: String,
    /// Where the service listens for plain HTTP.
    pub bind_http: ListenAddr,
    /// Where the service listens for HTTPS, if it does.
    pub bind_https: Option<ListenAddr>,
    /// The certificate that the service presents, if it has one.
    pub cert: Option<TlsMaterial>,
    /// The way in which callers of the service authenticate, if they must.
    pub auth: Option<String>,
    /// The path prefix that is forwarded.
    pub from: String,
    /// The upstream target that requests are forwarded to.
    pub to: String,
    /// The service's own timeouts, if it has any.
    pub timeouts: Option<Timeouts>,
    /// How many threads the service should use, if the caller has a wish.
    pub cpu_threads: Option<u32>,
    /// A user to set up together with the service, if there is one.
    pub user: Option<UserCredential>,
}

impl ServiceSpec {
    /// This is the description of a plain HTTP service called `name` that
    /// listens on `addr` and forwards everything to the local upstream, with
    /// no certificate, authentication, timeouts, thread count or user.
    pub open spec fn describes(self, name: Seq<char>, addr: ListenAddr) -> bool {
        &&& self.name@ == name
        &&& self.server_name@ == "127.0.0.1"@
        &&& self.bind_http == addr
        &&& self.bind_https is None
        &&& self.cert is None
        &&& self.auth is None
        &&& self.from@ == "/"@
        &&& self.to@ == "http://127.0.0.1/"@
        &&& self.timeouts is None
        &&& self.cpu_threads is None
        &&& self.user is None
    }
}

/// A service as the remote reports it.
#[derive(Clone, Debug, PartialEq, Eq)]
pub struct Service {
    /// The name under which the remote holds the service.
    pub name: String,
    /// The addresses that the service is bound to, as the remote writes them.
    pub addresses: Vec<String>,
    /// The names of the users attached to the service.
    pub users: Vec<String>,
}

/// How a get-or-create run ended well.
#[derive(Clone, Debug, PartialEq, Eq)]
pub enum ProvisioningOutcome {
    /// The service was there already; no create call was made.
    Existing(Service),
    /// The service was fetched after this run's one create call.
    Created(Service),
}

impl ProvisioningOutcome {
    /// The service that the run ended with.
    pub open spec fn service_spec(self) -> Service {
        match self {
            ProvisioningOutcome::Existing(s) => s,
            ProvisioningOutcome::Created(s) => s,
        }
    }

    /// The service that the run ended with.
    pub fn service(&self) -> (s: &Service)
        ensures
            *s == self.service_spec(),
    {
        match self {
            ProvisioningOutcome::Existing(s) => s,
            ProvisioningOutcome::Created(s) => s,
        }
    }

    /// The HTTP status under which the gateway reports this outcome: 200 for
    /// a service that was there, 201 for one that the run created.
    pub fn status(&self) -> (code: u16)
        ensures
            code == (if *self is Created { 201u16 } else { 200u16 }),
    {
        match self {
            ProvisioningOutcome::Existing(_) => 200,
            ProvisioningOutcome::Created(_) => 201,
        }
    }

    /// Whether the run made a create call.
    pub fn was_created(&self) -> (b: bool)
        ensures
            b == (*self is Created),
    {
        match self {
            ProvisioningOutcome::Existing(_) => false,
            ProvisioningOutcome::Created(_) => true,
        }
    }
}

} // verus!
