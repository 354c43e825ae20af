//! Get-or-create of a service, and attaching a user to it, as decisions.
//!
//! A run is a small state machine. It starts with [`get_or_create_endpoint`],
//! which checks the input and hands out the first [`Action`]. The caller
//! performs each action against the remote and gives the answer to
//! [`Provisioning::advance`], until the action is [`Action::Finish`]. A run
//! makes at most one fetch, one create and one more fetch.

use vstd::prelude::*;
use vstd::string::StringSliceAdditionalSpecFns;
use crate::addr::{is_listen_addr, is_listen_addr_text, parse_listen_addr};
use crate::errors::{kind_of, surfaced, ProvisioningError, RemoteError, RemoteErrorKind};
use crate::model::{ProvisioningOutcome, Service, ServiceSpec, UserCredential};
use crate::uri::{is_uri, uri_parses};

verus! {

/// What the caller is to do next.
#[derive(Debug, PartialEq, Eq)]
pub enum Action {
    /// Fetch the service called `name` from the remote.
    Fetch { name: String },
    /// Ask the remote to create the service that `spec` describes.
    Create { spec: ServiceSpec },
    /// Make no more calls: the run has ended with `result`.
    Finish { result: Result<ProvisioningOutcome, ProvisioningError> },
}

/// What the remote answered to the last action.
#[derive(Debug, PartialEq, Eq)]
pub enum Reply {
    /// The answer to a fetch.
    Fetched(Result<Service, RemoteError>),
    /// The answer to a create.
    Created(Result<(), RemoteError>),
}

/// Where a get-or-create run stands.
#[derive(Clone, Debug, PartialEq, Eq)]
pub enum Provisioning {
    /// The first fetch is under way; `spec` is what to create if it finds nothing.
    Fetching { spec: ServiceSpec },
    /// The fetch found nothing and the create of `name` is under way.
    Creating { name: String },
    /// The create succeeded and the second fetch is under way.
    RefetchAfterCreate,
    /// The create met a service of that name, made by someone else meanwhile,
    /// and the second fetch is under way.
    RefetchAfterConflict,
    /// The run has ended.
    Done,
}

/// A name and an address text that a run accepts: the name is not empty and
/// the text writes a listen address.
pub open spec fn valid_input(name: Seq<char>, addr: Seq<u8>) -> bool {
    name.len() > 0 && is_listen_addr(addr)
}

/// The two routes that every description carries, the forwarded prefix and
/// the upstream target, pass the URI syntax check.
pub open spec fn routes_are_uris() -> bool {
    is_uri("/"@) && is_uri("http://127.0.0.1/"@)
}

/// A run for `name` and the address text `addr` goes ahead: the input is
/// valid and the routes are URIs.
pub open spec fn accepted(name: Seq<char>, addr: Seq<u8>) -> bool {
    valid_input(name, addr) && routes_are_uris()
}

/// `spec` is the description that is built for `name` and the address text
/// `addr`.
pub open spec fn built_for(spec: ServiceSpec, name: Seq<char>, addr: Seq<u8>) -> bool {
    is_listen_addr_text(addr, spec.bind_http) && spec.describes(name, spec.bind_http)
}

/// How a run starts from the description that was built, or from the reason
/// why none was: with the fetch of the described name, or ended with that
/// reason and no call made.
pub open spec fn begun(built: Result<ServiceSpec, ProvisioningError>) -> (Provisioning, Action) {
    match built {
        Ok(spec) => (Provisioning::Fetching { spec }, Action::Fetch { name: spec.name }),
        Err(e) => ended(Err(e)),
    }
}

/// `state` and `action` are how a run for `name` and `addr` starts: where it
/// is accepted, from the description built for them, with the fetch of
/// `name`; else ended as `Malformed` with no call made.
pub open spec fn begins(
    name: Seq<char>,
    addr: Seq<u8>,
    state: Provisioning,
    action: Action,
) -> bool {
    if accepted(name, addr) {
        &&& state matches Provisioning::Fetching { spec }
        &&& built_for(spec, name, addr)
        &&& (state, action) == begun(Ok(spec))
    } else {
        (state, action) == begun(Err(ProvisioningError::Malformed))
    }
}

/// The run has ended as `Malformed`.
pub open spec fn misused() -> (Provisioning, Action) {
    (Provisioning::Done, Action::Finish { result: Err(ProvisioningError::Malformed) })
}

/// The run has ended with `result`.
pub open spec fn ended(result: Result<ProvisioningOutcome, ProvisioningError>) -> (
    Provisioning,
    Action,
) {
    (Provisioning::Done, Action::Finish { result })
}

impl Provisioning {
    /// The remote calls that the run can still make, at most.
    pub open spec fn calls_left(self) -> nat {
        match self {
            Provisioning::Fetching { .. } => 3,
            Provisioning::Creating { .. } => 2,
            Provisioning::RefetchAfterCreate => 1,
            Provisioning::RefetchAfterConflict => 1,
            Provisioning::Done => 0,
        }
    }

    /// `reply` answers the call that the run is waiting for.
    pub open spec fn awaits(self, reply: Reply) -> bool {
        match self {
            Provisioning::Fetching { .. } => reply is Fetched,
            Provisioning::Creating { .. } => reply is Created,
            Provisioning::RefetchAfterCreate => reply is Fetched,
            Provisioning::RefetchAfterConflict => reply is Fetched,
            Provisioning::Done => false,
        }
    }

    /// The state and the action that follow when `reply` arrives.
    ///
    /// A first fetch that finds the service ends the run with `Existing`. One
    /// that fails as `NotFound` leads to the create; any other failure ends the
    /// run with that failure. A create that succeeds, or fails as `Conflict`,
    /// leads to the second fetch; any other failure ends the run with it. The
    /// second fetch ends the run: with `Created` if it finds the service, with
    /// `NotFoundUnexpected` if it fails in any way. A reply that the run is
    /// not waiting for ends it as `Malformed`.
    pub open spec fn next(self, reply: Reply) -> (Provisioning, Action) {
        match (self, reply) {
            (Provisioning::Fetching { spec }, Reply::Fetched(Ok(service))) => ended(
                Ok(ProvisioningOutcome::Existing(service)),
            ),
            (Provisioning::Fetching { spec }, Reply::Fetched(Err(e))) => {
                if kind_of(e) == RemoteErrorKind::NotFound {
                    (Provisioning::Creating { name: spec.name }, Action::Create { spec })
                } else {
                    ended(Err(surfaced(kind_of(e))))
                }
            },
            (Provisioning::Creating { name }, Reply::Created(Ok(_))) => (
                Provisioning::RefetchAfterCreate,
                Action::Fetch { name },
            ),
            (Provisioning::Creating { name }, Reply::Created(Err(e))) => {
                if kind_of(e) == RemoteErrorKind::Conflict {
                    (Provisioning::RefetchAfterConflict, Action::Fetch { name })
                } else {
                    ended(Err(surfaced(kind_of(e))))
                }
            },
            (Provisioning::RefetchAfterCreate, Reply::Fetched(Ok(service)))
            | (Provisioning::RefetchAfterConflict, Reply::Fetched(Ok(service))) => ended(
                Ok(ProvisioningOutcome::Created(service)),
            ),
            (Provisioning::RefetchAfterCreate, Reply::Fetched(Err(_)))
            | (Provisioning::RefetchAfterConflict, Reply::Fetched(Err(_))) => ended(
                Err(ProvisioningError::NotFoundUnexpected),
            ),
            _ => misused(),
        }
    }

    /// Whether `reply` answers the call that the run is waiting for.
    pub fn accepts(&self, reply: &Reply) -> (b: bool)
        ensures
            b == self.awaits(*reply),
    {
        match self {
            Provisioning::Creating { .. } => match reply {
                Reply::Created(_) => true,
                Reply::Fetched(_) => false,
            },
            Provisioning::Done => false,
            _ => match reply {
                Reply::Created(_) => false,
                Reply::Fetched(_) => true,
            },
        }
    }

    /// Whether the run has ended.
    pub fn is_done(&self) -> (b: bool)
        ensures
            b == (self.calls_left() == 0),
    {
        match self {
            Provisioning::Done => true,
            _ => false,
        }
    }

    /// Takes the remote's answer to the last action and decides what follows.
    pub fn advance(self, reply: Reply) -> (r: (Provisioning, Action))
        ensures
            r == self.next(reply),
    {
        match self {
            Provisioning::Fetching { spec } => match reply {
                Reply::Fetched(Ok(service)) => finish(Ok(ProvisioningOutcome::Existing(service))),
                Reply::Fetched(Err(e)) => {
                    let kind = e.classify();
                    match kind {
                        RemoteErrorKind::NotFound => {
                            let name = spec.name.clone();
                            (Provisioning::Creating { name }, Action::Create { spec })
                        },
                        _ => finish(Err(kind.surface())),
                    }
                },
                Reply::Created(_) => finish(Err(ProvisioningError::Malformed)),
            },
            Provisioning::Creating { name } => match reply {
                Reply::Created(Ok(_)) => (Provisioning::RefetchAfterCreate, Action::Fetch { name }),
                Reply::Created(Err(e)) => {
                    let kind = e.classify();
                    match kind {
                        RemoteErrorKind::Conflict => (
                            Provisioning::RefetchAfterConflict,
                            Action::Fetch { name },
                        ),
                        _ => finish(Err(kind.surface())),
                    }
                },
                Reply::Fetched(_) => finish(Err(ProvisioningError::Malformed)),
            },
            Provisioning::RefetchAfterCreate | Provisioning::RefetchAfterConflict => match reply {
                Reply::Fetched(Ok(service)) => finish(Ok(ProvisioningOutcome::Created(service))),
                Reply::Fetched(Err(_)) => finish(Err(ProvisioningError::NotFoundUnexpected)),
                Reply::Created(_) => finish(Err(ProvisioningError::Malformed)),
            },
            Provisioning::Done => finish(Err(ProvisioningError::Malformed)),
        }
    }
}

fn finish(result: Result<ProvisioningOutcome, ProvisioningError>) -> (r: (Provisioning, Action))
    ensures
        r == ended(result),
{
    (Provisioning::Done, Action::Finish { result })
}

/// Builds the description of the service `service_name` that listens on
/// `listen_addr`, given whether its routes passed the URI syntax check. The
/// name must not be empty, `listen_addr` must write a listen address and the
/// routes must have passed; else the result is `Malformed`.
pub fn build_endpoint(service_name: &str, listen_addr: &str, routes_ok: bool) -> (r: Result<
    ServiceSpec,
    ProvisioningError,
>)
    ensures
        match r {
            Ok(spec) => {
                &&& routes_ok
                &&& valid_input(service_name@, listen_addr.spec_bytes())
                &&& built_for(spec, service_name@, listen_addr.spec_bytes())
            },
            Err(e) => {
                &&& e == ProvisioningError::Malformed
                &&& !(routes_ok && valid_input(service_name@, listen_addr.spec_bytes()))
            },
        },
{
    if !routes_ok || service_name.is_empty() {
        return Err(ProvisioningError::Malformed);
    }
    match parse_listen_addr(listen_addr) {
        None => Err(ProvisioningError::Malformed),
        Some(addr) => Ok(
            ServiceSpec {
                name: service_name.to_owned(),
                server_name: "127.0.0.1".to_owned(),
                bind_http: addr,
                bind_https: None,
                cert: None,
                auth: None,
                from: "/".to_owned(),
                to: "http://127.0.0.1/".to_owned(),
                timeouts: None,
                cpu_threads: None,
                user: None,
            },
        ),
    }
}

/// Builds the description of the service to create: checks the routes, then
/// builds as `build_endpoint` does.
pub fn create_endpoint(service_name: &str, listen_addr: &str) -> (r: Result<
    ServiceSpec,
    ProvisioningError,
>)
    ensures
        match r {
            Ok(spec) => {
                &&& accepted(service_name@, listen_addr.spec_bytes())
                &&& built_for(spec, service_name@, listen_addr.spec_bytes())
            },
            Err(e) => {
                &&& e == ProvisioningError::Malformed
                &&& !accepted(service_name@, listen_addr.spec_bytes())
            },
        },
{
    let routes_ok = uri_parses("/") && uri_parses("http://127.0.0.1/");
    build_endpoint(service_name, listen_addr, routes_ok)
}

/// Starts a run from the description that was built, or from the reason why
/// none was.
pub fn begin(built: Result<ServiceSpec, ProvisioningError>) -> (r: (Provisioning, Action))
    ensures
        r == begun(built),
{
    match built {
        Ok(spec) => {
            let name = spec.name.clone();
            (Provisioning::Fetching { spec }, Action::Fetch { name })
        },
        Err(e) => finish(Err(e)),
    }
}

/// Starts a get-or-create run for the service `service_name` listening on
/// `listen_addr`. Where the input is accepted the first action is the fetch
/// of that name; else the run has ended as `Malformed` and no call is handed
/// out.
pub fn get_or_create_endpoint(service_name: &str, listen_addr: &str) -> (r: (Provisioning, Action))
    ensures
        begins(service_name@, listen_addr.spec_bytes(), r.0, r.1),
{
    begin(create_endpoint(service_name, listen_addr))
}

/// The fetch of the service that is called `erigon`.
pub fn get_erigon_service() -> (a: Action)
    ensures
        a matches Action::Fetch { name } && name@ == "erigon"@,
{
    Action::Fetch { name: "erigon".to_owned() }
}

/// What a fetch made outside a run came to, given the remote's answer.
pub open spec fn fetch_outcome(reply: Result<Service, RemoteError>) -> Result<
    Service,
    ProvisioningError,
> {
    match reply {
        Ok(service) => Ok(service),
        Err(e) => Err(surfaced(kind_of(e))),
    }
}

/// Reports the remote's answer to a fetch made outside a run: the service as
/// it is, every failure under its own class.
pub fn fetched(reply: Result<Service, RemoteError>) -> (r: Result<Service, ProvisioningError>)
    ensures
        r == fetch_outcome(reply),
{
    match reply {
        Ok(service) => Ok(service),
        Err(e) => Err(e.classify().surface()),
    }
}

/// The one call that attaches a user to a service.
#[derive(Clone, Debug, PartialEq, Eq)]
pub struct UserRequest {
    /// The name of the service that the user is attached to.
    pub service_name: String,
    /// The user's name and password.
    pub credential: UserCredential,
}

/// Builds the call that attaches the user `username` with `password` to
/// `service`. No look-up comes first. An empty user name is `Malformed`.
pub fn create_erigon_user(service: &Service, username: String, password: String) -> (r: Result<
    UserRequest,
    ProvisioningError,
>)
    ensures
        match r {
            Ok(request) => {
                &&& username@.len() > 0
                &&& request.service_name == service.name
                &&& request.credential.username == username
                &&& request.credential.password == password
            },
            Err(e) => e == ProvisioningError::Malformed && username@.len() == 0,
        },
{
    if username.as_str().is_empty() {
        return Err(ProvisioningError::Malformed);
    }
    Ok(
        UserRequest {
            service_name: service.name.clone(),
            credential: UserCredential { username, password },
        },
    )
}

/// What attaching a user came to, given the remote's answer to that call.
pub open spec fn attached(reply: Result<(), RemoteError>) -> Result<(), ProvisioningError> {
    match reply {
        Ok(_) => Ok(()),
        Err(e) => Err(surfaced(kind_of(e))),
    }
}

/// Reports the remote's answer to the attach call: success as it is, every
/// failure under its own class, a duplicate user as `Conflict`.
pub fn user_attached(reply: Result<(), RemoteError>) -> (r: Result<(), ProvisioningError>)
    ensures
        r == attached(reply),
{
    match reply {
        Ok(_) => Ok(()),
        Err(e) => Err(e.classify().surface()),
    }
}

} // verus!
