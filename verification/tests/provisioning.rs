use std::collections::HashMap;

use proxy_provisioner::addr::{parse_listen_addr, ListenAddr, ListenAddrV4, ListenAddrV6};
use proxy_provisioner::errors::{ProvisioningError, RemoteError, RemoteErrorKind};
use proxy_provisioner::model::{ProvisioningOutcome, Service, ServiceSpec};
use proxy_provisioner::config::get_management_api;
use proxy_provisioner::provisioning::{
    begin, build_endpoint, create_endpoint, create_erigon_user, fetched, get_erigon_service,
    get_or_create_endpoint, user_attached, Action, Provisioning, Reply, UserRequest,
};

/// A remote that lives in memory and counts the calls it gets.
struct FakeRemote {
    services: HashMap<String, Service>,
    users: HashMap<String, Vec<String>>,
    fetches: usize,
    creates: usize,
    created: usize,
}

impl FakeRemote {
    fn new() -> Self {
        FakeRemote {
            services: HashMap::new(),
            users: HashMap::new(),
            fetches: 0,
            creates: 0,
            created: 0,
        }
    }

    fn fetch(&mut self, name: &str) -> Result<Service, RemoteError> {
        self.fetches += 1;
        match self.services.get(name) {
            Some(s) => Ok(s.clone()),
            None => Err(RemoteError::Status(404)),
        }
    }

    fn create(&mut self, spec: &ServiceSpec) -> Result<(), RemoteError> {
        self.creates += 1;
        if self.services.contains_key(&spec.name) {
            return Err(RemoteError::Status(409));
        }
        let address = match spec.bind_http {
            ListenAddr::V4(a) => {
                format!("{}.{}.{}.{}:{}", a.octet0, a.octet1, a.octet2, a.octet3, a.port)
            }
            ListenAddr::V6(a) => format!("[{:x}::{:x}]:{}", a.group0, a.group7, a.port),
        };
        let service =
            Service { name: spec.name.clone(), addresses: vec![address], users: Vec::new() };
        self.services.insert(spec.name.clone(), service);
        self.created += 1;
        Ok(())
    }

    fn create_user(&mut self, request: &UserRequest) -> Result<(), RemoteError> {
        let users = self.users.entry(request.service_name.clone()).or_default();
        if users.contains(&request.credential.username) {
            return Err(RemoteError::Status(409));
        }
        users.push(request.credential.username.clone());
        Ok(())
    }

    fn perform(&mut self, action: &Action) -> Reply {
        match action {
            Action::Fetch { name } => Reply::Fetched(self.fetch(name)),
            Action::Create { spec } => Reply::Created(self.create(spec)),
            Action::Finish { .. } => unreachable!(),
        }
    }
}

fn drive(
    remote: &mut FakeRemote,
    name: &str,
    addr: &str,
) -> Result<ProvisioningOutcome, ProvisioningError> {
    let (mut state, mut action) = get_or_create_endpoint(name, addr);
    loop {
        if let Action::Finish { result } = action {
            assert!(state.is_done());
            return result;
        }
        let reply = remote.perform(&action);
        assert!(state.accepts(&reply));
        let (next_state, next_action) = state.advance(reply);
        state = next_state;
        action = next_action;
    }
}

fn scripted(name: &str, addr: &str, replies: Vec<Reply>) -> (Vec<String>, Action) {
    let (mut state, mut action) = get_or_create_endpoint(name, addr);
    let mut calls = Vec::new();
    for reply in replies {
        match &action {
            Action::Fetch { name } => calls.push(format!("fetch {}", name)),
            Action::Create { spec } => calls.push(format!("create {}", spec.name)),
            Action::Finish { .. } => panic!("a reply is left over"),
        }
        let (next_state, next_action) = state.advance(reply);
        state = next_state;
        action = next_action;
    }
    (calls, action)
}

fn erigon() -> Service {
    Service {
        name: "erigon".to_string(),
        addresses: vec!["127.0.0.1:8545".to_string()],
        users: vec![],
    }
}

#[test]
fn get_or_create_twice_creates_once() {
    let mut remote = FakeRemote::new();
    let first = drive(&mut remote, "erigon", "127.0.0.1:8545").unwrap();
    let second = drive(&mut remote, "erigon", "127.0.0.1:8545").unwrap();
    assert!(first.was_created());
    assert!(!second.was_created());
    assert_eq!(first, ProvisioningOutcome::Created(erigon()));
    assert_eq!(second, ProvisioningOutcome::Existing(erigon()));
    assert_eq!(first.service(), second.service());
    assert_eq!(remote.creates, 1);
    assert_eq!(remote.created, 1);
    assert_eq!(remote.fetches, 3);
}

#[test]
fn two_runs_at_once_both_succeed() {
    let mut remote = FakeRemote::new();
    let (mut left, left_action) = get_or_create_endpoint("erigon", "127.0.0.1:8545");
    let (mut right, right_action) = get_or_create_endpoint("erigon", "127.0.0.1:8545");
    // Both fetch before either creates.
    let reply = remote.perform(&left_action);
    let (state, left_action) = left.advance(reply);
    left = state;
    let reply = remote.perform(&right_action);
    let (state, right_action) = right.advance(reply);
    right = state;
    assert!(matches!(left_action, Action::Create { .. }));
    assert!(matches!(right_action, Action::Create { .. }));
    // The left create wins, the right one meets the conflict.
    let reply = remote.perform(&left_action);
    assert_eq!(reply, Reply::Created(Ok(())));
    let (state, left_action) = left.advance(reply);
    left = state;
    let reply = remote.perform(&right_action);
    assert_eq!(reply, Reply::Created(Err(RemoteError::Status(409))));
    let (state, right_action) = right.advance(reply);
    right = state;
    assert_eq!(left, Provisioning::RefetchAfterCreate);
    assert_eq!(right, Provisioning::RefetchAfterConflict);
    let reply = remote.perform(&right_action);
    let (right, right_action) = right.advance(reply);
    let reply = remote.perform(&left_action);
    let (left, left_action) = left.advance(reply);
    assert_eq!(left, Provisioning::Done);
    assert_eq!(right, Provisioning::Done);
    let done = Action::Finish { result: Ok(ProvisioningOutcome::Created(erigon())) };
    assert_eq!(left_action, done);
    assert_eq!(right_action, done);
    assert_eq!(remote.created, 1);
    assert_eq!(remote.creates, 2);
}

#[test]
fn transient_first_fetch_is_fatal() {
    let (calls, end) = scripted(
        "erigon",
        "127.0.0.1:8545",
        vec![Reply::Fetched(Err(RemoteError::Status(503)))],
    );
    assert_eq!(calls, vec!["fetch erigon".to_string()]);
    assert_eq!(end, Action::Finish { result: Err(ProvisioningError::Transient) });
    let (_, end) =
        scripted("erigon", "127.0.0.1:8545", vec![Reply::Fetched(Err(RemoteError::Transport))]);
    assert_eq!(end, Action::Finish { result: Err(ProvisioningError::Transient) });
}

#[test]
fn other_first_fetch_failures_are_fatal() {
    let cases = [
        (401u16, ProvisioningError::Unauthorized),
        (403, ProvisioningError::Unauthorized),
        (400, ProvisioningError::Malformed),
        (422, ProvisioningError::Malformed),
        (409, ProvisioningError::Conflict),
        (500, ProvisioningError::Transient),
    ];
    for (status, expected) in cases {
        let (calls, end) = scripted(
            "erigon",
            "127.0.0.1:8545",
            vec![Reply::Fetched(Err(RemoteError::Status(status)))],
        );
        assert_eq!(calls.len(), 1);
        assert_eq!(end, Action::Finish { result: Err(expected) });
    }
}

#[test]
fn missing_after_create_is_inconsistent() {
    let (calls, end) = scripted(
        "erigon",
        "127.0.0.1:8545",
        vec![
            Reply::Fetched(Err(RemoteError::Status(404))),
            Reply::Created(Ok(())),
            Reply::Fetched(Err(RemoteError::Status(404))),
        ],
    );
    assert_eq!(
        calls,
        vec!["fetch erigon".to_string(), "create erigon".to_string(), "fetch erigon".to_string()]
    );
    assert_eq!(end, Action::Finish { result: Err(ProvisioningError::NotFoundUnexpected) });
}

#[test]
fn failing_refetch_after_conflict_is_inconsistent() {
    let (calls, end) = scripted(
        "erigon",
        "127.0.0.1:8545",
        vec![
            Reply::Fetched(Err(RemoteError::Status(404))),
            Reply::Created(Err(RemoteError::Status(409))),
            Reply::Fetched(Err(RemoteError::Status(503))),
        ],
    );
    assert_eq!(calls.len(), 3);
    assert_eq!(end, Action::Finish { result: Err(ProvisioningError::NotFoundUnexpected) });
}

#[test]
fn failed_create_is_reported() {
    let cases = [
        (401u16, ProvisioningError::Unauthorized),
        (400, ProvisioningError::Malformed),
        (500, ProvisioningError::Transient),
        (404, ProvisioningError::NotFoundUnexpected),
    ];
    for (status, expected) in cases {
        let (calls, end) = scripted(
            "erigon",
            "127.0.0.1:8545",
            vec![
                Reply::Fetched(Err(RemoteError::Status(404))),
                Reply::Created(Err(RemoteError::Status(status))),
            ],
        );
        assert_eq!(calls, vec!["fetch erigon".to_string(), "create erigon".to_string()]);
        assert_eq!(end, Action::Finish { result: Err(expected) });
    }
}

#[test]
fn bad_input_is_malformed_without_a_call() {
    let (state, action) = get_or_create_endpoint("", "bad-addr");
    assert_eq!(state, Provisioning::Done);
    assert_eq!(action, Action::Finish { result: Err(ProvisioningError::Malformed) });
    let (state, action) = get_or_create_endpoint("erigon", "bad-addr");
    assert_eq!(state, Provisioning::Done);
    assert_eq!(action, Action::Finish { result: Err(ProvisioningError::Malformed) });
    let (state, action) = get_or_create_endpoint("", "127.0.0.1:8545");
    assert_eq!(state, Provisioning::Done);
    assert_eq!(action, Action::Finish { result: Err(ProvisioningError::Malformed) });
    let mut remote = FakeRemote::new();
    assert_eq!(drive(&mut remote, "", "bad-addr"), Err(ProvisioningError::Malformed));
    assert_eq!(remote.fetches + remote.creates, 0);
}

#[test]
fn a_run_starts_with_the_fetch() {
    let (state, action) = get_or_create_endpoint("erigon", "10.1.2.3:8545");
    assert_eq!(action, Action::Fetch { name: "erigon".to_string() });
    let spec = ServiceSpec {
        name: "erigon".to_string(),
        server_name: "127.0.0.1".to_string(),
        bind_http: ListenAddr::V4(ListenAddrV4 {
            octet0: 10,
            octet1: 1,
            octet2: 2,
            octet3: 3,
            port: 8545,
        }),
        bind_https: None,
        cert: None,
        auth: None,
        from: "/".to_string(),
        to: "http://127.0.0.1/".to_string(),
        timeouts: None,
        cpu_threads: None,
        user: None,
    };
    assert_eq!(state, Provisioning::Fetching { spec: spec.clone() });
    assert_eq!(create_endpoint("erigon", "10.1.2.3:8545"), Ok(spec.clone()));
    let (state, action) = state.advance(Reply::Fetched(Err(RemoteError::Status(404))));
    assert_eq!(state, Provisioning::Creating { name: "erigon".to_string() });
    assert_eq!(action, Action::Create { spec });
}

#[test]
fn create_endpoint_rejects_bad_input() {
    assert_eq!(create_endpoint("", "127.0.0.1:80"), Err(ProvisioningError::Malformed));
    assert_eq!(create_endpoint("erigon", ""), Err(ProvisioningError::Malformed));
    assert_eq!(create_endpoint("erigon", "localhost:80"), Err(ProvisioningError::Malformed));
}

#[test]
fn a_reply_out_of_turn_ends_the_run() {
    let (state, _) = get_or_create_endpoint("erigon", "127.0.0.1:8545");
    assert!(!state.accepts(&Reply::Created(Ok(()))));
    assert!(state.accepts(&Reply::Fetched(Ok(erigon()))));
    let (state, action) = state.advance(Reply::Created(Ok(())));
    assert_eq!(state, Provisioning::Done);
    assert_eq!(action, Action::Finish { result: Err(ProvisioningError::Malformed) });
    assert!(!state.accepts(&Reply::Fetched(Ok(erigon()))));
    let (state, action) = state.advance(Reply::Fetched(Ok(erigon())));
    assert_eq!(state, Provisioning::Done);
    assert_eq!(action, Action::Finish { result: Err(ProvisioningError::Malformed) });
    let creating = Provisioning::Creating { name: "erigon".to_string() };
    assert!(creating.accepts(&Reply::Created(Ok(()))));
    assert!(!creating.accepts(&Reply::Fetched(Ok(erigon()))));
    let (state, action) = creating.advance(Reply::Fetched(Ok(erigon())));
    assert_eq!(state, Provisioning::Done);
    assert_eq!(action, Action::Finish { result: Err(ProvisioningError::Malformed) });
    let (_, action) = Provisioning::RefetchAfterCreate.advance(Reply::Created(Ok(())));
    assert_eq!(action, Action::Finish { result: Err(ProvisioningError::Malformed) });
}

#[test]
fn attaching_a_user_twice_is_a_conflict() {
    let mut remote = FakeRemote::new();
    let service = drive(&mut remote, "erigon", "127.0.0.1:8545").unwrap();
    let request =
        create_erigon_user(service.service(), "alice".to_string(), "pw".to_string()).unwrap();
    assert_eq!(request.service_name, "erigon");
    assert_eq!(request.credential.username, "alice");
    assert_eq!(request.credential.password, "pw");
    assert_eq!(user_attached(remote.create_user(&request)), Ok(()));
    let again =
        create_erigon_user(service.service(), "alice".to_string(), "pw".to_string()).unwrap();
    assert_eq!(user_attached(remote.create_user(&again)), Err(ProvisioningError::Conflict));
}

#[test]
fn attach_failures_keep_their_class() {
    assert_eq!(user_attached(Ok(())), Ok(()));
    assert_eq!(
        user_attached(Err(RemoteError::Status(404))),
        Err(ProvisioningError::NotFoundUnexpected)
    );
    assert_eq!(user_attached(Err(RemoteError::Status(401))), Err(ProvisioningError::Unauthorized));
    assert_eq!(user_attached(Err(RemoteError::Status(400))), Err(ProvisioningError::Malformed));
    assert_eq!(user_attached(Err(RemoteError::Transport)), Err(ProvisioningError::Transient));
}

#[test]
fn empty_user_name_is_malformed() {
    assert_eq!(
        create_erigon_user(&erigon(), String::new(), "pw".to_string()),
        Err(ProvisioningError::Malformed)
    );
}

#[test]
fn remote_errors_are_classified() {
    assert_eq!(RemoteError::Status(404).classify(), RemoteErrorKind::NotFound);
    assert_eq!(RemoteError::Status(409).classify(), RemoteErrorKind::Conflict);
    assert_eq!(RemoteError::Status(401).classify(), RemoteErrorKind::Unauthorized);
    assert_eq!(RemoteError::Status(403).classify(), RemoteErrorKind::Unauthorized);
    assert_eq!(RemoteError::Status(400).classify(), RemoteErrorKind::Malformed);
    assert_eq!(RemoteError::Status(422).classify(), RemoteErrorKind::Malformed);
    assert_eq!(RemoteError::Status(500).classify(), RemoteErrorKind::Transient);
    assert_eq!(RemoteError::Status(408).classify(), RemoteErrorKind::Transient);
    assert_eq!(RemoteError::Status(0).classify(), RemoteErrorKind::Transient);
    assert_eq!(RemoteError::Transport.classify(), RemoteErrorKind::Transient);
}

#[test]
fn classes_surface_under_their_own_error() {
    assert_eq!(RemoteErrorKind::NotFound.surface(), ProvisioningError::NotFoundUnexpected);
    assert_eq!(RemoteErrorKind::Conflict.surface(), ProvisioningError::Conflict);
    assert_eq!(RemoteErrorKind::Transient.surface(), ProvisioningError::Transient);
    assert_eq!(RemoteErrorKind::Unauthorized.surface(), ProvisioningError::Unauthorized);
    assert_eq!(RemoteErrorKind::Malformed.surface(), ProvisioningError::Malformed);
}

fn addr(octet0: u8, octet1: u8, octet2: u8, octet3: u8, port: u16) -> Option<ListenAddr> {
    Some(ListenAddr::V4(ListenAddrV4 { octet0, octet1, octet2, octet3, port }))
}

fn addr6(g: [u16; 8], port: u16, scope_id: u32) -> Option<ListenAddr> {
    Some(ListenAddr::V6(ListenAddrV6 {
        group0: g[0],
        group1: g[1],
        group2: g[2],
        group3: g[3],
        group4: g[4],
        group5: g[5],
        group6: g[6],
        group7: g[7],
        port,
        scope_id,
    }))
}

#[test]
fn bracketed_listen_addresses_are_parsed() {
    assert_eq!(parse_listen_addr("[::1]:80"), addr6([0, 0, 0, 0, 0, 0, 0, 1], 80, 0));
    assert_eq!(parse_listen_addr("[::1]:8080"), addr6([0, 0, 0, 0, 0, 0, 0, 1], 8080, 0));
    assert_eq!(
        parse_listen_addr("[2001:db8::1]:8080"),
        addr6([0x2001, 0xdb8, 0, 0, 0, 0, 0, 1], 8080, 0)
    );
    assert_eq!(parse_listen_addr("[::]:0"), addr6([0; 8], 0, 0));
    assert_eq!(
        parse_listen_addr("[1:2:3:4:5:6:7:8]:80"),
        addr6([1, 2, 3, 4, 5, 6, 7, 8], 80, 0)
    );
    assert_eq!(
        parse_listen_addr("[::ffff:1.2.3.4]:80"),
        addr6([0, 0, 0, 0, 0, 0xffff, 0x0102, 0x0304], 80, 0)
    );
    assert_eq!(
        parse_listen_addr("[::1.2.3.4]:80"),
        addr6([0, 0, 0, 0, 0, 0, 0x0102, 0x0304], 80, 0)
    );
    assert_eq!(
        parse_listen_addr("[1:2:3:4:5:6:255.255.0.10]:443"),
        addr6([1, 2, 3, 4, 5, 6, 0xffff, 0x000a], 443, 0)
    );
    assert_eq!(
        parse_listen_addr("[fe80::1%5]:80"),
        addr6([0xfe80, 0, 0, 0, 0, 0, 0, 1], 80, 5)
    );
    assert_eq!(
        parse_listen_addr("[fe80::1%4294967295]:80"),
        addr6([0xfe80, 0, 0, 0, 0, 0, 0, 1], 80, 4294967295)
    );
    assert_eq!(parse_listen_addr("[::1%007]:1"), addr6([0, 0, 0, 0, 0, 0, 0, 1], 1, 7));
    assert_eq!(
        parse_listen_addr("[1:2:3:4:5:6:7::]:80"),
        addr6([1, 2, 3, 4, 5, 6, 7, 0], 80, 0)
    );
    assert_eq!(
        parse_listen_addr("[::2:3:4:5:6:7:8]:80"),
        addr6([0, 2, 3, 4, 5, 6, 7, 8], 80, 0)
    );
    assert_eq!(
        parse_listen_addr("[ABCD:ef01::]:65535"),
        addr6([0xabcd, 0xef01, 0, 0, 0, 0, 0, 0], 65535, 0)
    );
    assert_eq!(parse_listen_addr("[1::8]:080"), addr6([1, 0, 0, 0, 0, 0, 0, 8], 80, 0));
    assert_eq!(parse_listen_addr("[0001:00a::0]:9"), addr6([1, 0xa, 0, 0, 0, 0, 0, 0], 9, 0));
}

#[test]
fn a_run_goes_ahead_on_a_bracketed_address() {
    let (state, action) = get_or_create_endpoint("svc", "[::1]:8080");
    assert_eq!(action, Action::Fetch { name: "svc".to_string() });
    let built = create_endpoint("svc", "[::1]:8080").unwrap();
    assert_eq!(Some(built.bind_http), addr6([0, 0, 0, 0, 0, 0, 0, 1], 8080, 0));
    assert_eq!(state, Provisioning::Fetching { spec: built });
    let mut remote = FakeRemote::new();
    let first = drive(&mut remote, "svc", "[::1]:8080").unwrap();
    assert!(first.was_created());
    assert_eq!(first.service().name, "svc");
    let second = drive(&mut remote, "svc", "[::1]:8080").unwrap();
    assert!(!second.was_created());
    assert_eq!(remote.creates, 1);
    let (calls, end) =
        scripted("svc", "[::1]:8080", vec![Reply::Fetched(Err(RemoteError::Status(503)))]);
    assert_eq!(calls, vec!["fetch svc".to_string()]);
    assert_eq!(end, Action::Finish { result: Err(ProvisioningError::Transient) });
}

#[test]
fn a_fetch_outside_a_run_keeps_its_class() {
    assert_eq!(fetched(Ok(erigon())), Ok(erigon()));
    assert_eq!(fetched(Err(RemoteError::Status(404))), Err(ProvisioningError::NotFoundUnexpected));
    assert_eq!(fetched(Err(RemoteError::Status(403))), Err(ProvisioningError::Unauthorized));
    assert_eq!(fetched(Err(RemoteError::Status(409))), Err(ProvisioningError::Conflict));
    assert_eq!(fetched(Err(RemoteError::Status(422))), Err(ProvisioningError::Malformed));
    assert_eq!(fetched(Err(RemoteError::Transport)), Err(ProvisioningError::Transient));
}

#[test]
fn listen_addresses_are_parsed() {
    assert_eq!(parse_listen_addr("127.0.0.1:8080"), addr(127, 0, 0, 1, 8080));
    assert_eq!(parse_listen_addr("0.0.0.0:0"), addr(0, 0, 0, 0, 0));
    assert_eq!(parse_listen_addr("255.255.255.255:65535"), addr(255, 255, 255, 255, 65535));
    assert_eq!(parse_listen_addr("1.22.3.44:080"), addr(1, 22, 3, 44, 80));
    assert_eq!(parse_listen_addr("9.8.7.6:0000065535"), addr(9, 8, 7, 6, 65535));
}

#[test]
fn bad_listen_addresses_are_refused() {
    let bad = [
        "",
        "bad-addr",
        "127.0.0.1",
        "127.0.0.1:",
        ":80",
        "127.0.0:80",
        "127.0.0.0.1:80",
        "256.0.0.1:80",
        "1.2.3.4:65536",
        "1.2.3.4:99999999999999999999",
        "01.2.3.4:80",
        "1.2.3.00:80",
        "1..3.4:80",
        "1.2.3.4:80 ",
        " 1.2.3.4:80",
        "1.2.3.4:-1",
        "1.2.3.4:8a",
        "1.2.3.1000:80",
        "localhost:80",
        "[::1]",
        "[::1]:",
        "[::1]80",
        "::1:80",
        "[]:80",
        "[:1]:80",
        "[1:2:3]:80",
        "[1:2:3:4:5:6:7:8:9]:80",
        "[1:2:3:4:5:6:7:8::]:80",
        "[1:2:3:4:5:6:7::8]:80",
        "[1:2:3:4:5:6:7:1.2.3.4]:80",
        "[1::2::3]:80",
        "[:::1]:80",
        "[12345::]:80",
        "[g::]:80",
        "[1.2.3.4::]:80",
        "[1.2.3.4]:80",
        "[::1.2.3]:80",
        "[::1.2.3.256]:80",
        "[::01.2.3.4]:80",
        "[::1%]:80",
        "[::1%4294967296]:80",
        "[::1%a]:80",
        "[::1]:65536",
        "[::1] :80",
        "[::1]:80x",
        "[::1",
        "1.2.3.4:80:90",
        "1:2.3.4.80",
    ];
    for text in bad {
        assert_eq!(parse_listen_addr(text), None, "{}", text);
    }
}

#[test]
fn an_endpoint_needs_routes_that_passed() {
    let built = build_endpoint("erigon", "127.0.0.1:8545", true).unwrap();
    assert_eq!(built.name, "erigon");
    assert_eq!(built.server_name, "127.0.0.1");
    assert_eq!(
        built.bind_http,
        ListenAddr::V4(ListenAddrV4 { octet0: 127, octet1: 0, octet2: 0, octet3: 1, port: 8545 })
    );
    assert_eq!(built.bind_https, None);
    assert_eq!(built.cert, None);
    assert_eq!(built.auth, None);
    assert_eq!(built.timeouts, None);
    assert_eq!(built.user, None);
    assert_eq!(built.from, "/");
    assert_eq!(built.to, "http://127.0.0.1/");
    assert_eq!(built.cpu_threads, None);
    assert_eq!(build_endpoint("erigon", "127.0.0.1:8545", false), Err(ProvisioningError::Malformed));
    assert_eq!(build_endpoint("", "127.0.0.1:8545", true), Err(ProvisioningError::Malformed));
    assert_eq!(build_endpoint("erigon", "bad-addr", true), Err(ProvisioningError::Malformed));
    // The routes of every description pass the check, so the two agree.
    assert_eq!(create_endpoint("erigon", "127.0.0.1:8545"), Ok(built));
}

#[test]
fn a_run_begins_from_what_was_built() {
    let built = build_endpoint("geth", "0.0.0.0:80", true).unwrap();
    let (state, action) = begin(Ok(built.clone()));
    assert_eq!(state, Provisioning::Fetching { spec: built });
    assert_eq!(action, Action::Fetch { name: "geth".to_string() });
    let (state, action) = begin(Err(ProvisioningError::Malformed));
    assert_eq!(state, Provisioning::Done);
    assert_eq!(action, Action::Finish { result: Err(ProvisioningError::Malformed) });
}

#[test]
fn an_existing_service_is_returned_after_one_fetch() {
    let mut remote = FakeRemote::new();
    remote.services.insert("erigon".to_string(), erigon());
    let outcome = drive(&mut remote, "erigon", "127.0.0.1:8545");
    assert_eq!(outcome, Ok(ProvisioningOutcome::Existing(erigon())));
    assert_eq!(remote.fetches, 1);
    assert_eq!(remote.creates, 0);
}

#[test]
fn the_erigon_service_is_fetched_by_name() {
    assert_eq!(get_erigon_service(), Action::Fetch { name: "erigon".to_string() });
}

#[test]
fn the_management_address_falls_back_to_the_default() {
    assert_eq!(get_management_api(None), "http://127.0.0.1:7777");
    assert_eq!(get_management_api(Some("http://10.0.0.1:9000".to_string())), "http://10.0.0.1:9000");
    assert_eq!(get_management_api(Some(String::new())), "");
}

#[test]
fn every_result_has_its_own_status() {
    assert_eq!(ProvisioningError::NotFoundUnexpected.status(), 500);
    assert_eq!(ProvisioningError::Conflict.status(), 409);
    assert_eq!(ProvisioningError::Transient.status(), 503);
    assert_eq!(ProvisioningError::Unauthorized.status(), 401);
    assert_eq!(ProvisioningError::Malformed.status(), 400);
    assert_eq!(ProvisioningOutcome::Existing(erigon()).status(), 200);
    assert_eq!(ProvisioningOutcome::Created(erigon()).status(), 201);
}

fn take_turn(remote: &mut FakeRemote, run: (Provisioning, Action)) -> (Provisioning, Action) {
    let (state, action) = run;
    if matches!(action, Action::Finish { .. }) {
        return (state, action);
    }
    let reply = remote.perform(&action);
    state.advance(reply)
}

#[test]
fn every_order_of_turns_ends_well_with_one_creation() {
    for order in 0u32..64 {
        let mut remote = FakeRemote::new();
        let mut left = get_or_create_endpoint("erigon", "127.0.0.1:8545");
        let mut right = get_or_create_endpoint("erigon", "127.0.0.1:8545");
        for turn in 0..6 {
            if order & (1 << turn) != 0 {
                left = take_turn(&mut remote, left);
            } else {
                right = take_turn(&mut remote, right);
            }
        }
        for _ in 0..3 {
            left = take_turn(&mut remote, left);
            right = take_turn(&mut remote, right);
        }
        for (state, action) in [left, right] {
            assert_eq!(state, Provisioning::Done);
            match action {
                Action::Finish { result: Ok(outcome) } => assert_eq!(outcome.service(), &erigon()),
                other => panic!("order {}: {:?}", order, other),
            }
        }
        assert_eq!(remote.created, 1);
        assert!(remote.creates <= 2);
        assert!(remote.fetches <= 4);
    }
}
