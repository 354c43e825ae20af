//! What holds of every get-or-create run, stated over a model of the remote.
//!
//! The model remote holds services by name. It answers a fetch with the
//! service of that name or with status 404, and a create with success, adding
//! a record, or with status 409 where the name is taken. It never drops or
//! changes a service.

use vstd::prelude::*;
use crate::errors::{kind_of, surfaced, ProvisioningError, RemoteError, RemoteErrorKind};
use crate::model::{ProvisioningOutcome, Service, ServiceSpec};
use crate::provisioning::{begun, ended, Action, Provisioning, Reply};

verus! {

/// How the model remote that holds `remote` answers `action`, and what it
/// holds afterwards. `record` is the service that it sets up on a create.
pub open spec fn answer(remote: Map<Seq<char>, Service>, record: Service, action: Action) -> (
    Map<Seq<char>, Service>,
    Reply,
) {
    match action {
        Action::Fetch { name } => if remote.contains_key(name@) {
            (remote, Reply::Fetched(Ok(remote[name@])))
        } else {
            (remote, Reply::Fetched(Err(RemoteError::Status(404))))
        },
        Action::Create { spec } => if remote.contains_key(spec.name@) {
            (remote, Reply::Created(Err(RemoteError::Status(409))))
        } else {
            (remote.insert(spec.name@, record), Reply::Created(Ok(())))
        },
        Action::Finish { .. } => (remote, Reply::Created(Ok(()))),
    }
}

/// A run in progress against the model remote, with what it has cost so far.
pub struct Run {
    pub remote: Map<Seq<char>, Service>,
    pub state: Provisioning,
    pub action: Action,
    /// The remote calls made.
    pub calls: nat,
    /// The create calls among them.
    pub creates: nat,
}

/// The run that stands at `state` with `action` pending, taken on by up to
/// `steps` remote calls.
pub open spec fn run(
    remote: Map<Seq<char>, Service>,
    record: Service,
    state: Provisioning,
    action: Action,
    steps: nat,
) -> Run
    decreases steps,
{
    if steps == 0 || action is Finish {
        Run { remote, state, action, calls: 0, creates: 0 }
    } else {
        let (after, reply) = answer(remote, record, action);
        let (state2, action2) = state.next(reply);
        let rest = run(after, record, state2, action2, (steps - 1) as nat);
        Run {
            remote: rest.remote,
            state: rest.state,
            action: rest.action,
            calls: rest.calls + 1,
            creates: rest.creates + if action is Create { 1nat } else { 0nat },
        }
    }
}

/// Every reply uses up one of the run's calls, the run hands out `Finish`
/// exactly when it has ended, and a create is handed out only by the first
/// fetch failing as `NotFound`. No state leads back to the first fetch, so a
/// run makes at most three calls, at most one of them a create.
pub proof fn law_calls_are_bounded(state: Provisioning, reply: Reply)
    ensures
        !(state is Done) ==> state.next(reply).0.calls_left() < state.calls_left(),
        state.next(reply).1 is Finish <==> state.next(reply).0 is Done,
        !(state.next(reply).0 is Fetching),
        state.next(reply).1 is Create ==> {
            &&& state is Fetching
            &&& reply matches Reply::Fetched(Err(e))
            &&& kind_of(e) == RemoteErrorKind::NotFound
        },
        state.next(reply).1 is Fetch ==> state is Creating,
{
}

/// The calls that a run makes, in order, when it stands at `state` with
/// `action` pending and the answers that arrive are `replies`.
pub open spec fn calls_made(state: Provisioning, action: Action, replies: Seq<Reply>) -> Seq<
    Action,
>
    decreases replies.len(),
{
    if action is Finish || replies.len() == 0 {
        Seq::empty()
    } else {
        let (state2, action2) = state.next(replies[0]);
        seq![action] + calls_made(state2, action2, replies.drop_first())
    }
}

/// Where a run stands after the answers `replies`, given in order; answers
/// that arrive after its end are left aside.
pub open spec fn after(state: Provisioning, action: Action, replies: Seq<Reply>) -> (
    Provisioning,
    Action,
)
    decreases replies.len(),
{
    if action is Finish || replies.len() == 0 {
        (state, action)
    } else {
        let (state2, action2) = state.next(replies[0]);
        after(state2, action2, replies.drop_first())
    }
}

/// Whatever the remote answers, and however many answers are offered, a run
/// makes at most three calls: a fetch, then a create, then a fetch. So it
/// never makes a second create. After three answers it has ended.
pub proof fn law_at_most_fetch_create_fetch(
    built: Result<ServiceSpec, ProvisioningError>,
    replies: Seq<Reply>,
)
    ensures
        ({
            let calls = calls_made(begun(built).0, begun(built).1, replies);
            &&& calls.len() <= 3
            &&& calls.len() >= 1 ==> calls[0] is Fetch
            &&& calls.len() >= 2 ==> calls[1] is Create
            &&& calls.len() >= 3 ==> calls[2] is Fetch
            &&& replies.len() >= 3 ==> after(begun(built).0, begun(built).1, replies).1 is Finish
        }),
{
    reveal_with_fuel(calls_made, 5);
    reveal_with_fuel(after, 5);
}

/// The outcome says whether the run made a create call: a run that ends as
/// `Existing` has made one fetch and nothing else, and a run that ends as
/// `Created` has made a fetch, a create and a fetch.
pub proof fn law_outcome_reports_the_create(
    built: Result<ServiceSpec, ProvisioningError>,
    replies: Seq<Reply>,
)
    ensures
        ({
            let calls = calls_made(begun(built).0, begun(built).1, replies);
            let end = after(begun(built).0, begun(built).1, replies).1;
            &&& end matches Action::Finish { result: Ok(ProvisioningOutcome::Existing(_)) }
                ==> calls.len() == 1 && calls[0] is Fetch
            &&& end matches Action::Finish { result: Ok(ProvisioningOutcome::Created(_)) }
                ==> calls.len() == 3 && calls[1] is Create
        }),
{
    reveal_with_fuel(calls_made, 5);
    reveal_with_fuel(after, 5);
}

/// A first fetch that fails as anything but `NotFound` ends the run with that
/// failure, and no create is handed out: a `Transient` failure is reported as
/// `Transient`.
pub proof fn law_fatal_fetch_ends_the_run(state: Provisioning, e: RemoteError)
    requires
        state is Fetching,
        kind_of(e) != RemoteErrorKind::NotFound,
    ensures
        state.next(Reply::Fetched(Err(e))) == ended(Err(surfaced(kind_of(e)))),
        kind_of(e) == RemoteErrorKind::Transient ==> state.next(Reply::Fetched(Err(e))) == ended(
            Err(ProvisioningError::Transient),
        ),
{
}

/// When the create has succeeded, or met a conflict, and the fetch after it
/// fails, in whatever way, the run ends as `NotFoundUnexpected`.
pub proof fn law_missing_after_create_is_inconsistent(
    state: Provisioning,
    created: Result<(), RemoteError>,
    e: RemoteError,
)
    requires
        state is Creating,
        created is Ok || kind_of(created->Err_0) == RemoteErrorKind::Conflict,
    ensures
        state.next(Reply::Created(created)).1 is Fetch,
        state.next(Reply::Created(created)).0.next(Reply::Fetched(Err(e))) == ended(
            Err(ProvisioningError::NotFoundUnexpected),
        ),
{
}

/// Against a remote that holds no service of that name, a first run ends as
/// `Created` and a second run right after it as `Existing`, both with the
/// same service, and the two together make exactly one create call.
pub proof fn law_get_or_create_is_idempotent(
    remote: Map<Seq<char>, Service>,
    record: Service,
    first: ServiceSpec,
    second: ServiceSpec,
)
    requires
        first.name@ == second.name@,
        !remote.contains_key(first.name@),
    ensures
        ({
            let one = run(remote, record, begun(Ok(first)).0, begun(Ok(first)).1, 3);
            let two = run(one.remote, record, begun(Ok(second)).0, begun(Ok(second)).1, 3);
            &&& one.action == (Action::Finish { result: Ok(ProvisioningOutcome::Created(record)) })
            &&& two.action == (Action::Finish { result: Ok(ProvisioningOutcome::Existing(record)) })
            &&& one.creates + two.creates == 1
            &&& one.calls == 3
            &&& two.calls == 1
            &&& two.remote == one.remote
        }),
{
    reveal_with_fuel(run, 5);
}

/// Against a remote that holds a service of that name, a run ends as
/// `Existing` with that service after one fetch, and leaves the remote as it
/// was.
pub proof fn law_existing_service_is_returned(
    remote: Map<Seq<char>, Service>,
    record: Service,
    spec: ServiceSpec,
)
    requires
        remote.contains_key(spec.name@),
    ensures
        ({
            let end = run(remote, record, begun(Ok(spec)).0, begun(Ok(spec)).1, 3);
            &&& end.action == (Action::Finish {
                result: Ok(ProvisioningOutcome::Existing(remote[spec.name@])),
            })
            &&& end.creates == 0
            &&& end.calls == 1
            &&& end.remote == remote
        }),
{
    reveal_with_fuel(run, 3);
}

/// Two runs that share the model remote.
pub struct Pair {
    pub remote: Map<Seq<char>, Service>,
    pub left: (Provisioning, Action),
    pub right: (Provisioning, Action),
    /// The create calls that the remote has answered with success.
    pub created: nat,
}

/// One run makes its pending call, if it has one, and takes the answer.
/// The third part says whether the call was a create that succeeded.
pub open spec fn turn(
    remote: Map<Seq<char>, Service>,
    record: Service,
    run: (Provisioning, Action),
) -> (Map<Seq<char>, Service>, (Provisioning, Action), bool) {
    if run.1 is Finish {
        (remote, run, false)
    } else {
        let (after, reply) = answer(remote, record, run.1);
        (after, run.0.next(reply), reply == Reply::Created(Ok(())))
    }
}

/// The pair after the turns that `schedule` gives, in order: `true` is a turn
/// of the left run, `false` one of the right run.
pub open spec fn interleave(start: Pair, record: Service, schedule: Seq<bool>) -> Pair
    decreases schedule.len(),
{
    if schedule.len() == 0 {
        start
    } else {
        let before = interleave(start, record, schedule.drop_last());
        if schedule.last() {
            let (remote, left, made) = turn(before.remote, record, before.left);
            Pair {
                remote,
                left,
                right: before.right,
                created: before.created + if made { 1nat } else { 0nat },
            }
        } else {
            let (remote, right, made) = turn(before.remote, record, before.right);
            Pair {
                remote,
                left: before.left,
                right,
                created: before.created + if made { 1nat } else { 0nat },
            }
        }
    }
}

/// How many turns `schedule` gives to the run `who`.
pub open spec fn turns_of(schedule: Seq<bool>, who: bool) -> nat
    decreases schedule.len(),
{
    if schedule.len() == 0 {
        0
    } else {
        turns_of(schedule.drop_last(), who) + if schedule.last() == who { 1nat } else { 0nat }
    }
}

/// A run for `name` is where it should be, given what the remote holds: it
/// waits for the second fetch only when the service is there, and it has
/// ended only with that service.
spec fn on_track(remote: Map<Seq<char>, Service>, name: Seq<char>, run: (Provisioning, Action)) -> bool {
    match run.0 {
        Provisioning::Fetching { spec } => {
            &&& spec.name@ == name
            &&& run.1 matches Action::Fetch { name: fetched }
            &&& fetched@ == name
        },
        Provisioning::Creating { name: kept } => {
            &&& kept@ == name
            &&& run.1 matches Action::Create { spec }
            &&& spec.name@ == name
        },
        Provisioning::RefetchAfterCreate | Provisioning::RefetchAfterConflict => {
            &&& remote.contains_key(name)
            &&& run.1 matches Action::Fetch { name: fetched }
            &&& fetched@ == name
        },
        Provisioning::Done => {
            &&& remote.contains_key(name)
            &&& run.1 matches Action::Finish { result: Ok(outcome) }
            &&& outcome.service_spec() == remote[name]
        },
    }
}

/// The turns that a run has had and the calls that it has left add up to
/// three at most.
spec fn within_budget(run: (Provisioning, Action), turns: nat) -> bool {
    run.0.calls_left() == 0 || run.0.calls_left() + turns <= 3
}

proof fn lemma_turn_stays_on_track(
    remote: Map<Seq<char>, Service>,
    record: Service,
    name: Seq<char>,
    run: (Provisioning, Action),
    other: (Provisioning, Action),
    turns: nat,
)
    requires
        on_track(remote, name, run),
        on_track(remote, name, other),
        within_budget(run, turns),
    ensures
        ({
            let (after, next, made) = turn(remote, record, run);
            &&& on_track(after, name, next)
            &&& on_track(after, name, other)
            &&& within_budget(next, turns + 1)
            &&& made ==> !remote.contains_key(name) && after.contains_key(name)
            &&& !made ==> after == remote
        }),
{
}

proof fn lemma_interleave_stays_on_track(
    start: Pair,
    record: Service,
    name: Seq<char>,
    schedule: Seq<bool>,
)
    requires
        on_track(start.remote, name, start.left),
        on_track(start.remote, name, start.right),
        start.left.0 is Fetching,
        start.right.0 is Fetching,
        start.created == 0,
    ensures
        ({
            let end = interleave(start, record, schedule);
            &&& on_track(end.remote, name, end.left)
            &&& on_track(end.remote, name, end.right)
            &&& within_budget(end.left, turns_of(schedule, true))
            &&& within_budget(end.right, turns_of(schedule, false))
            &&& start.remote.contains_key(name) ==> end.remote.contains_key(name) && end.created
                == 0
            &&& end.remote.contains_key(name) ==> end.created <= 1
            &&& !end.remote.contains_key(name) ==> end.created == 0
        }),
    decreases schedule.len(),
{
    if schedule.len() > 0 {
        lemma_interleave_stays_on_track(start, record, name, schedule.drop_last());
        let before = interleave(start, record, schedule.drop_last());
        if schedule.last() {
            lemma_turn_stays_on_track(
                before.remote,
                record,
                name,
                before.left,
                before.right,
                turns_of(schedule.drop_last(), true),
            );
        } else {
            lemma_turn_stays_on_track(
                before.remote,
                record,
                name,
                before.right,
                before.left,
                turns_of(schedule.drop_last(), false),
            );
        }
    }
}

/// Two runs for the same name that take their turns in any order never end
/// in an error: each one that has ended holds the service that the remote
/// holds under that name, as `Created` or `Existing`. The remote answers at
/// most one create with success, and none where it held the service before.
/// A run has ended once it has had three turns.
pub proof fn law_concurrent_runs_agree(
    remote: Map<Seq<char>, Service>,
    record: Service,
    left: ServiceSpec,
    right: ServiceSpec,
    schedule: Seq<bool>,
)
    requires
        left.name@ == right.name@,
    ensures
        ({
            let name = left.name@;
            let start = Pair { remote, left: begun(Ok(left)), right: begun(Ok(right)), created: 0 };
            let end = interleave(start, record, schedule);
            &&& end.created <= 1
            &&& remote.contains_key(name) ==> end.created == 0
            &&& end.left.1 matches Action::Finish { result } ==> {
                &&& result matches Ok(outcome)
                &&& end.remote.contains_key(name)
                &&& outcome.service_spec() == end.remote[name]
            }
            &&& end.right.1 matches Action::Finish { result } ==> {
                &&& result matches Ok(outcome)
                &&& end.remote.contains_key(name)
                &&& outcome.service_spec() == end.remote[name]
            }
            &&& turns_of(schedule, true) >= 3 ==> end.left.1 is Finish
            &&& turns_of(schedule, false) >= 3 ==> end.right.1 is Finish
        }),
{
    lemma_interleave_stays_on_track(
        Pair { remote, left: begun(Ok(left)), right: begun(Ok(right)), created: 0 },
        record,
        left.name@,
        schedule,
    );
}

} // verus!
