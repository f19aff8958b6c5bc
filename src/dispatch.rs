use vstd::prelude::*;
use crate::actions::{Action, ExternalAction, InternalAction};
use crate::connection::Outbound;
use crate::dto::{is_dto_of, is_log_of, LogDto};
use crate::error::Error;
use crate::log::{parse_log_type, Log};
use crate::state::State;

verus! {

/// What the dispatcher is handed: an action, or the outcome of the store
/// operation it asked for last.
pub enum Event<H> {
    Received(Action<H>),
    Persisted(Result<Log, Error>),
    Fetched(Result<Vec<Log>, Error>),
    Truncated(Result<(), Error>),
}

/// What the dispatcher asks to be done next.
pub enum Effect<H> {
    /// Nothing: wait for the next action.
    Wait,
    /// Send a message to the requester's writer, then wait.
    Reply(H, Outbound),
    /// Report an error to the requester, then wait.
    Failure(H, Error),
    /// Send the text to the writer of each listed client, then wait. A failed
    /// delivery does not stop the others.
    Broadcast(Vec<usize>, String),
    /// Store the record and hand back `Persisted`.
    Persist(Log),
    /// Fetch the stored records, at most the given number where one is
    /// given, and hand back `Fetched`.
    Fetch(Option<i64>),
    /// Delete every stored record and hand back `Truncated`.
    Truncate,
    /// Send these records to the requester as one reply, then wait.
    Records(H, Vec<LogDto>),
}

/// The request the dispatcher is in the middle of.
pub enum Job<H> {
    Idle,
    /// A record is being stored; the records after it wait in order.
    Storing(H, Vec<LogDto>),
    /// Records are being fetched for a read with this limit.
    Reading(H, i64),
    /// The store is being emptied.
    Clearing(H),
}

/// The single owner of the client registry, taking one event at a time.
pub struct Dispatcher<H> {
    pub state: State<H>,
    pub job: Job<H>,
}

/// The registry after an action.
pub open spec fn registry_after<H>(m: Map<usize, H>, a: Action<H>) -> Map<usize, H> {
    match a {
        Action::Internal(InternalAction::AddClient((id, h))) => m.insert(id, h),
        Action::External((ExternalAction::RemoveClient, id, _)) => m.remove(id),
        _ => m,
    }
}

/// How many records a read with this limit returns out of those available: a
/// limit of zero or below means all of them.
pub open spec fn read_count(limit: i64, available: nat) -> nat {
    if 0 < limit && limit < available {
        limit as nat
    } else {
        available
    }
}

/// The bound a read with this limit asks the store for; none means all.
pub open spec fn fetch_bound(limit: i64) -> Option<i64> {
    if limit > 0 {
        Some(limit)
    } else {
        None
    }
}

/// `reply` is the wire form of the records that a read with this limit
/// returns out of those fetched, in the order they were fetched.
pub open spec fn is_read_reply(limit: i64, fetched: Seq<Log>, reply: Seq<LogDto>) -> bool {
    &&& reply.len() == read_count(limit, fetched.len())
    &&& forall|i: int| 0 <= i < reply.len() ==> is_dto_of(#[trigger] reply[i], fetched[i])
}

/// The next step of a batch of records to store for `origin`: the first
/// record is validated and stored, or the batch ends with its error, or,
/// when none is left, in silence.
pub open spec fn batch_step<H>(origin: H, records: Seq<LogDto>, job: Job<H>, effect: Effect<H>) -> bool {
    if records.len() == 0 {
        job is Idle && effect is Wait
    } else if parse_log_type(records[0].log_type@) is Some {
        &&& (job matches Job::Storing(h, rest) && h == origin && rest@ == records.drop_first())
        &&& (effect matches Effect::Persist(l) && is_log_of(l, records[0]))
    } else {
        job is Idle && (effect matches Effect::Failure(h, Error::InvalidLogType) && h == origin)
    }
}

/// What the dispatcher does with an action when it is idle.
pub open spec fn action_step<H>(m: Map<usize, H>, a: Action<H>, job: Job<H>, effect: Effect<H>) -> bool {
    match a {
        Action::Internal(_) => job is Idle && effect is Wait,
        Action::External((ext, _, origin)) => match ext {
            ExternalAction::Ping => job is Idle && (effect matches Effect::Reply(
                h,
                Outbound::Line(s),
            ) && h == origin && s@ == "pong"@),
            ExternalAction::RemoveClient => job is Idle && (effect matches Effect::Reply(
                h,
                Outbound::Close,
            ) && h == origin),
            ExternalAction::Recompile => job is Idle && (effect matches Effect::Broadcast(ids, s)
                && ids@.to_set() == m.dom() && ids@.no_duplicates() && s@ == "recompile"@),
            ExternalAction::StoreLog(d) => batch_step(origin, seq![d], job, effect),
            ExternalAction::StoreLogs(ds) => batch_step(origin, ds@, job, effect),
            ExternalAction::ReadLogs(limit) => (job matches Job::Reading(h, l) && h == origin && l
                == limit) && (effect matches Effect::Fetch(b) && b == fetch_bound(limit)),
            ExternalAction::ClearLogs => (job matches Job::Clearing(h) && h == origin)
                && effect is Truncate,
        },
    }
}

/// Whether the event is the one the job waits for.
pub open spec fn expects<H>(job: Job<H>, event: Event<H>) -> bool {
    match (job, event) {
        (Job::Idle, Event::Received(_)) => true,
        (Job::Storing(_, _), Event::Persisted(_)) => true,
        (Job::Reading(_, _), Event::Fetched(_)) => true,
        (Job::Clearing(_), Event::Truncated(_)) => true,
        _ => false,
    }
}

/// What the dispatcher does with the event its job waits for.
pub open spec fn event_step<H>(
    m: Map<usize, H>,
    old_job: Job<H>,
    event: Event<H>,
    job: Job<H>,
    effect: Effect<H>,
) -> bool {
    match (old_job, event) {
        (Job::Idle, Event::Received(a)) => action_step(m, a, job, effect),
        (Job::Storing(origin, rest), Event::Persisted(Ok(_))) => batch_step(origin, rest@, job, effect),
        (Job::Storing(origin, _), Event::Persisted(Err(e))) => job is Idle && effect == Effect::<
            H,
        >::Failure(origin, e),
        (Job::Reading(origin, limit), Event::Fetched(Ok(logs))) => job is Idle && (
        effect matches Effect::Records(h, reply) && h == origin && is_read_reply(
            limit,
            logs@,
            reply@,
        )),
        (Job::Reading(origin, _), Event::Fetched(Err(e))) => job is Idle && effect == Effect::<
            H,
        >::Failure(origin, e),
        (Job::Clearing(origin), Event::Truncated(Ok(_))) => job is Idle && (
        effect matches Effect::Reply(h, Outbound::Line(s)) && h == origin && s@ == "ok"@),
        (Job::Clearing(origin), Event::Truncated(Err(e))) => job is Idle && effect == Effect::<
            H,
        >::Failure(origin, e),
        _ => false,
    }
}

/// Builds the reply to a read from the records the store returned: the first
/// `limit` of them when the limit is positive, all of them otherwise.
pub fn read_reply(limit: i64, logs: Vec<Log>) -> (r: Vec<LogDto>)
    ensures
        is_read_reply(limit, logs@, r@),
{
    let mut logs = logs;
    let ghost fetched = logs@;
    if limit > 0 && (limit as u128) < (logs.len() as u128) {
        logs.truncate(limit as usize);
    }
    let ghost kept = logs@;
    assert(kept.len() == read_count(limit, fetched.len()));
    let mut reply: Vec<LogDto> = Vec::new();
    for log in it: logs
        invariant
            it.seq() == kept,
            kept.len() == read_count(limit, fetched.len()),
            kept.len() <= fetched.len(),
            forall|i: int| 0 <= i < kept.len() ==> kept[i] == fetched[i],
            reply@.len() == it.index(),
            forall|i: int| 0 <= i < reply@.len() ==> is_dto_of(#[trigger] reply@[i], fetched[i]),
    {
        let ghost before = reply@;
        reply.push(LogDto::from_log(log));
        assert forall|i: int| 0 <= i < reply@.len() implies is_dto_of(
            #[trigger] reply@[i],
            fetched[i],
        ) by {
            if i < before.len() {
                assert(reply@[i] == before[i]);
            }
        }
    }
    reply
}

/// Starts the next step of a batch of records to store for `origin`.
fn batch_next<H>(origin: H, records: Vec<LogDto>) -> (r: (Job<H>, Effect<H>))
    ensures
        batch_step(origin, records@, r.0, r.1),
{
    let mut records = records;
    if records.len() == 0 {
        return (Job::Idle, Effect::Wait);
    }
    let first = records.remove(0);
    match first.to_log() {
        Ok(l) => (Job::Storing(origin, records), Effect::Persist(l)),
        Err(e) => (Job::Idle, Effect::Failure(origin, e)),
    }
}

impl<H> Dispatcher<H> {
    pub fn new() -> (r: Dispatcher<H>)
        ensures
            r.state@ == Map::<usize, H>::empty(),
            r.job is Idle,
    {
        Dispatcher { state: State::new(), job: Job::Idle }
    }

    /// Takes one event. The event the job waits for moves the dispatcher on
    /// and says what to do next; any other event is dropped and changes
    /// nothing.
    pub fn step(&mut self, event: Event<H>) -> (r: Effect<H>)
        ensures
            expects(old(self).job, event) ==> event_step(
                old(self).state@,
                old(self).job,
                event,
                final(self).job,
                r,
            ),
            expects(old(self).job, event) ==> final(self).state@ == match event {
                Event::Received(a) => registry_after(old(self).state@, a),
                _ => old(self).state@,
            },
            !expects(old(self).job, event) ==> {
                &&& final(self).job == old(self).job
                &&& final(self).state@ == old(self).state@
                &&& r is Wait
            },
    {
        let mut job = Job::Idle;
        std::mem::swap(&mut job, &mut self.job);
        match (job, event) {
            (Job::Idle, Event::Received(action)) => match action {
                Action::Internal(InternalAction::AddClient((id, handle))) => {
                    self.state.insert(id, handle);
                    Effect::Wait
                },
                Action::External((ext, id, origin)) => match ext {
                    ExternalAction::Ping => Effect::Reply(
                        origin,
                        Outbound::Line(String::from_str("pong")),
                    ),
                    ExternalAction::RemoveClient => {
                        self.state.remove(id);
                        Effect::Reply(origin, Outbound::Close)
                    },
                    ExternalAction::Recompile => {
                        let ids = self.state.client_ids();
                        Effect::Broadcast(ids, String::from_str("recompile"))
                    },
                    ExternalAction::StoreLog(d) => {
                        let mut records: Vec<LogDto> = Vec::new();
                        records.push(d);
                        assert(records@ =~= seq![d]);
                        let (job, effect) = batch_next(origin, records);
                        self.job = job;
                        effect
                    },
                    ExternalAction::StoreLogs(ds) => {
                        let (job, effect) = batch_next(origin, ds);
                        self.job = job;
                        effect
                    },
                    ExternalAction::ReadLogs(limit) => {
                        self.job = Job::Reading(origin, limit);
                        if limit > 0 {
                            Effect::Fetch(Some(limit))
                        } else {
                            Effect::Fetch(None)
                        }
                    },
                    ExternalAction::ClearLogs => {
                        self.job = Job::Clearing(origin);
                        Effect::Truncate
                    },
                },
            },
            (Job::Storing(origin, rest), Event::Persisted(outcome)) => match outcome {
                Ok(_) => {
                    let (job, effect) = batch_next(origin, rest);
                    self.job = job;
                    effect
                },
                Err(e) => Effect::Failure(origin, e),
            },
            (Job::Reading(origin, limit), Event::Fetched(outcome)) => match outcome {
                Ok(logs) => Effect::Records(origin, read_reply(limit, logs)),
                Err(e) => Effect::Failure(origin, e),
            },
            (Job::Clearing(origin), Event::Truncated(outcome)) => match outcome {
                Ok(_) => Effect::Reply(origin, Outbound::Line(String::from_str("ok"))),
                Err(e) => Effect::Failure(origin, e),
            },
            (job, _) => {
                self.job = job;
                Effect::Wait
            },
        }
    }
}

/// Read limits: a limit of zero and a limit of minus one both ask the store
/// for every record and return all that it gave; a positive limit `n` asks
/// for at most `n` and returns at most `n`.
pub proof fn lemma_read_limits(n: i64, fetched: Seq<Log>, reply: Seq<LogDto>)
    ensures
        fetch_bound(0) is None,
        fetch_bound(-1i64) is None,
        is_read_reply(0, fetched, reply) ==> reply.len() == fetched.len(),
        is_read_reply(-1i64, fetched, reply) ==> reply.len() == fetched.len(),
        n > 0 ==> fetch_bound(n) == Some(n),
        n > 0 && is_read_reply(n, fetched, reply) ==> reply.len() <= n,
{
}

/// Clearing is idempotent: a clear request asks the store to truncate, and a
/// successful truncation is answered "ok" and leaves the dispatcher idle
/// with its registry unchanged, so a second clear goes the same way. A read
/// of all records from an emptied store returns nothing.
pub proof fn lemma_clear_logs<H>(
    m: Map<usize, H>,
    id: usize,
    origin: H,
    job: Job<H>,
    effect: Effect<H>,
    done: Job<H>,
    answer: Effect<H>,
    reply: Seq<LogDto>,
)
    requires
        action_step(m, Action::External((ExternalAction::ClearLogs, id, origin)), job, effect),
        event_step(m, job, Event::Truncated(Ok(())), done, answer),
    ensures
        effect is Truncate,
        registry_after(m, Action::External((ExternalAction::ClearLogs, id, origin))) == m,
        done is Idle,
        answer matches Effect::Reply(h, Outbound::Line(s)) && h == origin && s@ == "ok"@,
        is_read_reply(0, Seq::<Log>::empty(), reply) ==> reply.len() == 0,
{
}

/// Registry consistency: once a client has been added and then removed, a
/// recompile broadcast does not address it.
pub proof fn lemma_removed_client_not_addressed<H>(
    m: Map<usize, H>,
    id: usize,
    handle: H,
    sender: H,
    requester: usize,
    origin: H,
    job: Job<H>,
    effect: Effect<H>,
)
    requires
        action_step(
            registry_after(
                registry_after(m, Action::Internal(InternalAction::AddClient((id, handle)))),
                Action::External((ExternalAction::RemoveClient, id, sender)),
            ),
            Action::External((ExternalAction::Recompile, requester, origin)),
            job,
            effect,
        ),
    ensures
        effect matches Effect::Broadcast(ids, _) && !ids@.contains(id),
{
    let m2 = registry_after(
        registry_after(m, Action::Internal(InternalAction::AddClient((id, handle)))),
        Action::External((ExternalAction::RemoveClient, id, sender)),
    );
    assert(!m2.dom().contains(id));
    if let Effect::Broadcast(ids, _) = effect {
        if ids@.contains(id) {
            assert(ids@.to_set().contains(id));
        }
    }
}

/// Validation: a record whose severity is "critical" is refused with an
/// invalid-severity error, and nothing is handed to the store.
pub proof fn lemma_unknown_severity_refused<H>(
    m: Map<usize, H>,
    d: LogDto,
    id: usize,
    origin: H,
    job: Job<H>,
    effect: Effect<H>,
)
    requires
        d.log_type@ == "critical"@,
        action_step(m, Action::External((ExternalAction::StoreLog(d), id, origin)), job, effect),
    ensures
        job is Idle,
        effect matches Effect::Failure(h, Error::InvalidLogType) && h == origin,
{
    reveal_strlit("critical");
    reveal_strlit("log");
    reveal_strlit("warning");
    reveal_strlit("error");
    assert("critical"@.len() == 8 && "log"@.len() == 3 && "warning"@.len() == 7
        && "error"@.len() == 5);
    assert(parse_log_type(d.log_type@) is None);
    assert(seq![d][0] == d);
}

/// Each valid record request is stored exactly once: it asks the store to
/// persist that one record, and once the store has done so the dispatcher is
/// idle again with nothing more to do. Requests handled one after another
/// therefore store one record each.
pub proof fn lemma_store_log_once<H>(
    m: Map<usize, H>,
    d: LogDto,
    id: usize,
    origin: H,
    stored: Log,
    job: Job<H>,
    effect: Effect<H>,
    done: Job<H>,
    next: Effect<H>,
)
    requires
        parse_log_type(d.log_type@) is Some,
        action_step(m, Action::External((ExternalAction::StoreLog(d), id, origin)), job, effect),
        event_step(m, job, Event::Persisted(Ok(stored)), done, next),
    ensures
        effect matches Effect::Persist(l) && is_log_of(l, d),
        done is Idle,
        next is Wait,
{
    assert(seq![d][0] == d);
    assert(seq![d].drop_first().len() == 0);
}

/// A disconnect touches only its own client: removing one client leaves
/// every other registration, and so every other client's deliveries, as it
/// was.
pub proof fn lemma_removal_keeps_others<H>(m: Map<usize, H>, id: usize, sender: H, other: usize)
    requires
        other != id,
    ensures
        ({
            let after = registry_after(
                m,
                Action::External((ExternalAction::RemoveClient, id, sender)),
            );
            &&& after.dom().contains(other) == m.dom().contains(other)
            &&& m.dom().contains(other) ==> after[other] == m[other]
        }),
{
}

} // verus!
