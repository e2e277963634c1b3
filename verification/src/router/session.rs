//! Sessions: a bridged connection's writer that survives reconnects, with a
//! backlog for the messages that arrive while the writer is gone.
use std::time::{Duration, Instant};

use vstd::prelude::*;
use vstd::std_specs::convert::FromSpecImpl;

use crate::clock::{as_nanos_of, duration_from_millis, duration_gt, instant_elapsed, instant_now};
use crate::queue::{pushed, Queue};
use crate::bridge::message::{SessionMessage, WriterMessage};
use crate::storage::agents::Key;

verus! {

/// The bytes exchanged when a connection negotiates its session.
#[derive(Debug, Copy, Clone, PartialEq, Eq, Structural)]
pub enum SessionNegotiation {
    HasExistingSession,
    RequestNewSession,
    ValidSession,
    InvalidSession,
    InvalidSessionNegotiation,
}

impl SessionNegotiation {
    /// The byte that stands for the step on the wire.
    pub open spec fn spec_code(self) -> u8 {
        match self {
            SessionNegotiation::HasExistingSession => 1,
            SessionNegotiation::RequestNewSession => 2,
            SessionNegotiation::ValidSession => 3,
            SessionNegotiation::InvalidSession => 4,
            SessionNegotiation::InvalidSessionNegotiation => 5,
        }
    }

    /// The byte that stands for the step on the wire.
    #[verifier::when_used_as_spec(spec_code)]
    pub fn code(self) -> (r: u8)
        ensures
            r == self.spec_code(),
    {
        match self {
            SessionNegotiation::HasExistingSession => 1,
            SessionNegotiation::RequestNewSession => 2,
            SessionNegotiation::ValidSession => 3,
            SessionNegotiation::InvalidSession => 4,
            SessionNegotiation::InvalidSessionNegotiation => 5,
        }
    }
}

/// The step a byte stands for; any other byte is an invalid negotiation.
pub open spec fn negotiation_from_byte(value: u8) -> SessionNegotiation {
    if value == 1 {
        SessionNegotiation::HasExistingSession
    } else if value == 2 {
        SessionNegotiation::RequestNewSession
    } else if value == 3 {
        SessionNegotiation::ValidSession
    } else if value == 4 {
        SessionNegotiation::InvalidSession
    } else {
        SessionNegotiation::InvalidSessionNegotiation
    }
}

impl From<u8> for SessionNegotiation {
    fn from(value: u8) -> (r: Self) {
        match value {
            1 => SessionNegotiation::HasExistingSession,
            2 => SessionNegotiation::RequestNewSession,
            3 => SessionNegotiation::ValidSession,
            4 => SessionNegotiation::InvalidSession,
            _ => SessionNegotiation::InvalidSessionNegotiation,
        }
    }
}

impl FromSpecImpl<u8> for SessionNegotiation {
    open spec fn obeys_from_spec() -> bool {
        true
    }

    open spec fn from_spec(v: u8) -> Self {
        negotiation_from_byte(v)
    }
}

impl Default for SessionNegotiation {
    fn default() -> (r: Self)
        ensures
            r == SessionNegotiation::InvalidSessionNegotiation,
    {
        SessionNegotiation::InvalidSessionNegotiation
    }
}

/// Reading back the byte of a valid step gives the step.
pub proof fn law_negotiation_roundtrip(n: SessionNegotiation)
    requires
        n != SessionNegotiation::InvalidSessionNegotiation,
    ensures
        negotiation_from_byte(n.spec_code()) == n,
{
}

/// When a session expires.
#[derive(Debug)]
pub enum Expiration {
    Never,
    After(Duration, Instant),
}

/// Whether an expiration has passed once `elapsed` passed since it was started or
/// renewed: never for one that never expires, otherwise once more than its
/// duration passed.
pub open spec fn expired(e: Expiration, elapsed: Duration) -> bool {
    match e {
        Expiration::Never => false,
        Expiration::After(d, _) => as_nanos_of(elapsed) > as_nanos_of(d),
    }
}

/// The expiration `e` restarted at `now`: one that never expires stays so, one
/// that expires after a duration now counts that duration from `now`.
pub open spec fn renewed(e: Expiration, now: Instant) -> Expiration {
    match e {
        Expiration::Never => Expiration::Never,
        Expiration::After(d, _) => Expiration::After(d, now),
    }
}

impl Expiration {
    /// A session that never expires.
    pub fn never() -> (r: Self)
        ensures
            r is Never,
    {
        Expiration::Never
    }

    /// A session that expires `duration` after now.
    pub fn after(duration: Duration) -> (r: Self)
        ensures
            r matches Expiration::After(d, _) && d == duration,
    {
        Expiration::After(duration, instant_now())
    }

    /// Restart the expiration at `now`.
    pub fn renew_at(&mut self, now: Instant)
        ensures
            *final(self) == renewed(*old(self), now),
    {
        match self {
            Expiration::Never => {},
            Expiration::After(_, instant) => {
                *instant = now;
            },
        }
    }

    /// Restart the expiration from now, which the clock tells.
    pub fn renew(&mut self)
        ensures
            *old(self) is Never ==> *final(self) is Never,
            *old(self) matches Expiration::After(d, _) ==> (*final(self) matches Expiration::After(
                d2,
                _,
            ) && d2 == d),
            exists|now: Instant| *final(self) == #[trigger] renewed(*old(self), now),
    {
        let now = instant_now();
        self.renew_at(now);
    }

    /// Whether the session has expired once `elapsed` passed since it was started.
    pub fn expired_after(&self, elapsed: &Duration) -> (r: bool)
        ensures
            r == expired(*self, *elapsed),
    {
        match self {
            Expiration::Never => false,
            Expiration::After(dur, _) => duration_gt(elapsed, dur),
        }
    }

    /// The time since the expiration was started or renewed, which the clock
    /// decides; no time for one that never expires.
    pub fn elapsed(&self) -> (r: Duration)
        ensures
            *self is Never ==> as_nanos_of(r) == 0,
    {
        match self {
            Expiration::Never => duration_from_millis(0),
            Expiration::After(_, ts) => instant_elapsed(ts),
        }
    }

    /// Whether the session has expired: more than its duration elapsed since it
    /// was started or renewed (see `expired`; the clock decides what elapsed).
    pub fn has_expired(&self) -> (r: bool)
        ensures
            exists|elapsed: Duration| r == #[trigger] expired(*self, elapsed),
    {
        let elapsed = self.elapsed();
        self.expired_after(&elapsed)
    }
}

} // verus!

verus! {

/// Whether a session forwards to its writer or keeps a backlog.
#[derive(Debug, Copy, Clone, PartialEq, Eq, Structural)]
pub enum State {
    Write,
    Log,
}

/// What the session's loop does after a message.
#[derive(Debug)]
pub enum SessionAction {
    /// Send the message to the writer
    Forward { writer: Key, msg: WriterMessage },
    /// Send the backlogged messages, oldest first, to the writer
    Flush { writer: Key, msgs: Vec<WriterMessage> },
    /// Remove the writer's agent
    RemoveWriter(Key),
    /// The session expired: remove the session's own agent and stop
    Expire,
    /// Wait for the next message
    Continue,
}

/// The decisions of a session: it forwards messages to its writer while the
/// writer is there, backlogs them while it is gone, and hands the backlog to
/// the writer that returns.
#[derive(Debug)]
pub struct Session {
    expiration: Expiration,
    backlog: Queue<WriterMessage>,
    writer_key: Key,
    state: State,
}

/// Two expirations are alike: both never expire, or both expire after the same duration.
pub open spec fn same_expiration(a: Expiration, b: Expiration) -> bool {
    match a {
        Expiration::Never => b is Never,
        Expiration::After(d, _) => b matches Expiration::After(d2, _) && d2 == d,
    }
}

/// A renewed expiration is alike the one it renews.
pub proof fn law_renewal_keeps_duration(e: Expiration, now: Instant)
    ensures
        same_expiration(e, renewed(e, now)),
{
}

/// `after` and `r` are what a session in state `before` makes of `msg`, when its
/// backlog's buffer holds `capacity` values, `elapsed` passed since its
/// expiration was started or renewed, and the clock reads `now`.
pub open spec fn session_stepped(
    before: Session,
    after: Session,
    msg: SessionMessage,
    capacity: usize,
    elapsed: Duration,
    now: Instant,
    r: SessionAction,
) -> bool {
    &&& after.backlog_cap() == before.backlog_cap()
    &&& match msg {
        SessionMessage::Writer(m) => match before.state() {
            State::Write => r == (SessionAction::Forward { writer: before.writer(), msg: m })
                && after == before,
            State::Log => {
                &&& r is Continue
                &&& after.backlog() == pushed(before.backlog(), m, capacity as int)
                &&& after.state() == before.state()
                &&& after.writer() == before.writer()
                &&& after.expiration() == before.expiration()
            },
        },
        SessionMessage::AgentRemoved(key) => {
            &&& r is Continue
            &&& after.writer() == before.writer()
            &&& after.backlog() == before.backlog()
            &&& if key == before.writer() {
                &&& after.state() == State::Log
                &&& after.expiration() == renewed(before.expiration(), now)
            } else {
                &&& after.state() == before.state()
                &&& after.expiration() == before.expiration()
            }
        },
        SessionMessage::WriterReturned(key) => {
            &&& r matches SessionAction::Flush { writer, msgs } && writer == key && msgs@
                == before.backlog()
            &&& after.writer() == key
            &&& after.backlog() == Seq::<WriterMessage>::empty()
            &&& after.state() == before.state()
            &&& after.expiration() == before.expiration()
        },
        SessionMessage::CloseWriter => r == SessionAction::RemoveWriter(before.writer())
            && after == before,
        SessionMessage::SessionPing => {
            &&& after == before
            &&& r is Expire || r is Continue
            &&& r is Expire <==> before.state() == State::Log && expired(before.expiration(), elapsed)
        },
    }
}

impl Session {
    /// The state of the session.
    pub closed spec fn state(&self) -> State {
        self.state
    }

    /// The writer the session forwards to.
    pub closed spec fn writer(&self) -> Key {
        self.writer_key
    }

    /// The backlogged messages, oldest first.
    pub closed spec fn backlog(&self) -> Seq<WriterMessage> {
        self.backlog.items()
    }

    /// When the session expires.
    pub closed spec fn expiration(&self) -> Expiration {
        self.expiration
    }

    /// The room for backlogged messages the session was made with.
    pub closed spec fn backlog_cap(&self) -> usize {
        self.backlog.spec_cap()
    }

    /// A session that writes to `writer_key`, with room for `cap` backlogged messages.
    pub fn new(expiration: Expiration, writer_key: Key, cap: usize) -> (r: Self)
        ensures
            r.state() == State::Write,
            r.writer() == writer_key,
            r.backlog() == Seq::<WriterMessage>::empty(),
            r.expiration() == expiration,
            r.backlog_cap() == cap,
    {
        Session { expiration, backlog: Queue::with_capacity(cap), writer_key, state: State::Write }
    }

    /// The number of backlogged messages.
    pub fn backlog_len(&self) -> (r: usize)
        ensures
            r == self.backlog().len(),
    {
        self.backlog.len()
    }

    /// Backlog a message.
    pub fn push(&mut self, msg: WriterMessage)
        requires
            old(self).backlog().len() < usize::MAX,
        ensures
            exists|c: usize|
                c >= old(self).backlog().len() && c >= old(self).backlog_cap() && final(self).backlog()
                    == #[trigger] pushed(
                    old(self).backlog(),
                    msg,
                    c as int,
                ),
            final(self).state() == old(self).state(),
            final(self).writer() == old(self).writer(),
            final(self).expiration() == old(self).expiration(),
            final(self).backlog_cap() == old(self).backlog_cap(),
    {
        self.backlog.push(msg);
    }

    /// Decide what to do with a message, given how many values the backlog's buffer
    /// holds and how long ago the expiration was started or renewed:
    /// - a message for the writer is forwarded while writing, backlogged while logging;
    /// - the removal of the writer switches to logging and renews the expiration
    ///   (the removal of another agent changes nothing);
    /// - a returning writer becomes the writer and receives the whole backlog;
    /// - closing asks to remove the writer;
    /// - a ping while logging expires the session once its expiration has passed.
    pub fn step_at(&mut self, msg: SessionMessage, capacity: usize, elapsed: &Duration, now: Instant) -> (r: SessionAction)
        requires
            old(self).backlog().len() < usize::MAX,
        ensures
            session_stepped(*old(self), *final(self), msg, capacity, *elapsed, now, r),
    {
        match msg {
            SessionMessage::Writer(writer_msg) => match self.state {
                State::Write => SessionAction::Forward { writer: self.writer_key, msg: writer_msg },
                State::Log => {
                    self.backlog.push_with_capacity(writer_msg, capacity);
                    SessionAction::Continue
                },
            },
            SessionMessage::AgentRemoved(key) => {
                if key == self.writer_key {
                    self.state = State::Log;
                    self.expiration.renew_at(now);
                }
                SessionAction::Continue
            },
            SessionMessage::WriterReturned(new_key) => {
                self.writer_key = new_key;
                let mut msgs: Vec<WriterMessage> = Vec::new();
                let ghost all = self.backlog.items();
                loop
                    invariant
                        msgs@ + self.backlog.items() == all,
                        self.writer_key == new_key,
                        self.state == old(self).state,
                        self.expiration == old(self).expiration,
                        self.backlog.spec_cap() == old(self).backlog.spec_cap(),
                    ensures
                        msgs@ == all,
                        self.backlog.items() == Seq::<WriterMessage>::empty(),
                    decreases self.backlog.items().len(),
                {
                    match self.backlog.pop() {
                        Some(m) => {
                            msgs.push(m);
                        },
                        None => {
                            assert(msgs@ + Seq::<WriterMessage>::empty() == msgs@);
                            break ;
                        },
                    }
                }
                SessionAction::Flush { writer: new_key, msgs }
            },
            SessionMessage::CloseWriter => SessionAction::RemoveWriter(self.writer_key),
            SessionMessage::SessionPing => {
                if let State::Write = self.state {
                    return SessionAction::Continue;
                }
                if self.expiration.expired_after(elapsed) {
                    SessionAction::Expire
                } else {
                    SessionAction::Continue
                }
            },
        }
    }

    /// Decide what to do with a message (see `step_at`), with the time as the
    /// clock tells it.
    pub fn step_with(&mut self, msg: SessionMessage, capacity: usize, elapsed: &Duration) -> (r: SessionAction)
        requires
            old(self).backlog().len() < usize::MAX,
        ensures
            exists|now: Instant| #[trigger] session_stepped(*old(self), *final(self), msg, capacity, *elapsed, now, r),
    {
        let now = instant_now();
        self.step_at(msg, capacity, elapsed, now)
    }

    /// Decide what to do with a message (see `step_at`), with the backlog's
    /// buffer as the allocator sized it and the time as the clock tells it.
    pub fn step(&mut self, msg: SessionMessage) -> (r: SessionAction)
        requires
            old(self).backlog().len() < usize::MAX,
        ensures
            exists|capacity: usize, elapsed: Duration, now: Instant|
                capacity >= old(self).backlog().len() && capacity >= old(self).backlog_cap()
                    && #[trigger] session_stepped(
                    *old(self),
                    *final(self),
                    msg,
                    capacity,
                    elapsed,
                    now,
                    r,
                ),
    {
        let capacity = self.backlog.capacity();
        let elapsed = self.expiration.elapsed();
        let now = instant_now();
        self.step_at(msg, capacity, &elapsed, now)
    }
}

} // verus!

verus! {

/// A message that arrives while the writer is gone is not lost, whatever room the
/// backlog has: the returning writer receives it last, after at most the older
/// backlog; with an empty backlog it receives exactly that message.
pub proof fn law_backlog_reaches_returning_writer(
    s0: Session,
    s1: Session,
    s2: Session,
    m: WriterMessage,
    key: Key,
    c1: usize,
    e1: Duration,
    n1: Instant,
    r1: SessionAction,
    c2: usize,
    e2: Duration,
    n2: Instant,
    r2: SessionAction,
)
    requires
        s0.state() == State::Log,
        session_stepped(s0, s1, SessionMessage::Writer(m), c1, e1, n1, r1),
        session_stepped(s1, s2, SessionMessage::WriterReturned(key), c2, e2, n2, r2),
    ensures
        r2 matches SessionAction::Flush { writer, msgs } && writer == key && msgs@.len() >= 1
            && msgs@.last() == m && msgs@.len() <= s0.backlog().len() + 1,
        s0.backlog().len() == 0 ==> (r2 matches SessionAction::Flush { msgs, .. } && msgs@ == seq![m]),
        s2.backlog().len() == 0,
{
    crate::queue::law_push_keeps_newest(s0.backlog(), m, c1 as int);
    if s0.backlog().len() == 0 {
        crate::queue::law_push_then_pop_empty(m, c1 as int);
    }
}

/// `states` and `actions` are a session taking the writer messages `ms` one after
/// the other, its backlog's buffer holding `caps[i]` values at the `i`-th.
pub open spec fn writer_run(
    states: Seq<Session>,
    ms: Seq<WriterMessage>,
    caps: Seq<usize>,
    actions: Seq<SessionAction>,
) -> bool {
    &&& states.len() == ms.len() + 1
    &&& caps.len() == ms.len()
    &&& actions.len() == ms.len()
    &&& forall|i: int|
        #![trigger actions[i]]
        0 <= i < ms.len() ==> exists|elapsed: Duration, now: Instant|
            #[trigger] session_stepped(
                states[i],
                states[i + 1],
                SessionMessage::Writer(ms[i]),
                caps[i],
                elapsed,
                now,
                actions[i],
            )
}

/// Along a run of writer messages while logging, with fewer of them than the room
/// the backlog was made with, each message joins the backlog at the back.
proof fn lemma_writer_run_backlog(
    states: Seq<Session>,
    ms: Seq<WriterMessage>,
    caps: Seq<usize>,
    actions: Seq<SessionAction>,
    k: int,
)
    requires
        writer_run(states, ms, caps, actions),
        states[0].state() == State::Log,
        forall|i: int| 0 <= i < caps.len() ==> #[trigger] caps[i] >= states[i].backlog_cap(),
        states[0].backlog().len() + ms.len() < states[0].backlog_cap(),
        0 <= k <= ms.len(),
    ensures
        states[k].state() == State::Log,
        states[k].writer() == states[0].writer(),
        states[k].backlog() == states[0].backlog() + ms.take(k),
        states[k].backlog_cap() == states[0].backlog_cap(),
    decreases k,
{
    if k > 0 {
        let j = k - 1;
        lemma_writer_run_backlog(states, ms, caps, actions, j);
        let (e, n) = choose|e: Duration, n: Instant|
            #[trigger] session_stepped(states[j], states[j + 1], SessionMessage::Writer(ms[j]), caps[j], e, n, actions[j]);
        assert(session_stepped(states[j], states[j + 1], SessionMessage::Writer(ms[j]), caps[j], e, n, actions[j]));
        assert(caps[j] >= states[j].backlog_cap());
        crate::queue::law_push_below_capacity(states[j].backlog(), ms[j], caps[j] as int);
        assert(ms.take(k) == ms.take(j).push(ms[j]));
    }
}

/// While the writer is gone and fewer messages arrive than the backlog was made
/// room for (counting those already backlogged, and one spare), none of them is
/// sent anywhere, and the returning writer receives the
/// whole backlog followed by all of them, in the order they arrived.
pub proof fn law_backlog_replayed_in_order(
    states: Seq<Session>,
    ms: Seq<WriterMessage>,
    caps: Seq<usize>,
    actions: Seq<SessionAction>,
    key: Key,
    last: Session,
    cap: usize,
    elapsed: Duration,
    now: Instant,
    flush: SessionAction,
)
    requires
        writer_run(states, ms, caps, actions),
        states[0].state() == State::Log,
        forall|i: int| 0 <= i < caps.len() ==> #[trigger] caps[i] >= states[i].backlog_cap(),
        states[0].backlog().len() + ms.len() < states[0].backlog_cap(),
        session_stepped(states[ms.len() as int], last, SessionMessage::WriterReturned(key), cap, elapsed, now, flush),
    ensures
        forall|i: int| 0 <= i < actions.len() ==> #[trigger] actions[i] is Continue,
        flush matches SessionAction::Flush { writer, msgs } && writer == key && msgs@ == states[0].backlog() + ms,
        last.writer() == key,
        last.backlog().len() == 0,
{
    assert forall|i: int| 0 <= i < actions.len() implies #[trigger] actions[i] is Continue by {
        lemma_writer_run_backlog(states, ms, caps, actions, i);
        let (e, n) = choose|e: Duration, n: Instant|
            #[trigger] session_stepped(states[i], states[i + 1], SessionMessage::Writer(ms[i]), caps[i], e, n, actions[i]);
        assert(session_stepped(states[i], states[i + 1], SessionMessage::Writer(ms[i]), caps[i], e, n, actions[i]));
    }
    lemma_writer_run_backlog(states, ms, caps, actions, ms.len() as int);
    assert(ms.take(ms.len() as int) == ms);
}

/// When the writer is removed, the session stops forwarding: the next message
/// for the writer is backlogged.
pub proof fn law_removed_writer_backlogs(
    s0: Session,
    s1: Session,
    s2: Session,
    m: WriterMessage,
    c1: usize,
    e1: Duration,
    n1: Instant,
    r1: SessionAction,
    c2: usize,
    e2: Duration,
    n2: Instant,
    r2: SessionAction,
)
    requires
        session_stepped(s0, s1, SessionMessage::AgentRemoved(s0.writer()), c1, e1, n1, r1),
        session_stepped(s1, s2, SessionMessage::Writer(m), c2, e2, n2, r2),
    ensures
        r2 is Continue,
        s2.state() == State::Log,
        s2.backlog() == pushed(s1.backlog(), m, c2 as int),
{
}

/// A ping expires a session only while it logs and once its expiration has
/// passed: a session that never expires, or that writes, outlives every ping.
pub proof fn law_ping_expires_only_when_due(
    s0: Session,
    s1: Session,
    c: usize,
    e: Duration,
    n: Instant,
    r: SessionAction,
)
    requires
        session_stepped(s0, s1, SessionMessage::SessionPing, c, e, n, r),
    ensures
        s0.expiration() is Never ==> r is Continue,
        s0.state() == State::Write ==> r is Continue,
        s1 == s0,
{
}

/// Losing the writer restarts the expiration at the moment of the loss: it keeps
/// its duration and now counts from then, so a ping taken no later than that
/// duration afterwards leaves the session alive.
pub proof fn law_writer_loss_restarts_expiration(
    s0: Session,
    s1: Session,
    s2: Session,
    c1: usize,
    e1: Duration,
    n1: Instant,
    r1: SessionAction,
    c2: usize,
    e2: Duration,
    n2: Instant,
    r2: SessionAction,
)
    requires
        session_stepped(s0, s1, SessionMessage::AgentRemoved(s0.writer()), c1, e1, n1, r1),
        session_stepped(s1, s2, SessionMessage::SessionPing, c2, e2, n2, r2),
    ensures
        s1.state() == State::Log,
        s0.expiration() is Never ==> s1.expiration() is Never,
        s0.expiration() matches Expiration::After(d, _) ==> (s1.expiration() matches Expiration::After(
            d1,
            start,
        ) && d1 == d && start == n1),
        s0.expiration() matches Expiration::After(d, _) ==> (as_nanos_of(e2) <= as_nanos_of(d) ==> r2 is Continue),
        s0.expiration() matches Expiration::After(d, _) ==> (as_nanos_of(e2) > as_nanos_of(d) ==> r2 is Expire),
{
}

/// While the writer is there, a message for it goes to that writer, unchanged,
/// and the session stays as it was.
pub proof fn law_writing_forwards_to_writer(
    s0: Session,
    s1: Session,
    m: WriterMessage,
    c: usize,
    e: Duration,
    n: Instant,
    r: SessionAction,
)
    requires
        s0.state() == State::Write,
        session_stepped(s0, s1, SessionMessage::Writer(m), c, e, n, r),
    ensures
        r matches SessionAction::Forward { writer, msg } && writer == s0.writer() && msg == m,
        s1 == s0,
{
}

/// A returning writer becomes the session's writer and is sent the whole backlog,
/// oldest first; the backlog is then empty.
pub proof fn law_returning_writer_gets_backlog(
    s0: Session,
    s1: Session,
    key: Key,
    c: usize,
    e: Duration,
    n: Instant,
    r: SessionAction,
)
    requires
        session_stepped(s0, s1, SessionMessage::WriterReturned(key), c, e, n, r),
    ensures
        r matches SessionAction::Flush { writer, msgs } && writer == key && msgs@ == s0.backlog(),
        s1.writer() == key,
        s1.backlog().len() == 0,
        s1.state() == s0.state(),
{
}

/// Closing asks to remove the session's current writer; the removal of an agent
/// that is not the writer changes nothing.
pub proof fn law_close_and_other_removals(
    s0: Session,
    s1: Session,
    msg: SessionMessage,
    c: usize,
    e: Duration,
    n: Instant,
    r: SessionAction,
)
    requires
        session_stepped(s0, s1, msg, c, e, n, r),
    ensures
        msg is CloseWriter ==> r == SessionAction::RemoveWriter(s0.writer()) && s1 == s0,
        msg matches SessionMessage::AgentRemoved(k) && k != s0.writer() ==> r is Continue
            && s1.state() == s0.state() && s1.writer() == s0.writer() && s1.backlog() == s0.backlog()
            && s1.expiration() == s0.expiration(),
{
}

} // verus!
