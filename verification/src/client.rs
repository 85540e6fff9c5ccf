//! The pacing and retry rules of the client. The caller sends the
//! requests and sleeps; the client says what to do next.

use crate::error::OneKpError;
use vstd::prelude::*;

verus! {

/// What came of one request.
#[derive(Debug, Clone, Copy, PartialEq, Eq)]
pub enum Outcome {
    /// A response with this status code.
    Status(u16),
    /// No response at all.
    NoResponse,
}

/// What the caller is to do next.
#[derive(Debug, Clone, Copy, PartialEq, Eq)]
pub enum Action {
    /// Sleep for `wait_secs` seconds, send one request, and report its outcome.
    Request { wait_secs: u64 },
    /// Hand out the body of the response just reported.
    Deliver,
    /// Stop: all `attempts` requests failed.
    GiveUp { attempts: usize },
}

/// What a client holds. Times are nanoseconds on the caller's clock, which
/// never goes back; the interval is in seconds.
pub struct ClientView {
    pub interval_time: u64,
    pub max_retry: usize,
    pub last_fetch_time: u64,
    pub attempts: usize,
}

/// The pacing state of the one connection to the archive.
#[derive(Debug)]
pub struct Client {
    interval_time: u64,
    max_retry: usize,
    last_fetch_time: u64,
    attempts: usize,
}

/// The nanoseconds in a second.
pub const NANOS_PER_SEC: u64 = 1_000_000_000;

/// The whole seconds from `last` to `now`, none if the clock went back.
pub open spec fn elapsed(last: u64, now: u64) -> int {
    if now >= last {
        (now - last) / 1_000_000_000
    } else {
        0
    }
}

/// The sleep before a request at `now`: the whole interval where less
/// than the interval has passed since the last success, else none.
pub open spec fn pause(c: ClientView, now: u64) -> u64 {
    if elapsed(c.last_fetch_time, now) < c.interval_time {
        c.interval_time
    } else {
        0
    }
}

/// A response counts as success where its status is one of the success
/// codes, 200 to 299; any other status, and no response, is a failure.
pub open spec fn is_success(o: Outcome) -> bool {
    o matches Outcome::Status(code) && 200 <= code < 300
}

/// The client at the start of a fetch.
pub open spec fn begun(c: ClientView) -> ClientView {
    ClientView { attempts: 0, ..c }
}

/// The first action of a fetch.
pub open spec fn first_action(c: ClientView, now: u64) -> Action {
    if c.max_retry == 0 {
        Action::GiveUp { attempts: 0 }
    } else {
        Action::Request { wait_secs: pause(c, now) }
    }
}

/// The client after the outcome of a request is reported at `now`.
pub open spec fn reacted(c: ClientView, o: Outcome, now: u64) -> ClientView {
    ClientView {
        attempts: if c.attempts < c.max_retry {
            (c.attempts + 1) as usize
        } else {
            c.attempts
        },
        last_fetch_time: if is_success(o) {
            now
        } else {
            c.last_fetch_time
        },
        ..c
    }
}

/// The action that follows the outcome of a request.
pub open spec fn next_action(c: ClientView, o: Outcome, now: u64) -> Action {
    if is_success(o) {
        Action::Deliver
    } else if reacted(c, o, now).attempts >= c.max_retry {
        Action::GiveUp { attempts: c.max_retry }
    } else {
        Action::Request { wait_secs: pause(c, now) }
    }
}

/// A fetch played against a list of outcomes, each with the time at which
/// it is reported: the client and the action at the end, and the number
/// of requests sent. The fetch ends with the first action that is no
/// request, or when the outcomes run out.
pub open spec fn played(c: ClientView, action: Action, events: Seq<(Outcome, u64)>) -> (
    ClientView,
    Action,
    nat,
)
    decreases events.len(),
{
    if events.len() > 0 && action is Request {
        let rest = played(
            reacted(c, events[0].0, events[0].1),
            next_action(c, events[0].0, events[0].1),
            events.drop_first(),
        );
        (rest.0, rest.1, rest.2 + 1)
    } else {
        (c, action, 0)
    }
}

/// A whole fetch that starts at `now`.
pub open spec fn fetched(c: ClientView, now: u64, events: Seq<(Outcome, u64)>) -> (
    ClientView,
    Action,
    nat,
) {
    played(begun(c), first_action(c, now), events)
}

proof fn lemma_played_success(c: ClientView, wait: u64, events: Seq<(Outcome, u64)>, k: int)
    requires
        0 <= k < events.len(),
        c.attempts + k < c.max_retry,
        forall|i: int| 0 <= i < k ==> !is_success(#[trigger] events[i].0),
        is_success(events[k].0),
    ensures
        played(c, Action::Request { wait_secs: wait }, events).1 == Action::Deliver,
        played(c, Action::Request { wait_secs: wait }, events).2 == k + 1,
        played(c, Action::Request { wait_secs: wait }, events).0.last_fetch_time == events[k].1,
    decreases k,
{
    let rest = events.drop_first();
    if k == 0 {
        assert(played(reacted(c, events[0].0, events[0].1), Action::Deliver, rest).2 == 0);
    } else {
        assert(!is_success(events[0].0));
        assert forall|i: int| 0 <= i < k - 1 implies !is_success(#[trigger] rest[i].0) by {
            assert(rest[i] == events[i + 1]);
        }
        assert(rest[k - 1] == events[k]);
        lemma_played_success(
            reacted(c, events[0].0, events[0].1),
            pause(c, events[0].1),
            rest,
            k - 1,
        );
    }
}

proof fn lemma_played_failure(c: ClientView, wait: u64, events: Seq<(Outcome, u64)>)
    requires
        c.attempts < c.max_retry,
        events.len() >= c.max_retry - c.attempts,
        forall|i: int| 0 <= i < c.max_retry - c.attempts ==> !is_success(#[trigger] events[i].0),
    ensures
        played(c, Action::Request { wait_secs: wait }, events).1 == (Action::GiveUp {
            attempts: c.max_retry,
        }),
        played(c, Action::Request { wait_secs: wait }, events).2 == c.max_retry - c.attempts,
        played(c, Action::Request { wait_secs: wait }, events).0.last_fetch_time
            == c.last_fetch_time,
    decreases c.max_retry - c.attempts,
{
    let rest = events.drop_first();
    assert(!is_success(events[0].0));
    let c2 = reacted(c, events[0].0, events[0].1);
    if c.attempts + 1 < c.max_retry {
        assert forall|i: int| 0 <= i < c2.max_retry - c2.attempts implies !is_success(
            #[trigger] rest[i].0,
        ) by {
            assert(rest[i] == events[i + 1]);
        }
        lemma_played_failure(c2, pause(c, events[0].1), rest);
    } else {
        assert(played(c2, Action::GiveUp { attempts: c.max_retry }, rest).2 == 0);
    }
}

/// Where the first `k` requests fail and the next succeeds, with `k`
/// below the limit of attempts, the fetch delivers that response after
/// exactly `k + 1` requests, and the time of the success is kept.
pub proof fn lemma_fetch_succeeds(c: ClientView, now: u64, events: Seq<(Outcome, u64)>, k: int)
    requires
        0 <= k < events.len(),
        k < c.max_retry,
        forall|i: int| 0 <= i < k ==> !is_success(#[trigger] events[i].0),
        is_success(events[k].0),
    ensures
        fetched(c, now, events).1 == Action::Deliver,
        fetched(c, now, events).2 == k + 1,
        fetched(c, now, events).0.last_fetch_time == events[k].1,
{
    lemma_played_success(begun(c), pause(c, now), events, k);
}

/// Where as many requests fail in a row as the limit of attempts allows,
/// the fetch gives up after exactly that many requests.
pub proof fn lemma_fetch_gives_up(c: ClientView, now: u64, events: Seq<(Outcome, u64)>)
    requires
        events.len() >= c.max_retry,
        forall|i: int| 0 <= i < c.max_retry ==> !is_success(#[trigger] events[i].0),
    ensures
        fetched(c, now, events).1 == (Action::GiveUp { attempts: c.max_retry }),
        fetched(c, now, events).2 == c.max_retry,
{
    if c.max_retry > 0 {
        lemma_played_failure(begun(c), pause(c, now), events);
    }
}

impl View for Client {
    type V = ClientView;

    closed spec fn view(&self) -> ClientView {
        ClientView {
            interval_time: self.interval_time,
            max_retry: self.max_retry,
            last_fetch_time: self.last_fetch_time,
            attempts: self.attempts,
        }
    }
}

impl Client {
    /// A client that keeps `interval_time` seconds between requests and
    /// sends at most `max_retry` requests for one fetch. `now` counts as
    /// the time of the last success.
    pub fn new(interval_time: u64, max_retry: usize, now: u64) -> (out: Self)
        ensures
            out@ == (ClientView { interval_time, max_retry, last_fetch_time: now, attempts: 0 }),
    {
        Client { interval_time, max_retry, last_fetch_time: now, attempts: 0 }
    }

    /// The seconds to sleep before a request at `now`.
    pub fn wait_before(&self, now: u64) -> (secs: u64)
        ensures
            secs == pause(self@, now),
    {
        let passed: u64 = if now >= self.last_fetch_time {
            (now - self.last_fetch_time) / NANOS_PER_SEC
        } else {
            0
        };
        if passed < self.interval_time {
            self.interval_time
        } else {
            0
        }
    }

    /// Starts a fetch at `now`.
    pub fn begin(&mut self, now: u64) -> (action: Action)
        ensures
            final(self)@ == begun(old(self)@),
            action == first_action(old(self)@, now),
    {
        self.attempts = 0;
        if self.max_retry == 0 {
            Action::GiveUp { attempts: 0 }
        } else {
            Action::Request { wait_secs: self.wait_before(now) }
        }
    }

    /// Takes the outcome of the request just sent, reported at `now`.
    pub fn react(&mut self, outcome: Outcome, now: u64) -> (action: Action)
        ensures
            final(self)@ == reacted(old(self)@, outcome, now),
            action == next_action(old(self)@, outcome, now),
    {
        if self.attempts < self.max_retry {
            self.attempts = self.attempts + 1;
        }
        let success = match outcome {
            Outcome::Status(code) => 200 <= code && code < 300,
            Outcome::NoResponse => false,
        };
        if success {
            self.last_fetch_time = now;
            Action::Deliver
        } else if self.attempts >= self.max_retry {
            Action::GiveUp { attempts: self.max_retry }
        } else {
            Action::Request { wait_secs: self.wait_before(now) }
        }
    }

    /// Plays a whole fetch of `url` that starts at `now` against the
    /// outcomes of its requests, each with the time at which it is
    /// reported. Gives the place of the outcome whose response is handed
    /// out, an error once the allowed attempts are used up, and `None`
    /// where the outcomes end before the fetch does.
    pub fn get(&mut self, url: &str, now: u64, replies: &Vec<(Outcome, u64)>) -> (res: Result<
        Option<usize>,
        OneKpError,
    >)
        ensures
            final(self)@ == fetched(old(self)@, now, replies@).0,
            match fetched(old(self)@, now, replies@).1 {
                Action::Deliver => res matches Ok(Some(at)) && at + 1 == fetched(
                    old(self)@,
                    now,
                    replies@,
                ).2,
                Action::GiveUp { attempts } => res matches Err(
                    OneKpError::FetchExhausted { url: u, attempts: n },
                ) && u@ == url@ && n == attempts,
                Action::Request { .. } => res matches Ok(None),
            },
    {
        let mut action = self.begin(now);
        let mut i: usize = 0;
        assert(replies@.skip(0) =~= replies@);
        loop
            invariant
                i <= replies.len(),
                fetched(old(self)@, now, replies@).0 == played(
                    self@,
                    action,
                    replies@.skip(i as int),
                ).0,
                fetched(old(self)@, now, replies@).1 == played(
                    self@,
                    action,
                    replies@.skip(i as int),
                ).1,
                fetched(old(self)@, now, replies@).2 == played(
                    self@,
                    action,
                    replies@.skip(i as int),
                ).2 + i,
            decreases replies.len() - i,
        {
            match action {
                Action::Request { wait_secs: _ } => {
                    if i >= replies.len() {
                        return Ok(None);
                    }
                    let reply = replies[i];
                    assert(replies@.skip(i as int)[0] == reply);
                    assert(replies@.skip(i as int).drop_first() =~= replies@.skip(i + 1));
                    action = self.react(reply.0, reply.1);
                    i += 1;
                },
                Action::Deliver => {
                    assert(i > 0) by {
                        assert(first_action(old(self)@, now) != Action::Deliver);
                    }
                    return Ok(Some(i - 1));
                },
                Action::GiveUp { attempts } => {
                    return Err(Client::exhausted(url, attempts));
                },
            }
        }
    }

    /// The error of a fetch of `url` that gave up after `attempts` requests.
    pub fn exhausted(url: &str, attempts: usize) -> (e: OneKpError)
        ensures
            e matches OneKpError::FetchExhausted { url: u, attempts: n } && u@ == url@ && n
                == attempts,
    {
        OneKpError::FetchExhausted { url: url.to_owned(), attempts }
    }

    /// The seconds kept between requests.
    pub fn interval_time(&self) -> (out: u64)
        ensures
            out == self@.interval_time,
    {
        self.interval_time
    }

    /// The most requests sent for one fetch.
    pub fn max_retry(&self) -> (out: usize)
        ensures
            out == self@.max_retry,
    {
        self.max_retry
    }

    /// The requests sent so far for the current fetch.
    pub fn attempts(&self) -> (out: usize)
        ensures
            out == self@.attempts,
    {
        self.attempts
    }

    /// The time of the last success.
    pub fn last_fetch_time(&self) -> (out: u64)
        ensures
            out == self@.last_fetch_time,
    {
        self.last_fetch_time
    }
}

} // verus!
