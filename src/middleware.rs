//! The decisions taken around one request/response exchange: how long to
//! hold a request back, and how a response updates the ledger.
use vstd::prelude::*;

use crate::clock::{wait_spec, WallTime};
use crate::header::{parse_retry_value, retry_value_spec, rfc2822_unix_nanos};
use crate::ledger::Ledger;

verus! {

/// Which requests share back-off state.
#[derive(Clone, Copy, Debug, PartialEq, Eq, Structural)]
pub enum Scope {
    /// Each target locator has its own release instant.
    PerTarget,
    /// One release instant is shared by every target.
    Global,
}

/// What a response said about back-off.
#[derive(Clone, Copy, Debug, PartialEq, Eq, Structural)]
pub enum Observation {
    /// The response carried no `Retry-After` header.
    Absent,
    /// The header was there but could not be read as a delay or a date.
    Malformed,
    /// The header asked that requests wait until the given instant.
    Until(WallTime),
}

/// The ledger key under which requests to `locator` are tracked.
pub open spec fn identity_spec(scope: Scope, locator: Seq<char>) -> Seq<char> {
    match scope {
        Scope::PerTarget => locator,
        Scope::Global => Seq::empty(),
    }
}

/// A header that may be missing, as plain text.
pub open spec fn header_text(header: Option<&str>) -> Option<Seq<char>> {
    match header {
        Some(s) => Some(s@),
        None => None,
    }
}

/// What a response with `header` (its `Retry-After` value, if any), seen at
/// `now`, says about back-off.
pub open spec fn observe_spec(header: Option<Seq<char>>, now: WallTime) -> Observation {
    match header {
        None => Observation::Absent,
        Some(s) => match retry_value_spec(s, rfc2822_unix_nanos(s), now) {
            Some(t) => Observation::Until(t),
            None => Observation::Malformed,
        },
    }
}

/// The ledger after `obs` is recorded for `key`: a missing header clears the
/// entry, a malformed one leaves it, a valid one replaces it.
pub open spec fn apply_spec(
    m: Map<Seq<char>, WallTime>,
    key: Seq<char>,
    obs: Observation,
) -> Map<Seq<char>, WallTime> {
    match obs {
        Observation::Absent => m.remove(key),
        Observation::Malformed => m,
        Observation::Until(t) => m.insert(key, t),
    }
}

/// How long, in nanoseconds, a request to `key` made at `now` is held back:
/// nothing where no entry is stored or its instant is not after `now`.
pub open spec fn delay_spec(m: Map<Seq<char>, WallTime>, key: Seq<char>, now: WallTime) -> Option<
    int,
> {
    if m.contains_key(key) {
        wait_spec(now, m[key])
    } else {
        None
    }
}

/// The instant at which a request to `key` made at `now` is dispatched.
pub open spec fn dispatch_spec(m: Map<Seq<char>, WallTime>, key: Seq<char>, now: WallTime) -> int {
    match delay_spec(m, key, now) {
        Some(d) => now.unix_nanos + d,
        None => now.unix_nanos as int,
    }
}

/// Honours `Retry-After` headers: holds requests back until the instant the
/// last response for the same target asked for.
pub struct RetryAfterMiddleware {
    ledger: Ledger,
    scope: Scope,
}

impl View for RetryAfterMiddleware {
    type V = Map<Seq<char>, WallTime>;

    closed spec fn view(&self) -> Map<Seq<char>, WallTime> {
        self.ledger@
    }
}

impl RetryAfterMiddleware {
    /// The invariant of the state: that of its ledger.
    pub closed spec fn wf(&self) -> bool {
        self.ledger.wf()
    }

    /// The scope policy in force.
    pub closed spec fn scope_spec(&self) -> Scope {
        self.scope
    }

    /// The ledger key of `locator` under this middleware's scope.
    pub open spec fn key(&self, locator: Seq<char>) -> Seq<char> {
        identity_spec(self.scope_spec(), locator)
    }

    /// A middleware with no back-off recorded, tracking each target apart.
    pub fn new() -> (r: Self)
        ensures
            r.wf(),
            r@ == Map::<Seq<char>, WallTime>::empty(),
            r.scope_spec() == Scope::PerTarget,
    {
        RetryAfterMiddleware { ledger: Ledger::new(), scope: Scope::PerTarget }
    }

    /// A middleware with no back-off recorded and the given scope policy.
    pub fn with_scope(scope: Scope) -> (r: Self)
        ensures
            r.wf(),
            r@ == Map::<Seq<char>, WallTime>::empty(),
            r.scope_spec() == scope,
    {
        RetryAfterMiddleware { ledger: Ledger::new(), scope }
    }

    /// The scope policy in force.
    pub fn scope(&self) -> (r: Scope)
        ensures
            r == self.scope_spec(),
    {
        self.scope
    }

    /// The ledger key under which requests to `locator` are tracked.
    pub fn identity(&self, locator: &str) -> (r: String)
        ensures
            r@ == self.key(locator@),
    {
        match self.scope {
            Scope::PerTarget => locator.to_owned(),
            Scope::Global => String::new(),
        }
    }

    /// The release instant stored for requests to `locator`, if any.
    pub fn peek(&self, locator: &str) -> (r: Option<WallTime>)
        requires
            self.wf(),
        ensures
            r == (if self@.contains_key(self.key(locator@)) {
                Some(self@[self.key(locator@)])
            } else {
                None
            }),
    {
        let key = self.identity(locator);
        self.ledger.peek(key.as_str())
    }

    /// Whether no release instant is stored at all.
    pub fn is_empty(&self) -> (r: bool)
        requires
            self.wf(),
        ensures
            r == (self@.dom() == Set::<Seq<char>>::empty()),
    {
        self.ledger.is_empty()
    }

    /// How long a request to `locator` made at `now` must wait before it is
    /// sent, in nanoseconds; `None` where it may go at once.
    pub fn delay_before(&self, locator: &str, now: WallTime) -> (r: Option<u128>)
        requires
            self.wf(),
        ensures
            match r {
                Some(d) => delay_spec(self@, self.key(locator@), now) == Some(d as int),
                None => delay_spec(self@, self.key(locator@), now) is None,
            },
    {
        match self.peek(locator) {
            Some(release) => now.wait_until(release),
            None => None,
        }
    }

    /// Records what a response for `locator` said about back-off.
    pub fn record(&mut self, locator: &str, obs: Observation)
        requires
            old(self).wf(),
        ensures
            final(self).wf(),
            final(self).scope_spec() == old(self).scope_spec(),
            final(self)@ == apply_spec(old(self)@, old(self).key(locator@), obs),
    {
        let key = self.identity(locator);
        match obs {
            Observation::Absent => self.ledger.clear(key.as_str()),
            Observation::Malformed => {},
            Observation::Until(release) => self.ledger.set(key.as_str(), release),
        }
    }

    /// Updates the state from a successful response for `locator`, seen at
    /// `now`, whose `Retry-After` header is `header` (`None` where the
    /// response has none).
    pub fn after_response(&mut self, locator: &str, header: Option<&str>, now: WallTime)
        requires
            old(self).wf(),
        ensures
            final(self).wf(),
            final(self).scope_spec() == old(self).scope_spec(),
            final(self)@ == apply_spec(
                old(self)@,
                old(self).key(locator@),
                observe_spec(header_text(header), now),
            ),
    {
        let obs = observe(header, now);
        self.record(locator, obs);
    }
}

/// What a response whose `Retry-After` header is `header`, seen at `now`,
/// says about back-off.
pub fn observe(header: Option<&str>, now: WallTime) -> (r: Observation)
    ensures
        r == observe_spec(header_text(header), now),
{
    match header {
        None => Observation::Absent,
        Some(text) => match parse_retry_value(text, now) {
            Some(release) => Observation::Until(release),
            None => Observation::Malformed,
        },
    }
}

impl Default for RetryAfterMiddleware {
    fn default() -> (r: Self)
        ensures
            r.wf(),
            r@ == Map::<Seq<char>, WallTime>::empty(),
            r.scope_spec() == Scope::PerTarget,
    {
        Self::new()
    }
}

} // verus!
