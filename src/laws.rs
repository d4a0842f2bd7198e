//! Facts about sequences of exchanges, proved from the contracts of the
//! middleware's operations.
use vstd::prelude::*;

use crate::clock::{seconds_after, WallTime, NANOS_PER_SECOND};
use crate::header::{delay_seconds_spec, retry_value_spec, rfc2822_unix_nanos};
use crate::middleware::{
    apply_spec,
    delay_spec,
    dispatch_spec,
    identity_spec,
    observe_spec,
    Observation,
    Scope,
};

verus! {

/// One exchange as the middleware sees it: the target locator, the response's
/// `Retry-After` value (if it had one), and when the response was seen.
pub type Exchange = (Seq<char>, Option<Seq<char>>, WallTime);

/// The ledger after the successful exchanges `h`, in order, starting from `m`.
pub open spec fn replay(m: Map<Seq<char>, WallTime>, scope: Scope, h: Seq<Exchange>) -> Map<
    Seq<char>,
    WallTime,
>
    decreases h.len(),
{
    if h.len() == 0 {
        m
    } else {
        let e = h.last();
        apply_spec(replay(m, scope, h.drop_last()), identity_spec(scope, e.0), observe_spec(e.1, e.2))
    }
}

/// A target for which no response ever carried the header has no stored
/// release instant, and a request to it is never held back.
pub proof fn law_unobserved_target_never_delayed(
    scope: Scope,
    h: Seq<Exchange>,
    locator: Seq<char>,
    now: WallTime,
)
    requires
        forall|i: int|
            0 <= i < h.len() && identity_spec(scope, #[trigger] h[i].0) == identity_spec(
                scope,
                locator,
            ) ==> h[i].1 is None,
    ensures
        !replay(Map::empty(), scope, h).contains_key(identity_spec(scope, locator)),
        delay_spec(replay(Map::empty(), scope, h), identity_spec(scope, locator), now) is None,
    decreases h.len(),
{
    if h.len() > 0 {
        let p = h.drop_last();
        assert forall|i: int|
            0 <= i < p.len() && identity_spec(scope, #[trigger] p[i].0) == identity_spec(
                scope,
                locator,
            ) implies p[i].1 is None by {
            assert(p[i] == h[i]);
        }
        law_unobserved_target_never_delayed(scope, p, locator, now);
        assert(h[h.len() - 1] == h.last());
    }
}

/// After a response whose `Retry-After` is `n` whole seconds, seen at `seen`,
/// the next request to the same target is not dispatched before `n` seconds
/// after `seen`, whenever it is made.
pub proof fn law_delay_seconds_hold_back(
    m: Map<Seq<char>, WallTime>,
    scope: Scope,
    locator: Seq<char>,
    text: Seq<char>,
    seen: WallTime,
    now: WallTime,
)
    requires
        delay_seconds_spec(text) is Some,
        seconds_after(seen, delay_seconds_spec(text)->0 as nat) is Some,
    ensures
        dispatch_spec(
            apply_spec(m, identity_spec(scope, locator), observe_spec(Some(text), seen)),
            identity_spec(scope, locator),
            now,
        ) >= seen.unix_nanos + delay_seconds_spec(text)->0 * NANOS_PER_SECOND,
{
}

/// Under per-target scope, what a response for one target says never changes
/// how long a request to another target waits.
pub proof fn law_unrelated_target_unaffected(
    m: Map<Seq<char>, WallTime>,
    a: Seq<char>,
    b: Seq<char>,
    header: Option<Seq<char>>,
    seen: WallTime,
    now: WallTime,
)
    requires
        a != b,
    ensures
        delay_spec(
            apply_spec(m, identity_spec(Scope::PerTarget, a), observe_spec(header, seen)),
            identity_spec(Scope::PerTarget, b),
            now,
        ) == delay_spec(m, identity_spec(Scope::PerTarget, b), now),
{
}

/// A response without the header clears the target's entry: nothing is
/// stored for it afterwards and its next request is not held back.
pub proof fn law_missing_header_clears(
    m: Map<Seq<char>, WallTime>,
    scope: Scope,
    locator: Seq<char>,
    seen: WallTime,
    now: WallTime,
)
    ensures
        !apply_spec(m, identity_spec(scope, locator), observe_spec(None, seen)).contains_key(
            identity_spec(scope, locator),
        ),
        delay_spec(
            apply_spec(m, identity_spec(scope, locator), observe_spec(None, seen)),
            identity_spec(scope, locator),
            now,
        ) is None,
{
}

/// A header value that reads neither as seconds nor as a date leaves the
/// stored state exactly as it was.
pub proof fn law_malformed_value_keeps_entry(
    m: Map<Seq<char>, WallTime>,
    scope: Scope,
    locator: Seq<char>,
    text: Seq<char>,
    seen: WallTime,
)
    requires
        retry_value_spec(text, rfc2822_unix_nanos(text), seen) is None,
    ensures
        observe_spec(Some(text), seen) == Observation::Malformed,
        apply_spec(m, identity_spec(scope, locator), observe_spec(Some(text), seen)) == m,
{
}

} // verus!
