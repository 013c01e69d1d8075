//! Bounded iteration of an orbit with an early exit on escape.

use vstd::prelude::*;

verus! {

/// Whether entry `k` of `trace` is what a call of `step` returned: the next
/// state, together with whether that state lies outside the escape radius.
/// The first call takes `start`, each later call takes the state that the
/// call before it returned.
pub open spec fn is_step<Z, F: Fn(Z) -> (Z, bool)>(step: F, start: Z, trace: Seq<(Z, bool)>, k: int) -> bool {
    step.ensures((if k == 0 { start } else { trace[k - 1].0 },), trace[k])
}

/// Whether `trace` records successive calls of `step` that begin at `start`.
pub open spec fn is_orbit<Z, F: Fn(Z) -> (Z, bool)>(step: F, start: Z, trace: Seq<(Z, bool)>) -> bool {
    forall|k: int| 0 <= k < trace.len() ==> #[trigger] is_step(step, start, trace, k)
}

/// Whether an orbit whose steps have the verdicts `outside` stops with
/// `result` under a budget of `limit` steps.
///
/// `Some(i)` says that step `i` was the first to leave the escape radius and
/// the last that was taken. `None` says that all `limit` steps were taken and
/// none left it.
pub open spec fn stops_with(outside: Seq<bool>, limit: u32, result: Option<u32>) -> bool {
    &&& forall|k: int| 0 <= k < outside.len() - 1 ==> !(#[trigger] outside[k])
    &&& match result {
        Some(i) => i < limit && outside.len() == i + 1 && outside[i as int],
        None => outside.len() == limit && (limit > 0 ==> !outside[limit - 1]),
    }
}

/// The flags of a trace: for each step, whether it left the escape radius.
pub open spec fn flags<Z>(trace: Seq<(Z, bool)>) -> Seq<bool> {
    Seq::new(trace.len(), |k: int| trace[k].1)
}

/// Whether `result` is an escape time of the orbit that `step` generates
/// from `start`, under a budget of `limit` steps: there is a record of the
/// steps taken that stops with `result`.
pub open spec fn is_escape_time<Z, F: Fn(Z) -> (Z, bool)>(
    step: F,
    start: Z,
    limit: u32,
    result: Option<u32>,
) -> bool {
    exists|trace: Seq<(Z, bool)>| #[trigger]
        is_orbit(step, start, trace) && stops_with(flags(trace), limit, result)
}

/// Whether `step` is a function: each state has one successor and one
/// verdict.
pub open spec fn is_deterministic<Z, F: Fn(Z) -> (Z, bool)>(step: F) -> bool {
    forall|z: Z, a: (Z, bool), b: (Z, bool)|
        #![trigger step.ensures((z,), a), step.ensures((z,), b)]
        step.ensures((z,), a) && step.ensures((z,), b) ==> a == b
}

/// Follows the orbit that `step` generates from `start` for at most `limit`
/// steps and returns the index of the first step that left the escape
/// radius, or `None` if none of the `limit` steps did.
///
/// `step` is called on the current state and returns the next state and
/// whether it lies outside the escape radius. It is never called again once
/// it has reported an escape, and never called when `limit` is 0.
pub fn escape_time<Z, F: Fn(Z) -> (Z, bool)>(start: Z, limit: u32, step: F) -> (result: Option<u32>)
    requires
        step.requires((start,)),
        forall|z: Z, next: (Z, bool)|
            step.requires((z,)) && #[trigger] step.ensures((z,), next) ==> step.requires((next.0,)),
    ensures
        is_escape_time(step, start, limit, result),
        limit == 0 ==> result is None,
        result matches Some(i) ==> i < limit,
{
    let mut z = start;
    let mut i: u32 = 0;
    let ghost mut trace: Seq<(Z, bool)> = Seq::empty();
    while i < limit
        invariant
            i <= limit,
            step.requires((z,)),
            forall|z: Z, next: (Z, bool)|
                step.requires((z,)) && #[trigger] step.ensures((z,), next) ==> step.requires(
                    (next.0,),
                ),
            trace.len() == i,
            is_orbit(step, start, trace),
            z == (if i == 0 { start } else { trace[i - 1].0 }),
            forall|k: int| 0 <= k < i ==> !(#[trigger] trace[k]).1,
        decreases limit - i,
    {
        let (next, outside) = step(z);
        proof {
            let ghost taken = trace;
            trace = taken.push((next, outside));
            assert forall|k: int| 0 <= k < trace.len() implies #[trigger] is_step(
                step,
                start,
                trace,
                k,
            ) by {
                if k < taken.len() {
                    assert(is_step(step, start, taken, k));
                }
            }
        }
        if outside {
            proof {
                assert(is_orbit(step, start, trace));
                assert(flags(trace)[i as int] == trace[i as int].1);
                assert(stops_with(flags(trace), limit, Some(i)));
            }
            return Some(i);
        }
        z = next;
        i += 1;
    }
    proof {
        assert(stops_with(flags(trace), limit, None));
    }
    None
}

/// The escape time of a deterministic orbit is unique: two results that both
/// satisfy the contract of [`escape_time`] for the same start, budget and
/// step function are equal.
pub proof fn escape_time_is_unique<Z, F: Fn(Z) -> (Z, bool)>(
    step: F,
    start: Z,
    limit: u32,
    first: Option<u32>,
    second: Option<u32>,
)
    requires
        is_deterministic(step),
        is_escape_time(step, start, limit, first),
        is_escape_time(step, start, limit, second),
    ensures
        first == second,
{
    let s = choose|trace: Seq<(Z, bool)>| #[trigger]
        is_orbit(step, start, trace) && stops_with(flags(trace), limit, first);
    let t = choose|trace: Seq<(Z, bool)>| #[trigger]
        is_orbit(step, start, trace) && stops_with(flags(trace), limit, second);
    let n = if s.len() <= t.len() { s.len() as int } else { t.len() as int };
    orbits_agree(step, start, s, t, n);
    if n > 0 {
        assert(s[n - 1] == t[n - 1]);
        assert(flags(s)[n - 1] == flags(t)[n - 1]);
    }
}

/// Two orbits of a deterministic step function from the same start agree on
/// every step that both record.
pub proof fn orbits_agree<Z, F: Fn(Z) -> (Z, bool)>(
    step: F,
    start: Z,
    s: Seq<(Z, bool)>,
    t: Seq<(Z, bool)>,
    n: int,
)
    requires
        is_deterministic(step),
        is_orbit(step, start, s),
        is_orbit(step, start, t),
        0 <= n <= s.len(),
        n <= t.len(),
    ensures
        forall|k: int| 0 <= k < n ==> s[k] == t[k],
    decreases n,
{
    if n > 0 {
        orbits_agree(step, start, s, t, n - 1);
        if n > 1 {
            assert(s[n - 2] == t[n - 2]);
        }
        assert(is_step(step, start, s, n - 1));
        assert(is_step(step, start, t, n - 1));
    }
}

} // verus!
