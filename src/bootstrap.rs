//! Fail-over over the resolved addresses of the server: they are tried one
//! after another, in resolution order, and the first connection is kept.
use vstd::prelude::*;

verus! {

/// What to do next while connecting.
#[derive(Clone, Copy, Debug, PartialEq, Eq, Structural)]
pub enum Failover {
    /// Try the candidate address at this position.
    TryNext(usize),
    /// The candidate at this position connected: keep it and stop.
    Connected(usize),
    /// Every candidate failed.
    Exhausted,
}

/// Where a scan over `count` candidates starts.
pub fn first_candidate(count: usize) -> (r: Failover)
    ensures
        r == (if count == 0 {
            Failover::Exhausted
        } else {
            Failover::TryNext(0)
        }),
{
    if count == 0 {
        Failover::Exhausted
    } else {
        Failover::TryNext(0)
    }
}

/// After the attempt on candidate `index` of `count`: a success ends the
/// scan; a failure moves on to the next candidate, or gives up after the
/// last one.
pub fn after_attempt(index: usize, count: usize, connected: bool) -> (r: Failover)
    ensures
        r == (if connected {
            Failover::Connected(index)
        } else if index + 1 < count {
            Failover::TryNext((index + 1) as usize)
        } else {
            Failover::Exhausted
        }),
{
    if connected {
        Failover::Connected(index)
    } else if count > 0 && index < count - 1 {
        Failover::TryNext(index + 1)
    } else {
        Failover::Exhausted
    }
}

} // verus!
