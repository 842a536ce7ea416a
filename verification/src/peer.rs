//! Peers: which of them are connected, and the wait for one that is being
//! connected.

use crate::bindings::public_key_eq;
use bitcoin::secp256k1::PublicKey;
use vstd::prelude::*;

verus! {

/// Whether `peer` is among the connected peers.
pub fn is_connected(connected: &Vec<PublicKey>, peer: &PublicKey) -> (r: bool)
    ensures
        r == connected@.contains(*peer),
{
    let n: usize = connected.len();
    let mut i: usize = 0;
    while i < n
        invariant
            n == connected@.len(),
            i <= n,
            forall|k: int| 0 <= k < i ==> connected@[k] != *peer,
        decreases n - i,
    {
        if public_key_eq(&connected[i], peer) {
            return true;
        }
        i = i + 1;
    }
    false
}

/// The time between two looks at the connected peers while a connection
/// is awaited, in milliseconds.
pub const POLL_INTERVAL_MS: u64 = 10;

/// What to make of one look at a connection that is being set up.
#[derive(Copy, Clone, Debug, PartialEq, Eq, Structural)]
pub enum PollDecision {
    /// The peer is connected.
    Connected,
    /// The connection was closed before the peer appeared.
    Failed,
    /// Neither yet: look again after `POLL_INTERVAL_MS`.
    Wait,
}

/// The decision after one look: a closed connection has failed, even
/// where the peer is listed; else a listed peer is connected; else the
/// wait goes on. Nothing bounds the number of looks.
pub open spec fn poll_decision(closed: bool, listed: bool) -> PollDecision {
    if closed {
        PollDecision::Failed
    } else if listed {
        PollDecision::Connected
    } else {
        PollDecision::Wait
    }
}

/// Decides after one look at a connection that is being set up. `closed`
/// says whether the connection has ended, `listed` whether the peer is
/// among the connected peers.
pub fn poll_connection(closed: bool, listed: bool) -> (r: PollDecision)
    ensures
        r == poll_decision(closed, listed),
{
    if closed {
        PollDecision::Failed
    } else if listed {
        PollDecision::Connected
    } else {
        PollDecision::Wait
    }
}

} // verus!
