//! Bounded polling. Hardware that never raises a flag must not hang the
//! pipeline, so every wait counts its polls and gives up at a limit.

use vstd::prelude::*;

verus! {

/// What one poll of a waited-for condition comes to.
#[derive(Clone, Copy, Debug, PartialEq, Eq, Structural)]
pub enum WaitStatus {
    /// The condition holds.
    Ready,
    /// The condition does not hold yet, and polls are left.
    Pending,
    /// The last poll that the limit allows has been spent.
    Expired,
}

/// The status of a poll that finds the condition `ready`, where `remaining`
/// polls were still allowed. A wait with no polls left has expired whatever
/// the condition is now.
pub open spec fn poll_status(remaining: nat, ready: bool) -> WaitStatus {
    if remaining == 0 {
        WaitStatus::Expired
    } else if ready {
        WaitStatus::Ready
    } else if remaining == 1 {
        WaitStatus::Expired
    } else {
        WaitStatus::Pending
    }
}

/// The polls that are allowed after such a poll: an unsuccessful poll
/// spends one.
pub open spec fn poll_remaining(remaining: nat, ready: bool) -> nat {
    if remaining == 0 || ready {
        remaining
    } else {
        (remaining - 1) as nat
    }
}

/// A wait that allows a fixed number of polls.
#[derive(Clone, Copy, Debug)]
pub struct BoundedWait {
    left: u32,
}

impl View for BoundedWait {
    type V = nat;

    /// The number of polls that are still allowed.
    closed spec fn view(&self) -> nat {
        self.left as nat
    }
}

impl BoundedWait {
    /// A wait that allows `limit` polls.
    pub fn new(limit: u32) -> (wait: BoundedWait)
        ensures
            wait@ == limit,
    {
        BoundedWait { left: limit }
    }

    /// The number of polls that are still allowed.
    pub fn remaining(&self) -> (left: u32)
        ensures
            left == self@,
    {
        self.left
    }

    /// Records one poll that found the condition `ready`.
    pub fn poll(&mut self, ready: bool) -> (status: WaitStatus)
        ensures
            status == poll_status(old(self)@, ready),
            final(self)@ == poll_remaining(old(self)@, ready),
    {
        if self.left == 0 {
            WaitStatus::Expired
        } else if ready {
            WaitStatus::Ready
        } else {
            self.left = self.left - 1;
            if self.left == 0 {
                WaitStatus::Expired
            } else {
                WaitStatus::Pending
            }
        }
    }
}

/// A wait is pending at most once for each poll that it allows but the
/// last: every pending poll spends one, none adds any, and an expired wait
/// stays expired.
pub proof fn lemma_wait_is_bounded(remaining: nat, ready: bool)
    ensures
        poll_remaining(remaining, ready) <= remaining,
        poll_status(remaining, ready) == WaitStatus::Pending ==> 1 <= poll_remaining(
            remaining,
            ready,
        ) < remaining,
        poll_status(remaining, ready) == WaitStatus::Expired ==> poll_remaining(remaining, ready)
            == 0,
        poll_status(remaining, ready) == WaitStatus::Ready <==> ready && remaining >= 1,
        forall|later: bool|
            poll_status(remaining, ready) == WaitStatus::Expired ==> poll_status(
                poll_remaining(remaining, ready),
                later,
            ) == WaitStatus::Expired,
{
}

} // verus!
