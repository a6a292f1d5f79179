//! Bounded worker-to-control handoff for atomic metadata expansion.
use vstd::prelude::*;

verus! {

/// How many requests may wait.
pub const MAX_FOLLOW_REQUESTS: usize = 64;

/// One request to expand a document, under the ticket of its payload.
#[derive(Clone, Copy, Debug, PartialEq, Eq, Structural)]
pub struct FollowRequest {
    pub ticket: u64,
    /// What the request holds of the metadata budget.
    pub metadata: u64,
}

/// The requests that wait, first come first served.
#[derive(PartialEq, Eq)]
pub struct MetalinkFollowQueue {
    pub closed: bool,
    pub requests: Vec<FollowRequest>,
}

impl Default for MetalinkFollowQueue {
    fn default() -> (r: Self)
        ensures
            !r.closed,
            r.requests@ == Seq::<FollowRequest>::empty(),
    {
        MetalinkFollowQueue { closed: false, requests: Vec::new() }
    }
}

impl MetalinkFollowQueue {
    /// No more wait than may, and none once the queue is closed.
    pub open spec fn valid(self) -> bool {
        &&& self.requests.len() <= MAX_FOLLOW_REQUESTS
        &&& self.closed ==> self.requests.len() == 0
    }

    /// Queues a request. A full or closed queue is busy and hands it back.
    pub fn push(&mut self, request: FollowRequest) -> (r: Result<(), FollowRequest>)
        requires
            old(self).valid(),
        ensures
            final(self).valid(),
            final(self).closed == old(self).closed,
            r == (if old(self).closed || old(self).requests.len() == MAX_FOLLOW_REQUESTS {
                Err::<(), FollowRequest>(request)
            } else {
                Ok::<(), FollowRequest>(())
            }),
            final(self).requests@ == (if r is Ok {
                old(self).requests@.push(request)
            } else {
                old(self).requests@
            }),
    {
        if self.closed || self.requests.len() >= MAX_FOLLOW_REQUESTS {
            return Err(request);
        }
        self.requests.push(request);
        Ok(())
    }

    /// Takes the request that has waited longest.
    pub fn pop(&mut self) -> (r: Option<FollowRequest>)
        requires
            old(self).valid(),
        ensures
            final(self).valid(),
            final(self).closed == old(self).closed,
            r == (if old(self).requests.len() == 0 {
                None
            } else {
                Some(old(self).requests@[0])
            }),
            final(self).requests@ == (if old(self).requests.len() == 0 {
                old(self).requests@
            } else {
                old(self).requests@.drop_first()
            }),
    {
        if self.requests.len() == 0 {
            return None;
        }
        let request = self.requests.remove(0);
        assert(self.requests@ =~= old(self).requests@.drop_first());
        Some(request)
    }

    /// Closes the queue and gives back every request that waits, to be told
    /// that the queue is busy.
    pub fn close(&mut self) -> (r: Vec<FollowRequest>)
        ensures
            final(self).valid(),
            final(self).closed,
            r@ == old(self).requests@,
    {
        self.closed = true;
        let mut none: Vec<FollowRequest> = Vec::new();
        std::mem::swap(&mut none, &mut self.requests);
        none
    }
}

} // verus!
