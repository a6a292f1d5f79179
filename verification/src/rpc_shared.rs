//! Requests that several holders keep: the slot and the bytes of a request are given
//! back when the last of them is gone.
use vstd::prelude::*;
use crate::native_api::{returnable, returned};
use crate::rpc_budget::{
    empty_allocation, holds_bytes, moved, requested, reserved, RpcAccounts, RpcAllocation, RpcBudgetError,
    RpcRequestLease,
};

verus! {

/// A request and how many hold it: the one that answers it, commands that were put
/// off, and whoever else keeps it.
#[derive(Debug, PartialEq, Eq)]
pub struct SharedRequest {
    pub lease: RpcRequestLease,
    pub holders: usize,
}

/// The accounts once one of so many holders of a request is gone.
pub open spec fn held_by_fewer(accounts: RpcAccounts, lease: RpcRequestLease, holders: int) -> RpcAccounts {
    if holders == 1 {
        returned(accounts, lease)
    } else {
        accounts
    }
}

impl SharedRequest {
    /// Whether the accounts hold what the request keeps, as long as it is held.
    pub open spec fn kept(self, accounts: RpcAccounts) -> bool {
        self.holders > 0 ==> returnable(accounts, self.lease)
    }

    /// A request with one holder.
    pub fn new(lease: RpcRequestLease) -> (r: Self)
        ensures
            r == (SharedRequest { lease, holders: 1 }),
    {
        SharedRequest { lease, holders: 1 }
    }

    /// Adds a holder.
    pub fn share(&mut self)
        requires
            0 < old(self).holders < usize::MAX,
        ensures
            *final(self) == (SharedRequest { holders: (old(self).holders + 1) as usize, ..*old(self) }),
    {
        self.holders = self.holders + 1;
    }

    /// Takes a holder away, and reports whether it was the last: then the request's
    /// slot and bytes are given back, and else nothing is.
    pub fn give_up(&mut self, accounts: &mut RpcAccounts) -> (last: bool)
        requires
            old(accounts).valid(),
            old(self).holders > 0,
            old(self).kept(*old(accounts)),
        ensures
            final(accounts).valid(),
            last == (old(self).holders == 1),
            *final(self) == (SharedRequest { holders: (old(self).holders - 1) as usize, ..*old(self) }),
            *final(accounts) == held_by_fewer(*old(accounts), old(self).lease, old(self).holders as int),
    {
        self.holders = self.holders - 1;
        if self.holders == 0 {
            accounts.release_request(self.lease);
            true
        } else {
            false
        }
    }

    /// Reserves bytes for one command of the request, apart from the request's own; the
    /// command holds the request.
    pub fn reserve_command(&mut self, accounts: &mut RpcAccounts, bytes: usize) -> (r: Result<
        RpcAllocation,
        RpcBudgetError,
    >)
        requires
            old(accounts).valid(),
            0 < old(self).holders < usize::MAX,
        ensures
            final(accounts).valid(),
            match reserved(*old(accounts), empty_allocation(true), bytes as int) {
                Ok((after, command)) => {
                    &&& r == Ok::<RpcAllocation, RpcBudgetError>(command)
                    &&& *final(accounts) == after
                    &&& *final(self) == (SharedRequest { holders: (old(self).holders + 1) as usize, ..*old(self) })
                },
                Err(error) => {
                    &&& r == Err::<RpcAllocation, RpcBudgetError>(error)
                    &&& *final(accounts) == *old(accounts)
                    &&& *final(self) == *old(self)
                },
            },
    {
        match accounts.reserve_command(bytes) {
            Ok(command) => {
                self.holders = self.holders + 1;
                Ok(command)
            },
            Err(error) => Err(error),
        }
    }

    /// Gives back what a command took, and takes it away as a holder; reports whether it
    /// was the last.
    pub fn end_command(&mut self, accounts: &mut RpcAccounts, command: RpcAllocation) -> (last: bool)
        requires
            old(accounts).valid(),
            old(self).holders > 0,
            holds_bytes(*old(accounts), command.request, command.charged as int),
            old(self).kept(moved(*old(accounts), command.request, -(command.charged as int))),
        ensures
            final(accounts).valid(),
            last == (old(self).holders == 1),
            *final(self) == (SharedRequest { holders: (old(self).holders - 1) as usize, ..*old(self) }),
            *final(accounts) == held_by_fewer(
                moved(*old(accounts), command.request, -(command.charged as int)),
                old(self).lease,
                old(self).holders as int,
            ),
    {
        accounts.release(command);
        self.give_up(accounts)
    }
}

/// The accounts and the holders of a request after some came, where a step is `true`,
/// and some went. Once nobody holds it, nothing is left to come or go.
pub open spec fn held_through(
    accounts: RpcAccounts,
    lease: RpcRequestLease,
    holders: nat,
    steps: Seq<bool>,
) -> (RpcAccounts, nat)
    decreases steps.len(),
{
    if steps.len() == 0 {
        (accounts, holders)
    } else {
        let (now, left) = held_through(accounts, lease, holders, steps.drop_last());
        if left == 0 {
            (now, left)
        } else if steps.last() {
            (now, left + 1)
        } else {
            (held_by_fewer(now, lease, left as int), (left - 1) as nat)
        }
    }
}

/// A request keeps its slot and bytes for as long as anyone holds it, however often
/// it was shared, and gives them back once, with its last holder.
pub proof fn law_a_request_lasts_as_long_as_it_is_held(
    accounts: RpcAccounts,
    lease: RpcRequestLease,
    holders: nat,
    steps: Seq<bool>,
)
    requires
        holders > 0,
    ensures
        ({
            let (after, left) = held_through(accounts, lease, holders, steps);
            after == (if left > 0 {
                accounts
            } else {
                returned(accounts, lease)
            })
        }),
    decreases steps.len(),
{
    if steps.len() > 0 {
        law_a_request_lasts_as_long_as_it_is_held(accounts, lease, holders, steps.drop_last());
    }
}

/// A command that was put off keeps its request's slot and bytes after the request
/// itself is gone; when the command ends, everything is as before the request.
pub proof fn law_a_deferred_command_keeps_its_request(accounts: RpcAccounts, body: nat, bytes: nat)
    requires
        accounts.valid(),
    ensures
        requested(accounts, body as int) matches Ok((after, lease)) ==> (reserved(
            after,
            empty_allocation(true),
            bytes as int,
        ) matches Ok((more, command)) ==> {
            let gone = held_by_fewer(more, lease, 2);
            let ended = moved(gone, command.request, -(command.charged as int));
            &&& gone == more
            &&& gone.client.requests == after.client.requests
            &&& holds_bytes(gone, command.request, command.charged as int)
            &&& returnable(ended, lease)
            &&& held_by_fewer(ended, lease, 1) == accounts
        }),
{
}

} // verus!
