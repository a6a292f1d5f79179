//! Laws of the budgets of requests: what is charged where, and what is refused.
use vstd::prelude::*;
use crate::rpc_budget::{
    charged, fresh_client, in_pages, reserved, slotted, RpcAccounts, RpcAllocation, RpcBudgetError, RpcBudgets,
    RpcByteCharge, RpcItem, ALLOCATION_PAGE, PAGE_ACCOUNTING_BYTES,
};

verus! {

/// Bytes are charged to the client and twice to the process, in flight and resident, and to the
/// client's requests where they are a request's; no limit moves and none is exceeded.
pub proof fn law_charges_are_taken_from_every_account(
    accounts: RpcAccounts,
    charge: RpcByteCharge,
    after: RpcAccounts,
)
    requires
        accounts.valid(),
        charged(accounts, charge) == Ok::<RpcAccounts, RpcBudgetError>(after),
    ensures
        after.valid(),
        after.client.total.used == accounts.client.total.used + charge.bytes,
        after.process.bytes.used == accounts.process.bytes.used + charge.bytes,
        after.process.resident.used == accounts.process.resident.used + charge.bytes,
        charge.request ==> after.client.request_bytes.used == accounts.client.request_bytes.used + charge.bytes,
        !charge.request ==> after.client.request_bytes == accounts.client.request_bytes,
        after.client.total.limit == accounts.client.total.limit,
        after.process.bytes.limit == accounts.process.bytes.limit,
        after.process.resident.limit == accounts.process.resident.limit,
        after.client.requests == accounts.client.requests,
        after.client.responses == accounts.client.responses,
        after.process.items == accounts.process.items,
        after.process.event_items == accounts.process.event_items,
{
}

/// A charge is too large where an account could never bear it, and has to wait where one cannot
/// bear it now.
pub proof fn law_charges_are_refused_for_want_of_room(accounts: RpcAccounts, charge: RpcByteCharge)
    requires
        accounts.valid(),
    ensures
        ({
            let never = charge.bytes > accounts.client.total.limit || charge.bytes > accounts.process.bytes.limit
                || charge.bytes > accounts.process.resident.limit || (charge.request && charge.bytes
                > accounts.client.request_bytes.limit);
            let fits = accounts.client.total.used + charge.bytes <= accounts.client.total.limit
                && accounts.process.bytes.used + charge.bytes <= accounts.process.bytes.limit
                && accounts.process.resident.used + charge.bytes <= accounts.process.resident.limit && (charge.request
                ==> accounts.client.request_bytes.used + charge.bytes <= accounts.client.request_bytes.limit);
            &&& charged(accounts, charge) is Ok <==> fits
            &&& never ==> charged(accounts, charge) == Err::<RpcAccounts, RpcBudgetError>(RpcBudgetError::TooLarge)
            &&& !never && !fits ==> charged(accounts, charge) == Err::<RpcAccounts, RpcBudgetError>(
                RpcBudgetError::Busy,
            )
        }),
{
}

/// A request, a response or an event takes one place of its own kind and one of all.
pub proof fn law_items_take_a_place_of_their_kind(accounts: RpcAccounts, item: RpcItem, after: RpcAccounts)
    requires
        accounts.valid(),
        slotted(accounts, item) == Ok::<RpcAccounts, RpcBudgetError>(after),
    ensures
        after.valid(),
        after.process.items.used == accounts.process.items.used + 1,
        after.client.requests.used == accounts.client.requests.used + (if item is Request {
            1int
        } else {
            0
        }),
        after.client.responses.used == accounts.client.responses.used + (if item is Response {
            1int
        } else {
            0
        }),
        after.process.event_items.used == accounts.process.event_items.used + (if item is Event {
            1int
        } else {
            0
        }),
        after.client.total == accounts.client.total,
        after.process.bytes == accounts.process.bytes,
{
}

/// Pages hold what is asked for, and no page of them is wasted.
pub proof fn law_pages_hold_what_is_asked(bytes: int)
    requires
        bytes >= 0,
    ensures
        bytes <= in_pages(bytes) < bytes + ALLOCATION_PAGE,
        in_pages(bytes) % ALLOCATION_PAGE as int == 0,
{
    let page = ALLOCATION_PAGE as int;
    assert(page > 0);
    vstd::arithmetic::div_mod::lemma_fundamental_div_mod(bytes, page);
    vstd::arithmetic::div_mod::lemma_mod_multiples_basic(bytes / page + 1, page);
    assert((bytes / page + 1) * page == page * (bytes / page) + page) by (nonlinear_arith);
}

/// What is reserved is used to the byte, covers what is used, and is charged in whole pages only when
/// it no longer suffices.
pub proof fn law_reservations_grow_by_pages(
    accounts: RpcAccounts,
    allocation: RpcAllocation,
    bytes: nat,
    after: RpcAccounts,
    grown: RpcAllocation,
)
    requires
        accounts.valid(),
        allocation.valid(),
        allocation.charged + bytes + ALLOCATION_PAGE + PAGE_ACCOUNTING_BYTES <= usize::MAX,
        allocation.used + bytes + ALLOCATION_PAGE + PAGE_ACCOUNTING_BYTES <= usize::MAX,
        reserved(accounts, allocation, bytes as int) == Ok::<(RpcAccounts, RpcAllocation), RpcBudgetError>(
            (after, grown),
        ),
    ensures
        grown.used == allocation.used + bytes,
        grown.used <= grown.reserved,
        grown.request == allocation.request,
        allocation.used + bytes <= allocation.reserved ==> after == accounts && grown.reserved == allocation.reserved
            && grown.charged == allocation.charged,
        allocation.used + bytes > allocation.reserved ==> grown.reserved < grown.used + ALLOCATION_PAGE
            && after.client.total.used - accounts.client.total.used == grown.charged - allocation.charged
            && grown.charged - allocation.charged == grown.reserved - allocation.reserved + PAGE_ACCOUNTING_BYTES,
{
    let next = allocation.used + bytes;
    if next > allocation.reserved {
        law_pages_hold_what_is_asked(next - allocation.reserved);
    }
}

/// A client may take three quarters of what the process may have, and begins with nothing
/// taken.
pub proof fn law_clients_begin_with_nothing_taken(process: RpcBudgets)
    ensures
        ({
            let accounts = fresh_client(process);
            &&& accounts.process == process
            &&& accounts.client.total.used == 0
            &&& accounts.client.requests.used == 0
            &&& accounts.client.request_bytes.used == 0
            &&& accounts.client.responses.used == 0
            &&& accounts.client.total.limit * 4 <= process.bytes.limit * 3
            &&& accounts.client.responses.limit == 1
        }),
{
}

} // verus!
