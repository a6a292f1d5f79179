//! Process and connection accounting retained by request and response owners.
use vstd::prelude::*;
use crate::byte_budget::ByteBudget;

verus! {

pub const MAX_RPC_CLIENT_REQUESTS: usize = 4;

pub const MAX_RPC_CLIENT_REQUEST_BYTES: usize = 8_388_608;

pub const MAX_RPC_CLIENT_BYTES: usize = 33_554_432;

pub const RPC_RESULT_WORKSPACE_BYTES: usize = 8_388_608;

pub const ALLOCATION_PAGE: usize = 4096;

pub const PAGE_ACCOUNTING_BYTES: usize = 256;

pub const CLIENT_OVERHEAD_BYTES: usize = 65_536;

pub const REQUEST_OVERHEAD_BYTES: usize = 1024;

#[derive(Clone, Copy, Debug, PartialEq, Eq, Structural)]
pub struct RpcBudgetSnapshot {
    pub items: usize,
    pub item_limit: usize,
    pub bytes: usize,
    pub byte_limit: usize,
    pub resident_bytes: usize,
    pub resident_limit: usize,
}

#[derive(Clone, Copy, Debug, PartialEq, Eq, Structural)]
pub enum RpcBudgetError {
    Busy,
    TooLarge,
}

impl RpcBudgetError {
    pub open spec fn spec_message(self) -> Seq<char> {
        match self {
            RpcBudgetError::Busy => "RPC budget is busy"@,
            RpcBudgetError::TooLarge => "RPC allocation exceeds its budget"@,
        }
    }

    /// The readable form of the error.
    pub fn message(self) -> (r: &'static str)
        ensures
            r@ == self.spec_message(),
    {
        match self {
            RpcBudgetError::Busy => "RPC budget is busy",
            RpcBudgetError::TooLarge => "RPC allocation exceeds its budget",
        }
    }
}

/// The budgets of a process.
#[derive(Clone, Copy, Debug, PartialEq, Eq, Structural)]
pub struct RpcBudgets {
    pub items: ByteBudget,
    pub event_items: ByteBudget,
    pub bytes: ByteBudget,
    pub resident: ByteBudget,
}

/// The budgets of one client.
#[derive(Clone, Copy, Debug, PartialEq, Eq, Structural)]
pub struct RpcClientBudget {
    pub total: ByteBudget,
    pub requests: ByteBudget,
    pub request_bytes: ByteBudget,
    pub responses: ByteBudget,
}

/// The budgets that a charge touches.
#[derive(Clone, Copy, Debug, PartialEq, Eq, Structural)]
pub struct RpcAccounts {
    pub process: RpcBudgets,
    pub client: RpcClientBudget,
}

/// Bytes charged to a client and its process, and to its requests where `request`.
#[derive(Clone, Copy, Debug, PartialEq, Eq, Structural)]
pub struct RpcByteCharge {
    pub request: bool,
    pub bytes: usize,
}

/// An event's item and bytes.
#[derive(Clone, Copy, Debug, PartialEq, Eq, Structural)]
pub struct RpcEventCharge {
    pub bytes: usize,
}

/// Bytes reserved page by page.
#[derive(Clone, Copy, Debug, PartialEq, Eq, Structural)]
pub struct RpcAllocation {
    pub request: bool,
    pub used: usize,
    pub reserved: usize,
    /// What the pages were charged, their accounting with them.
    pub charged: usize,
}

/// A request's slot and allocation.
#[derive(Clone, Copy, Debug, PartialEq, Eq, Structural)]
pub struct RpcRequestLease {
    pub allocation: RpcAllocation,
}

/// A response's slot, and the request it answers.
#[derive(Clone, Copy, Debug, PartialEq, Eq, Structural)]
pub struct RpcResponseLease {
    pub request: Option<RpcRequestLease>,
}

/// A budget with so much more taken.
pub open spec fn taken(budget: ByteBudget, amount: int) -> ByteBudget {
    ByteBudget { used: (budget.used + amount) as usize, ..budget }
}

impl RpcBudgets {
    pub open spec fn valid(self) -> bool {
        self.items.valid() && self.event_items.valid() && self.bytes.valid() && self.resident.valid()
    }

    pub fn new(items: usize, bytes: usize, resident: ByteBudget) -> (r: Self)
        requires
            resident.valid(),
        ensures
            r == (RpcBudgets {
                items: ByteBudget { limit: items, used: 0 },
                event_items: ByteBudget { limit: (items / 2) as usize, used: 0 },
                bytes: ByteBudget { limit: bytes, used: 0 },
                resident,
            }),
            r.valid(),
    {
        RpcBudgets {
            items: ByteBudget::new(items),
            event_items: ByteBudget::new(items / 2),
            bytes: ByteBudget::new(bytes),
            resident,
        }
    }

    pub fn snapshot(&self) -> (r: RpcBudgetSnapshot)
        ensures
            r == (RpcBudgetSnapshot {
                items: self.items.used,
                item_limit: self.items.limit,
                bytes: self.bytes.used,
                byte_limit: self.bytes.limit,
                resident_bytes: self.resident.used,
                resident_limit: self.resident.limit,
            }),
    {
        RpcBudgetSnapshot {
            items: self.items.used,
            item_limit: self.items.limit,
            bytes: self.bytes.used,
            byte_limit: self.bytes.limit,
            resident_bytes: self.resident.used,
            resident_limit: self.resident.limit,
        }
    }

    /// Opens a client of the process.
    pub fn client(self) -> (r: Result<RpcAccounts, RpcBudgetError>)
        requires
            self.valid(),
        ensures
            r == charged(fresh_client(self), RpcByteCharge { request: false, bytes: CLIENT_OVERHEAD_BYTES }),
            r matches Ok(accounts) ==> accounts.valid(),
    {
        let share: usize = self.bytes.limit / 4 * 3;
        let limit: usize = if share < MAX_RPC_CLIENT_BYTES {
            share
        } else {
            MAX_RPC_CLIENT_BYTES
        };
        let mut accounts = RpcAccounts {
            process: self,
            client: RpcClientBudget {
                total: ByteBudget::new(limit),
                requests: ByteBudget::new(MAX_RPC_CLIENT_REQUESTS),
                request_bytes: ByteBudget::new(MAX_RPC_CLIENT_REQUEST_BYTES),
                responses: ByteBudget::new(1),
            },
        };
        match accounts.charge(RpcByteCharge { request: false, bytes: CLIENT_OVERHEAD_BYTES }) {
            Ok(_) => Ok(accounts),
            Err(error) => Err(error),
        }
    }
}

/// A client before anything was charged to it.
pub open spec fn fresh_client(process: RpcBudgets) -> RpcAccounts {
    let share = process.bytes.limit as int / 4 * 3;
    RpcAccounts {
        process,
        client: RpcClientBudget {
            total: ByteBudget {
                limit: if share < MAX_RPC_CLIENT_BYTES {
                    share as usize
                } else {
                    MAX_RPC_CLIENT_BYTES
                },
                used: 0,
            },
            requests: ByteBudget { limit: MAX_RPC_CLIENT_REQUESTS, used: 0 },
            request_bytes: ByteBudget { limit: MAX_RPC_CLIENT_REQUEST_BYTES, used: 0 },
            responses: ByteBudget { limit: 1, used: 0 },
        },
    }
}

/// The accounts after a charge of bytes. One over any limit is too large; one
/// that does not fit now is refused as busy, and takes nothing.
pub open spec fn charged(accounts: RpcAccounts, charge: RpcByteCharge) -> Result<RpcAccounts, RpcBudgetError> {
    let bytes = charge.bytes as int;
    let client = accounts.client;
    let process = accounts.process;
    if bytes > client.total.limit || bytes > process.bytes.limit || bytes > process.resident.limit || (
    charge.request && bytes > client.request_bytes.limit) {
        Err(RpcBudgetError::TooLarge)
    } else if (charge.request && !client.request_bytes.spec_fits(bytes)) || !client.total.spec_fits(bytes)
        || !process.bytes.spec_fits(bytes) || !process.resident.spec_fits(bytes) {
        Err(RpcBudgetError::Busy)
    } else {
        Ok(moved(accounts, charge.request, bytes))
    }
}

/// The accounts with so many bytes more.
pub open spec fn moved(accounts: RpcAccounts, request: bool, bytes: int) -> RpcAccounts {
    RpcAccounts {
        process: RpcBudgets {
            bytes: taken(accounts.process.bytes, bytes),
            resident: taken(accounts.process.resident, bytes),
            ..accounts.process
        },
        client: RpcClientBudget {
            total: taken(accounts.client.total, bytes),
            request_bytes: if request {
                taken(accounts.client.request_bytes, bytes)
            } else {
                accounts.client.request_bytes
            },
            ..accounts.client
        },
    }
}

/// Whether the accounts hold so many bytes.
pub open spec fn holds_bytes(accounts: RpcAccounts, request: bool, bytes: int) -> bool {
    &&& bytes <= accounts.client.total.used
    &&& bytes <= accounts.process.bytes.used
    &&& bytes <= accounts.process.resident.used
    &&& request ==> bytes <= accounts.client.request_bytes.used
}

/// Which slots an item takes besides one of the process.
#[derive(Clone, Copy, Debug, PartialEq, Eq, Structural)]
pub enum RpcItem {
    Request,
    Response,
    Event,
}

/// The slots of an item.
pub open spec fn slots_of(accounts: RpcAccounts, item: RpcItem) -> ByteBudget {
    match item {
        RpcItem::Request => accounts.client.requests,
        RpcItem::Response => accounts.client.responses,
        RpcItem::Event => accounts.process.event_items,
    }
}

/// The accounts with so many more slots of an item taken.
pub open spec fn with_slots(accounts: RpcAccounts, item: RpcItem, amount: int) -> RpcAccounts {
    let process = RpcBudgets { items: taken(accounts.process.items, amount), ..accounts.process };
    match item {
        RpcItem::Request => RpcAccounts {
            process,
            client: RpcClientBudget { requests: taken(accounts.client.requests, amount), ..accounts.client },
        },
        RpcItem::Response => RpcAccounts {
            process,
            client: RpcClientBudget { responses: taken(accounts.client.responses, amount), ..accounts.client },
        },
        RpcItem::Event => RpcAccounts {
            process: RpcBudgets { event_items: taken(accounts.process.event_items, amount), ..process },
            client: accounts.client,
        },
    }
}

/// The accounts after an item took its slot: busy where none is free.
pub open spec fn slotted(accounts: RpcAccounts, item: RpcItem) -> Result<RpcAccounts, RpcBudgetError> {
    if slots_of(accounts, item).spec_fits(1) && accounts.process.items.spec_fits(1) {
        Ok(with_slots(accounts, item, 1))
    } else {
        Err(RpcBudgetError::Busy)
    }
}

/// Whether the accounts hold a slot of an item.
pub open spec fn holds_slot(accounts: RpcAccounts, item: RpcItem) -> bool {
    slots_of(accounts, item).used >= 1 && accounts.process.items.used >= 1
}

/// Bytes in whole pages.
pub open spec fn in_pages(bytes: int) -> int {
    if bytes % ALLOCATION_PAGE as int == 0 {
        bytes
    } else {
        (bytes / ALLOCATION_PAGE as int + 1) * ALLOCATION_PAGE
    }
}

/// An allocation grown by some bytes, and the accounts with it.
pub open spec fn reserved(accounts: RpcAccounts, allocation: RpcAllocation, bytes: int) -> Result<
    (RpcAccounts, RpcAllocation),
    RpcBudgetError,
> {
    let next = allocation.used + bytes;
    if (allocation.request && next > accounts.client.request_bytes.limit) || next > accounts.client.total.limit {
        Err(RpcBudgetError::TooLarge)
    } else if next <= allocation.reserved {
        Ok((accounts, RpcAllocation { used: next as usize, ..allocation }))
    } else {
        let additional = in_pages(next - allocation.reserved);
        let charge = RpcByteCharge {
            request: allocation.request,
            bytes: (additional + PAGE_ACCOUNTING_BYTES) as usize,
        };
        match charged(accounts, charge) {
            Err(error) => Err(error),
            Ok(after) => Ok(
                (
                    after,
                    RpcAllocation {
                        request: allocation.request,
                        used: next as usize,
                        reserved: (allocation.reserved + additional) as usize,
                        charged: (allocation.charged + charge.bytes) as usize,
                    },
                ),
            ),
        }
    }
}

/// An allocation that holds nothing.
pub open spec fn empty_allocation(request: bool) -> RpcAllocation {
    RpcAllocation { request, used: 0, reserved: 0, charged: 0 }
}

/// The accounts after a request of so many bytes was admitted, and its lease.
pub open spec fn requested(accounts: RpcAccounts, body: int) -> Result<
    (RpcAccounts, RpcRequestLease),
    RpcBudgetError,
> {
    let bytes = body * 2 + REQUEST_OVERHEAD_BYTES;
    if bytes > MAX_RPC_CLIENT_REQUEST_BYTES {
        Err(RpcBudgetError::TooLarge)
    } else {
        match slotted(accounts, RpcItem::Request) {
            Err(error) => Err(error),
            Ok(slotted) => match reserved(slotted, empty_allocation(true), bytes) {
                Err(error) => Err(error),
                Ok((after, allocation)) => Ok((after, RpcRequestLease { allocation })),
            },
        }
    }
}

impl RpcAllocation {
    /// No more is used than reserved, and no more reserved than a client may hold.
    pub open spec fn valid(self) -> bool {
        self.used <= self.reserved <= MAX_RPC_CLIENT_BYTES + ALLOCATION_PAGE
    }
}

impl RpcAccounts {
    /// No budget is overdrawn, and the client's limits are what a client may have.
    pub open spec fn valid(self) -> bool {
        &&& self.process.valid()
        &&& self.client.total.valid() && self.client.total.limit <= MAX_RPC_CLIENT_BYTES
        &&& self.client.requests.valid()
        &&& self.client.request_bytes.valid() && self.client.request_bytes.limit <= MAX_RPC_CLIENT_BYTES
        &&& self.client.responses.valid()
    }

    /// Closes the client: what it took for itself is given back.
    pub fn close(self) -> (r: RpcBudgets)
        requires
            self.valid(),
            holds_bytes(self, false, CLIENT_OVERHEAD_BYTES as int),
        ensures
            r == moved(self, false, -(CLIENT_OVERHEAD_BYTES as int)).process,
            r.valid(),
    {
        let mut accounts = self;
        accounts.refund(RpcByteCharge { request: false, bytes: CLIENT_OVERHEAD_BYTES });
        accounts.process
    }

    pub fn outstanding_requests(&self) -> (r: usize)
        ensures
            r == self.client.requests.used,
    {
        self.client.requests.used
    }

    pub fn request_bytes(&self) -> (r: usize)
        ensures
            r == self.client.request_bytes.used,
    {
        self.client.request_bytes.used
    }

    pub fn bytes(&self) -> (r: usize)
        ensures
            r == self.client.total.used,
    {
        self.client.total.used
    }

    /// Charges bytes to the client and the process, or nothing.
    pub fn charge(&mut self, charge: RpcByteCharge) -> (r: Result<(), RpcBudgetError>)
        requires
            old(self).valid(),
        ensures
            final(self).valid(),
            match charged(*old(self), charge) {
                Ok(after) => r is Ok && *final(self) == after,
                Err(error) => r == Err::<(), RpcBudgetError>(error) && *final(self) == *old(self),
            },
    {
        let bytes = charge.bytes;
        if bytes > self.client.total.limit || bytes > self.process.bytes.limit || bytes
            > self.process.resident.limit || (charge.request && bytes > self.client.request_bytes.limit) {
            return Err(RpcBudgetError::TooLarge);
        }
        if (charge.request && !self.client.request_bytes.fits(bytes)) || !self.client.total.fits(bytes)
            || !self.process.bytes.fits(bytes) || !self.process.resident.fits(bytes) {
            return Err(RpcBudgetError::Busy);
        }
        if charge.request {
            self.client.request_bytes.used = self.client.request_bytes.used + bytes;
        }
        self.client.total.used = self.client.total.used + bytes;
        self.process.bytes.used = self.process.bytes.used + bytes;
        self.process.resident.used = self.process.resident.used + bytes;
        Ok(())
    }

    /// Gives charged bytes back.
    pub fn refund(&mut self, charge: RpcByteCharge)
        requires
            old(self).valid(),
            holds_bytes(*old(self), charge.request, charge.bytes as int),
        ensures
            final(self).valid(),
            *final(self) == moved(*old(self), charge.request, -(charge.bytes as int)),
    {
        let bytes = charge.bytes;
        if charge.request {
            self.client.request_bytes.used = self.client.request_bytes.used - bytes;
        }
        self.client.total.used = self.client.total.used - bytes;
        self.process.bytes.used = self.process.bytes.used - bytes;
        self.process.resident.used = self.process.resident.used - bytes;
    }

    fn slots_fit(&self, item: RpcItem) -> (r: bool)
        requires
            self.valid(),
        ensures
            r == (slots_of(*self, item).spec_fits(1) && self.process.items.spec_fits(1)),
    {
        let local = match item {
            RpcItem::Request => self.client.requests.fits(1),
            RpcItem::Response => self.client.responses.fits(1),
            RpcItem::Event => self.process.event_items.fits(1),
        };
        local && self.process.items.fits(1)
    }

    /// Takes the slot of an item, or nothing.
    pub fn take_slot(&mut self, item: RpcItem) -> (r: Result<(), RpcBudgetError>)
        requires
            old(self).valid(),
        ensures
            final(self).valid(),
            match slotted(*old(self), item) {
                Ok(after) => r is Ok && *final(self) == after,
                Err(error) => r == Err::<(), RpcBudgetError>(error) && *final(self) == *old(self),
            },
    {
        if !self.slots_fit(item) {
            return Err(RpcBudgetError::Busy);
        }
        self.process.items.used = self.process.items.used + 1;
        match item {
            RpcItem::Request => {
                self.client.requests.used = self.client.requests.used + 1;
            },
            RpcItem::Response => {
                self.client.responses.used = self.client.responses.used + 1;
            },
            RpcItem::Event => {
                self.process.event_items.used = self.process.event_items.used + 1;
            },
        }
        Ok(())
    }

    /// Gives the slot of an item back.
    pub fn give_slot(&mut self, item: RpcItem)
        requires
            old(self).valid(),
            holds_slot(*old(self), item),
        ensures
            final(self).valid(),
            *final(self) == with_slots(*old(self), item, -1),
    {
        self.process.items.used = self.process.items.used - 1;
        match item {
            RpcItem::Request => {
                self.client.requests.used = self.client.requests.used - 1;
            },
            RpcItem::Response => {
                self.client.responses.used = self.client.responses.used - 1;
            },
            RpcItem::Event => {
                self.process.event_items.used = self.process.event_items.used - 1;
            },
        }
    }

    /// Grows an allocation, page by page; a refusal changes nothing.
    pub fn reserve(&mut self, allocation: &mut RpcAllocation, bytes: usize) -> (r: Result<(), RpcBudgetError>)
        requires
            old(self).valid(),
            old(allocation).valid(),
            holds_bytes(*old(self), old(allocation).request, old(allocation).charged as int),
        ensures
            final(self).valid(),
            final(allocation).valid(),
            holds_bytes(*final(self), final(allocation).request, final(allocation).charged as int),
            match reserved(*old(self), *old(allocation), bytes as int) {
                Ok((accounts, grown)) => r is Ok && *final(self) == accounts && *final(allocation) == grown,
                Err(error) => r == Err::<(), RpcBudgetError>(error) && *final(self) == *old(self)
                    && *final(allocation) == *old(allocation),
            },
    {
        let next: usize = match allocation.used.checked_add(bytes) {
            Some(next) => next,
            None => return Err(RpcBudgetError::TooLarge),
        };
        if (allocation.request && next > self.client.request_bytes.limit) || next > self.client.total.limit {
            return Err(RpcBudgetError::TooLarge);
        }
        if next > allocation.reserved {
            let missing: usize = next - allocation.reserved;
            let additional: usize = if missing % ALLOCATION_PAGE == 0 {
                missing
            } else {
                (missing / ALLOCATION_PAGE + 1) * ALLOCATION_PAGE
            };
            assert(additional == in_pages(missing as int));
            let charge = RpcByteCharge {
                request: allocation.request,
                bytes: additional + PAGE_ACCOUNTING_BYTES,
            };
            match self.charge(charge) {
                Ok(_) => {},
                Err(error) => return Err(error),
            }
            allocation.reserved = allocation.reserved + additional;
            allocation.charged = allocation.charged + charge.bytes;
        }
        allocation.used = next;
        Ok(())
    }

    /// Gives back everything that an allocation holds.
    pub fn release(&mut self, allocation: RpcAllocation)
        requires
            old(self).valid(),
            holds_bytes(*old(self), allocation.request, allocation.charged as int),
        ensures
            final(self).valid(),
            *final(self) == moved(*old(self), allocation.request, -(allocation.charged as int)),
    {
        self.refund(RpcByteCharge { request: allocation.request, bytes: allocation.charged });
    }

    /// Admits a request of so many bytes; a refusal changes nothing.
    pub fn try_request(&mut self, body_bytes: usize) -> (r: Result<RpcRequestLease, RpcBudgetError>)
        requires
            old(self).valid(),
        ensures
            final(self).valid(),
            match requested(*old(self), body_bytes as int) {
                Ok((accounts, lease)) => r == Ok::<RpcRequestLease, RpcBudgetError>(lease) && *final(self)
                    == accounts,
                Err(error) => r == Err::<RpcRequestLease, RpcBudgetError>(error) && *final(self) == *old(self),
            },
            r matches Ok(lease) ==> lease.allocation.valid(),
    {
        if body_bytes > MAX_RPC_CLIENT_REQUEST_BYTES {
            return Err(RpcBudgetError::TooLarge);
        }
        let bytes: usize = body_bytes * 2 + REQUEST_OVERHEAD_BYTES;
        if bytes > MAX_RPC_CLIENT_REQUEST_BYTES {
            return Err(RpcBudgetError::TooLarge);
        }
        match self.take_slot(RpcItem::Request) {
            Ok(_) => {},
            Err(error) => return Err(error),
        }
        let mut allocation = RpcAllocation { request: true, used: 0, reserved: 0, charged: 0 };
        match self.reserve(&mut allocation, bytes) {
            Ok(_) => Ok(RpcRequestLease { allocation }),
            Err(error) => {
                self.give_slot(RpcItem::Request);
                Err(error)
            },
        }
    }

    /// Reserves bytes for one command of a request, apart from the request's own.
    pub(crate) fn reserve_command(&mut self, bytes: usize) -> (r: Result<RpcAllocation, RpcBudgetError>)
        requires
            old(self).valid(),
        ensures
            final(self).valid(),
            match reserved(*old(self), empty_allocation(true), bytes as int) {
                Ok((accounts, allocation)) => r == Ok::<RpcAllocation, RpcBudgetError>(allocation)
                    && *final(self) == accounts,
                Err(error) => r == Err::<RpcAllocation, RpcBudgetError>(error) && *final(self) == *old(self),
            },
    {
        let mut allocation = RpcAllocation { request: true, used: 0, reserved: 0, charged: 0 };
        match self.reserve(&mut allocation, bytes) {
            Ok(_) => Ok(allocation),
            Err(error) => Err(error),
        }
    }

    /// Gives a request's slot and bytes back.
    pub fn release_request(&mut self, lease: RpcRequestLease)
        requires
            old(self).valid(),
            holds_slot(*old(self), RpcItem::Request),
            holds_bytes(*old(self), lease.allocation.request, lease.allocation.charged as int),
        ensures
            final(self).valid(),
            *final(self) == with_slots(
                moved(*old(self), lease.allocation.request, -(lease.allocation.charged as int)),
                RpcItem::Request,
                -1,
            ),
    {
        self.release(lease.allocation);
        self.give_slot(RpcItem::Request);
    }

    /// Takes the client's response slot for the answer to a request.
    pub fn response(&mut self, request: Option<RpcRequestLease>) -> (r: Result<RpcResponseLease, RpcBudgetError>)
        requires
            old(self).valid(),
        ensures
            final(self).valid(),
            match slotted(*old(self), RpcItem::Response) {
                Ok(after) => r == Ok::<RpcResponseLease, RpcBudgetError>(RpcResponseLease { request })
                    && *final(self) == after,
                Err(error) => r == Err::<RpcResponseLease, RpcBudgetError>(error) && *final(self) == *old(self),
            },
    {
        match self.take_slot(RpcItem::Response) {
            Ok(_) => Ok(RpcResponseLease { request }),
            Err(error) => Err(error),
        }
    }

    /// Charges the workspace in which a response is built.
    pub fn workspace(&mut self) -> (r: Result<RpcByteCharge, RpcBudgetError>)
        requires
            old(self).valid(),
        ensures
            final(self).valid(),
            match charged(*old(self), RpcByteCharge { request: false, bytes: RPC_RESULT_WORKSPACE_BYTES }) {
                Ok(after) => r == Ok::<RpcByteCharge, RpcBudgetError>(
                    RpcByteCharge { request: false, bytes: RPC_RESULT_WORKSPACE_BYTES },
                ) && *final(self) == after,
                Err(error) => r == Err::<RpcByteCharge, RpcBudgetError>(error) && *final(self) == *old(self),
            },
    {
        let charge = RpcByteCharge { request: false, bytes: RPC_RESULT_WORKSPACE_BYTES };
        match self.charge(charge) {
            Ok(_) => Ok(charge),
            Err(error) => Err(error),
        }
    }

    /// Charges an event's item and bytes, or nothing.
    pub fn event_charge(&mut self, bytes: usize) -> (r: Result<RpcEventCharge, RpcBudgetError>)
        requires
            old(self).valid(),
        ensures
            final(self).valid(),
            match event_charged(*old(self), bytes as int) {
                Ok(after) => r == Ok::<RpcEventCharge, RpcBudgetError>(RpcEventCharge { bytes })
                    && *final(self) == after,
                Err(error) => r == Err::<RpcEventCharge, RpcBudgetError>(error) && *final(self) == *old(self),
            },
    {
        match self.take_slot(RpcItem::Event) {
            Ok(_) => {},
            Err(error) => return Err(error),
        }
        match self.charge(RpcByteCharge { request: false, bytes }) {
            Ok(_) => Ok(RpcEventCharge { bytes }),
            Err(error) => {
                self.give_slot(RpcItem::Event);
                Err(error)
            },
        }
    }

    /// Replaces an event's bytes: the new ones are charged before the old ones
    /// are given back.
    pub fn replace_event_bytes(&mut self, charge: RpcEventCharge, bytes: usize) -> (r: Result<
        RpcEventCharge,
        RpcBudgetError,
    >)
        requires
            old(self).valid(),
            holds_bytes(*old(self), false, charge.bytes as int),
        ensures
            final(self).valid(),
            match charged(*old(self), RpcByteCharge { request: false, bytes }) {
                Ok(after) => r == Ok::<RpcEventCharge, RpcBudgetError>(RpcEventCharge { bytes })
                    && *final(self) == moved(after, false, -(charge.bytes as int)),
                Err(error) => r == Err::<RpcEventCharge, RpcBudgetError>(error) && *final(self) == *old(self),
            },
    {
        match self.charge(RpcByteCharge { request: false, bytes }) {
            Ok(_) => {},
            Err(error) => return Err(error),
        }
        self.refund(RpcByteCharge { request: false, bytes: charge.bytes });
        Ok(RpcEventCharge { bytes })
    }

    /// Gives an event's item and bytes back.
    pub fn release_event(&mut self, charge: RpcEventCharge)
        requires
            old(self).valid(),
            holds_slot(*old(self), RpcItem::Event),
            holds_bytes(*old(self), false, charge.bytes as int),
        ensures
            final(self).valid(),
            *final(self) == with_slots(moved(*old(self), false, -(charge.bytes as int)), RpcItem::Event, -1),
    {
        self.refund(RpcByteCharge { request: false, bytes: charge.bytes });
        self.give_slot(RpcItem::Event);
    }
}

/// The accounts after an event's item and bytes were charged.
pub open spec fn event_charged(accounts: RpcAccounts, bytes: int) -> Result<RpcAccounts, RpcBudgetError> {
    match slotted(accounts, RpcItem::Event) {
        Err(error) => Err(error),
        Ok(slotted) => charged(slotted, RpcByteCharge { request: false, bytes: bytes as usize }),
    }
}

/// A request that was admitted and released leaves the accounts as they were.
pub proof fn law_released_request_refunds_everything(accounts: RpcAccounts, body: nat)
    requires
        accounts.valid(),
    ensures
        requested(accounts, body as int) matches Ok((after, lease)) ==> {
            &&& holds_slot(after, RpcItem::Request)
            &&& holds_bytes(after, lease.allocation.request, lease.allocation.charged as int)
            &&& with_slots(
                moved(after, lease.allocation.request, -(lease.allocation.charged as int)),
                RpcItem::Request,
                -1,
            ) == accounts
        },
{
}

/// No more requests are out at once than a client may have, whatever is charged.
pub proof fn law_requests_are_bounded(accounts: RpcAccounts, body: nat)
    requires
        accounts.valid(),
        accounts.client.requests.limit == MAX_RPC_CLIENT_REQUESTS,
    ensures
        requested(accounts, body as int) matches Ok((after, _)) ==> after.client.requests.used
            <= MAX_RPC_CLIENT_REQUESTS,
{
}

/// A client that was opened and closed leaves the process as it was.
pub proof fn law_closed_client_refunds_everything(process: RpcBudgets)
    requires
        process.valid(),
    ensures
        charged(
            fresh_client(process),
            RpcByteCharge { request: false, bytes: CLIENT_OVERHEAD_BYTES },
        ) matches Ok(accounts) ==> {
            &&& holds_bytes(accounts, false, CLIENT_OVERHEAD_BYTES as int)
            &&& moved(accounts, false, -(CLIENT_OVERHEAD_BYTES as int)).process == process
        },
{
}

/// An event that was charged and released leaves the accounts as they were.
pub proof fn law_released_event_refunds_everything(accounts: RpcAccounts, bytes: usize)
    requires
        accounts.valid(),
    ensures
        event_charged(accounts, bytes as int) matches Ok(after) ==> {
            &&& holds_slot(after, RpcItem::Event)
            &&& holds_bytes(after, false, bytes as int)
            &&& with_slots(moved(after, false, -(bytes as int)), RpcItem::Event, -1) == accounts
        },
{
}

/// A budget with so much given back, as far as that much was taken.
pub open spec fn given_back(budget: ByteBudget, amount: int) -> ByteBudget {
    ByteBudget {
        used: if amount >= budget.used {
            0
        } else {
            (budget.used - amount) as usize
        },
        ..budget
    }
}

/// The accounts once an owner of some items and bytes is gone.
pub open spec fn dropped_owner(accounts: RpcAccounts, events: int, bytes: int) -> RpcAccounts {
    RpcAccounts {
        process: RpcBudgets {
            items: given_back(accounts.process.items, events),
            event_items: given_back(accounts.process.event_items, events),
            bytes: given_back(accounts.process.bytes, bytes),
            resident: given_back(accounts.process.resident, bytes),
        },
        client: RpcClientBudget { total: given_back(accounts.client.total, bytes), ..accounts.client },
    }
}

fn give_back(budget: ByteBudget, amount: usize) -> (r: ByteBudget)
    requires
        budget.valid(),
    ensures
        r == given_back(budget, amount as int),
        r.valid(),
{
    ByteBudget { used: budget.used.saturating_sub(amount), limit: budget.limit }
}

impl RpcAccounts {
    /// Gives back what an owner of some event items and bytes held.
    pub fn drop_owner(&mut self, events: usize, bytes: usize)
        requires
            old(self).valid(),
        ensures
            final(self).valid(),
            *final(self) == dropped_owner(*old(self), events as int, bytes as int),
    {
        self.process.items = give_back(self.process.items, events);
        self.process.event_items = give_back(self.process.event_items, events);
        self.process.bytes = give_back(self.process.bytes, bytes);
        self.process.resident = give_back(self.process.resident, bytes);
        self.client.total = give_back(self.client.total, bytes);
    }
}

/// The budgets of a process and of all its clients.
#[derive(Debug, PartialEq, Eq)]
pub struct RpcLedger {
    pub process: RpcBudgets,
    pub clients: Vec<RpcClientBudget>,
}

/// What a ledger holds.
#[verifier::ext_equal]
pub struct LedgerView {
    pub process: RpcBudgets,
    pub clients: Seq<RpcClientBudget>,
}

impl View for RpcLedger {
    type V = LedgerView;

    open spec fn view(&self) -> LedgerView {
        LedgerView { process: self.process, clients: self.clients@ }
    }
}

impl LedgerView {
    /// The accounts of one client.
    pub open spec fn accounts(self, client: int) -> RpcAccounts {
        RpcAccounts { process: self.process, client: self.clients[client] }
    }

    /// The ledger with other accounts of one client.
    pub open spec fn with(self, client: int, accounts: RpcAccounts) -> LedgerView {
        LedgerView { process: accounts.process, clients: self.clients.update(client, accounts.client) }
    }

    /// No account is overdrawn.
    pub open spec fn valid(self) -> bool {
        &&& self.process.valid()
        &&& forall|i: int| 0 <= i < self.clients.len() ==> (#[trigger] self.accounts(i)).valid()
    }
}

impl RpcLedger {
    pub fn new(process: RpcBudgets) -> (r: Self)
        requires
            process.valid(),
        ensures
            r@ == (LedgerView { process, clients: Seq::empty() }),
            r@.valid(),
    {
        RpcLedger { process, clients: Vec::new() }
    }

    /// Opens a client and names it by its number.
    pub fn open_client(&mut self) -> (r: Result<usize, RpcBudgetError>)
        requires
            old(self)@.valid(),
        ensures
            final(self)@.valid(),
            match charged(
                fresh_client(old(self)@.process),
                RpcByteCharge { request: false, bytes: CLIENT_OVERHEAD_BYTES },
            ) {
                Ok(accounts) => r == Ok::<usize, RpcBudgetError>(old(self)@.clients.len() as usize)
                    && final(self)@ == (LedgerView {
                    process: accounts.process,
                    clients: old(self)@.clients.push(accounts.client),
                }),
                Err(error) => r == Err::<usize, RpcBudgetError>(error) && final(self)@ == old(self)@,
            },
    {
        let accounts = match self.process.client() {
            Ok(accounts) => accounts,
            Err(error) => return Err(error),
        };
        let number: usize = self.clients.len();
        self.process = accounts.process;
        self.clients.push(accounts.client);
        proof {
            assert forall|i: int| 0 <= i < self@.clients.len() implies (#[trigger] self@.accounts(i)).valid() by {
                if i < number {
                    assert(old(self)@.accounts(i).valid());
                    assert(self@.clients[i] == old(self)@.clients[i]);
                }
            }
        }
        Ok(number)
    }

    pub fn accounts(&self, client: usize) -> (r: RpcAccounts)
        requires
            client < self@.clients.len(),
        ensures
            r == self@.accounts(client as int),
    {
        RpcAccounts { process: self.process, client: self.clients[client] }
    }

    pub fn set(&mut self, client: usize, accounts: RpcAccounts)
        requires
            old(self)@.valid(),
            client < old(self)@.clients.len(),
            accounts.valid(),
        ensures
            final(self)@ == old(self)@.with(client as int, accounts),
            final(self)@.valid(),
    {
        self.process = accounts.process;
        self.clients.set(client, accounts.client);
        proof {
            assert forall|i: int| 0 <= i < self@.clients.len() implies (#[trigger] self@.accounts(i)).valid() by {
                if i != client {
                    assert(old(self)@.accounts(i).valid());
                    assert(self@.clients[i] == old(self)@.clients[i]);
                }
            }
        }
    }
}

} // verus!
