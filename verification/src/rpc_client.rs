//! What a connection may do: its authorization, its events and its results.
use vstd::prelude::*;
use crate::rpc_broker::{next_for, refilters, subscribes_to_all, Brokered, RpcEventBroker, RpcEventDelivery};
use crate::rpc_budget::{
    empty_allocation, holds_bytes, reserved, RpcAccounts, RpcAllocation, RpcBudgetError, RpcLedger, RpcRequestLease,
};
use crate::rpc_events::{
    RpcEventError, RpcEventFilter, RpcEventLimits, DEFAULT_RPC_EVENT_BYTE_CAPACITY, DEFAULT_RPC_EVENT_CAPACITY,
};

verus! {

/// What every context of one connection shares.
#[derive(Clone, Copy, Debug, PartialEq, Eq, Structural)]
pub struct ClientState {
    pub authenticated: bool,
    /// The client whose events can be pushed over the connection, if any.
    pub events: Option<usize>,
    pub subscriber: Option<u64>,
}

/// A connection, or one request on it.
#[derive(Clone, Copy, Debug, PartialEq, Eq)]
pub struct RpcClientContext {
    /// The request, and the client that makes it.
    pub request: Option<(RpcRequestLease, usize)>,
    /// What results of the request keep.
    pub retained_results: Option<RpcAllocation>,
}

/// How much a connection may queue.
pub open spec fn connection_limits() -> RpcEventLimits {
    RpcEventLimits { events: DEFAULT_RPC_EVENT_CAPACITY, bytes: DEFAULT_RPC_EVENT_BYTE_CAPACITY }
}

/// A connection whose client can be pushed events: authorized where it subscribes.
pub open spec fn event_state(client: usize, subscriber: Option<u64>) -> ClientState {
    ClientState { authenticated: subscriber is Some, events: Some(client), subscriber }
}

/// What comes of authorizing a connection: the first time, it subscribes to every
/// event where events can be pushed, and where that fails it stays as it was.
pub open spec fn authorizes(
    connection: ClientState,
    before: Brokered,
    next: ClientState,
    after: Brokered,
    r: Result<(), RpcEventError>,
) -> bool {
    if connection.authenticated {
        r is Ok && next == connection && after == before
    } else {
        match connection.events {
            None => r is Ok && next == (ClientState { authenticated: true, ..connection }) && after == before,
            Some(client) => exists|made: Result<u64, RpcEventError>| #[trigger]
                subscribes_to_all(before, connection_limits(), client, after, made) && match made {
                    Ok(id) => r is Ok && next == event_state(client, Some(id)),
                    Err(error) => r == Err::<(), RpcEventError>(error) && next == connection,
                },
        }
    }
}

impl Default for ClientState {
    fn default() -> (r: Self)
        ensures
            r == (ClientState { authenticated: false, events: None, subscriber: None }),
    {
        ClientState { authenticated: false, events: None, subscriber: None }
    }
}

impl Default for RpcClientContext {
    fn default() -> (r: Self)
        ensures
            r == (RpcClientContext { request: None, retained_results: None }),
    {
        RpcClientContext { request: None, retained_results: None }
    }
}

impl RpcClientContext {
    pub fn is_authenticated(&self, connection: &ClientState) -> (r: bool)
        ensures
            r == connection.authenticated,
    {
        connection.authenticated
    }

    /// The context of one request of a client on the connection.
    pub fn with_request(&self, request: RpcRequestLease, client: usize) -> (r: Self)
        ensures
            r == (RpcClientContext {
                request: Some((request, client)),
                retained_results: Some(empty_allocation(false)),
            }),
    {
        RpcClientContext {
            request: Some((request, client)),
            retained_results: Some(RpcAllocation { request: false, used: 0, reserved: 0, charged: 0 }),
        }
    }

    pub fn request_lease(&self) -> (r: Option<RpcRequestLease>)
        ensures
            r == (match self.request {
                Some((request, _)) => Some(request),
                None => None,
            }),
    {
        match self.request {
            Some((request, _)) => Some(request),
            None => None,
        }
    }

    /// The client that pays: that of the request, or that of the connection.
    pub fn client_budget(&self, connection: &ClientState) -> (r: Option<usize>)
        ensures
            r == (match self.request {
                Some((_, client)) => Some(client),
                None => connection.events,
            }),
    {
        match self.request {
            Some((_, client)) => Some(client),
            None => connection.events,
        }
    }

    /// Keeps so many bytes of results for as long as the request lasts.
    pub fn retain_result(&mut self, accounts: &mut RpcAccounts, bytes: usize) -> (r: Result<(), RpcBudgetError>)
        requires
            old(accounts).valid(),
            old(self).retained_results matches Some(results) ==> results.valid() && holds_bytes(
                *old(accounts),
                results.request,
                results.charged as int,
            ),
        ensures
            final(accounts).valid(),
            match old(self).retained_results {
                None => r is Ok && *final(self) == *old(self) && *final(accounts) == *old(accounts),
                Some(results) => match reserved(*old(accounts), results, bytes as int) {
                    Ok((after, grown)) => r is Ok && *final(accounts) == after && *final(self) == (
                    RpcClientContext { retained_results: Some(grown), ..*old(self) }),
                    Err(error) => r == Err::<(), RpcBudgetError>(error) && *final(self) == *old(self)
                        && *final(accounts) == *old(accounts),
                },
            },
    {
        match self.retained_results {
            None => Ok(()),
            Some(results) => {
                let mut grown = results;
                match accounts.reserve(&mut grown, bytes) {
                    Ok(_) => {
                        self.retained_results = Some(grown);
                        Ok(())
                    },
                    Err(error) => Err(error),
                }
            },
        }
    }

    /// Authorizes the connection, for each of its contexts. The first time, it
    /// subscribes to events where they can be pushed; where that fails, it stays
    /// unauthorized.
    pub fn authorize(&self, connection: &mut ClientState, broker: &mut RpcEventBroker, ledger: &mut RpcLedger) -> (r:
        Result<(), RpcEventError>)
        requires
            old(broker)@.valid(old(ledger)@),
            old(connection).events matches Some(client) ==> client < old(ledger)@.clients.len(),
        ensures
            final(broker)@.valid(final(ledger)@),
            final(ledger)@.clients.len() == old(ledger)@.clients.len(),
            authorizes(
                *old(connection),
                Brokered { broker: old(broker)@, ledger: old(ledger)@ },
                *final(connection),
                Brokered { broker: final(broker)@, ledger: final(ledger)@ },
                r,
            ),
    {
        if connection.authenticated {
            return Ok(());
        }
        if let Some(client) = connection.events {
            match broker.subscribe(ledger, RpcEventLimits::default(), client) {
                Ok(id) => {
                    connection.subscriber = Some(id);
                    connection.authenticated = true;
                    proof {
                        assert(subscribes_to_all(
                            Brokered { broker: old(broker)@, ledger: old(ledger)@ },
                            connection_limits(),
                            client,
                            Brokered { broker: broker@, ledger: ledger@ },
                            Ok::<u64, RpcEventError>(id),
                        ));
                    }
                    return Ok(());
                },
                Err(error) => {
                    proof {
                        assert(subscribes_to_all(
                            Brokered { broker: old(broker)@, ledger: old(ledger)@ },
                            connection_limits(),
                            client,
                            Brokered { broker: broker@, ledger: ledger@ },
                            Err::<u64, RpcEventError>(error),
                        ));
                    }
                    return Err(error);
                },
            }
        }
        connection.authenticated = true;
        Ok(())
    }

    /// A connection whose client can be pushed events, authorized at once where no
    /// authentication is required.
    pub fn with_events(
        broker: &mut RpcEventBroker,
        ledger: &mut RpcLedger,
        authentication_required: bool,
        client: usize,
    ) -> (r: Result<(Self, ClientState), RpcEventError>)
        requires
            old(broker)@.valid(old(ledger)@),
            client < old(ledger)@.clients.len(),
        ensures
            final(broker)@.valid(final(ledger)@),
            r matches Ok((context, _)) ==> context.request is None && context.retained_results is None,
            if authentication_required {
                r is Ok && r->Ok_0.1 == event_state(client, None) && final(broker)@ == old(broker)@
                    && final(ledger)@ == old(ledger)@
            } else {
                exists|connection: ClientState, authorized: Result<(), RpcEventError>| #[trigger]
                    authorizes(
                        event_state(client, None),
                        Brokered { broker: old(broker)@, ledger: old(ledger)@ },
                        connection,
                        Brokered { broker: final(broker)@, ledger: final(ledger)@ },
                        authorized,
                    ) && match authorized {
                        Ok(_) => r is Ok && r->Ok_0.1 == connection,
                        Err(error) => r == Err::<(Self, ClientState), RpcEventError>(error),
                    }
            },
    {
        let context = RpcClientContext::default();
        let mut connection = ClientState { authenticated: false, events: Some(client), subscriber: None };
        if !authentication_required {
            let authorized = context.authorize(&mut connection, broker, ledger);
            assert(authorizes(
                event_state(client, None),
                Brokered { broker: old(broker)@, ledger: old(ledger)@ },
                connection,
                Brokered { broker: broker@, ledger: ledger@ },
                authorized,
            ));
            match authorized {
                Ok(_) => {},
                Err(error) => return Err(error),
            }
        }
        Ok((context, connection))
    }

    /// The next event of the connection, where it fits into so many bytes.
    pub fn try_next_event(
        &self,
        connection: &ClientState,
        broker: &mut RpcEventBroker,
        ledger: &RpcLedger,
        bytes: usize,
    ) -> (r: Result<Option<RpcEventDelivery>, RpcEventError>)
        requires
            old(broker)@.valid(ledger@),
        ensures
            final(broker)@.valid(ledger@),
            connection.subscriber is None ==> r == Ok::<Option<RpcEventDelivery>, RpcEventError>(None) && final(broker)@
                == old(broker)@,
            connection.subscriber matches Some(id) ==> next_for(old(broker)@, id, bytes as int, final(broker)@, r),
    {
        match connection.subscriber {
            Some(id) => broker.try_next_bounded(ledger, id, bytes),
            None => Ok(None),
        }
    }

    /// Puts another filter in force; a connection without events has none.
    pub fn set_event_filter(
        &self,
        connection: &ClientState,
        broker: &mut RpcEventBroker,
        ledger: &mut RpcLedger,
        filter: RpcEventFilter,
    ) -> (r: Result<(), RpcEventError>)
        requires
            old(broker)@.valid(old(ledger)@),
        ensures
            final(broker)@.valid(final(ledger)@),
            connection.subscriber is None ==> r == Err::<(), RpcEventError>(RpcEventError::InvalidFilter) && final(broker)@
                == old(broker)@ && final(ledger)@ == old(ledger)@,
            connection.subscriber matches Some(id) ==> exists|bytes: usize| #[trigger]
                filter.costs(bytes) && refilters(
                    Brokered { broker: old(broker)@, ledger: old(ledger)@ },
                    id,
                    filter@,
                    bytes,
                    Brokered { broker: final(broker)@, ledger: final(ledger)@ },
                    r,
                ),
    {
        match connection.subscriber {
            Some(id) => broker.set_filter(ledger, id, filter),
            None => Err(RpcEventError::InvalidFilter),
        }
    }
}

} // verus!
