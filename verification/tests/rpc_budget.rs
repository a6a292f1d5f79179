use ariax_engine::byte_budget::ByteBudget;
use ariax_engine::rpc_budget::{
    RpcBudgetError, RpcBudgets, RpcByteCharge, RpcItem, RpcLedger, MAX_RPC_CLIENT_REQUEST_BYTES,
};
use ariax_engine::rpc_shared::SharedRequest;

fn budgets() -> RpcBudgets {
    RpcBudgets::new(32, 32 * 1024 * 1024, ByteBudget::new(40 * 1024 * 1024))
}

#[test]
fn sequential_commands_refund_temporary_state_but_deferred_commands_retain_it() {
    let mut client = budgets().client().expect("client");
    let mut request = SharedRequest::new(client.try_request(1024).expect("batch request"));
    let baseline = client.request_bytes();
    for _ in 0..256 {
        let command = request.reserve_command(&mut client, 128 * 1024).expect("one batch member");
        assert!(client.request_bytes() > baseline);
        assert!(!request.end_command(&mut client, command));
        assert_eq!(client.request_bytes(), baseline);
    }
    let pending = request.reserve_command(&mut client, 128 * 1024).expect("deferred mutation");
    assert!(!request.give_up(&mut client));
    assert_eq!(client.outstanding_requests(), 1);
    assert!(client.request_bytes() > baseline);
    assert!(request.reserve_command(&mut client, MAX_RPC_CLIENT_REQUEST_BYTES).is_err());
    assert!(request.end_command(&mut client, pending));
    assert_eq!(client.outstanding_requests(), 0);
    assert_eq!(client.request_bytes(), 0);
    assert_eq!(client.close().snapshot().bytes, 0);
}

#[test]
fn request_slots_include_retained_commands_and_responses() {
    let mut client = budgets().client().expect("client");
    let mut requests: Vec<_> = (0..4).map(|_| client.try_request(1024).expect("request")).collect();
    assert_eq!(client.outstanding_requests(), 4);
    assert!(matches!(client.try_request(1), Err(RpcBudgetError::Busy)));
    let response = client.response(requests.pop()).expect("response");
    assert!(client.response(None).is_err());
    assert!(client.try_request(1).is_err());
    client.give_slot(RpcItem::Response);
    client.release_request(response.request.expect("answered request"));
    let extra = client.try_request(1).expect("free slot");
    client.release_request(extra);
    let mut requests: Vec<_> = requests.into_iter().map(SharedRequest::new).collect();
    requests[0].share();
    let last: Vec<bool> = requests.iter_mut().map(|request| request.give_up(&mut client)).collect();
    assert_eq!(last, vec![false, true, true]);
    assert_eq!(client.outstanding_requests(), 1);
    assert!(client.request_bytes() > 0);
    assert!(requests[0].give_up(&mut client));
    assert_eq!(client.outstanding_requests(), 0);
    assert_eq!(client.request_bytes(), 0);
    let process = client.close();
    assert_eq!(process.snapshot().bytes, 0);
    assert_eq!(process.snapshot().resident_bytes, 0);
    assert_eq!(process.snapshot().items, 0);
}

#[test]
fn process_and_resident_exhaustion_roll_back_every_partial_charge() {
    let mut ledger =
        RpcLedger::new(RpcBudgets::new(32, 32 * 1024 * 1024, ByteBudget::new(40 * 1024 * 1024)));
    let a = ledger.open_client().expect("a");
    let b = ledger.open_client().expect("b");
    let share = RpcByteCharge { request: false, bytes: 20 * 1024 * 1024 };
    let mut accounts = ledger.accounts(a);
    accounts.charge(share).expect("client share");
    assert!(accounts.charge(RpcByteCharge { request: false, bytes: 5 * 1024 * 1024 }).is_err());
    ledger.set(a, accounts);
    let baseline = ledger.process.snapshot();
    let mut accounts = ledger.accounts(b);
    assert!(accounts.charge(share).is_err());
    ledger.set(b, accounts);
    assert_eq!(ledger.process.snapshot(), baseline);
    let mut accounts = ledger.accounts(a);
    accounts.refund(share);
    ledger.set(a, accounts);
    assert!(ledger.process.resident.try_acquire(39 * 1024 * 1024));
    let baseline = ledger.process.snapshot();
    let mut accounts = ledger.accounts(b);
    assert!(accounts.try_request(1024 * 1024).is_err());
    assert_eq!(accounts.outstanding_requests(), 0);
    ledger.set(b, accounts);
    assert_eq!(ledger.process.snapshot(), baseline);
    ledger.process.resident.release(39 * 1024 * 1024);
    let mut accounts = ledger.accounts(b);
    assert!(accounts.try_request(1024 * 1024).is_ok());
}

#[test]
fn a_charge_beyond_every_budget_is_too_large() {
    let mut client = budgets().client().expect("client");
    assert_eq!(
        client.charge(RpcByteCharge { request: false, bytes: 64 * 1024 * 1024 }),
        Err(RpcBudgetError::TooLarge)
    );
    assert_eq!(RpcBudgetError::TooLarge.message(), "RPC allocation exceeds its budget");
    assert_eq!(RpcBudgetError::Busy.message(), "RPC budget is busy");
}
