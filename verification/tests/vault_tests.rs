use vault_gateway::amount::Amount;
use vault_gateway::errors::VaultError;
use vault_gateway::identity::Identity;
use vault_gateway::vault::{TransferOutcome, Vault, DEFAULT_TOKEN_ID};

fn id(n: u128) -> Identity {
    Identity { id: n }
}

const OWNER: u128 = 10;
const ADMIN: u128 = 11;
const RECEIVER: u128 = 12;
const TOKEN: u128 = 20;
const DEPOSITOR: u128 = 30;
const RECIPIENT: u128 = 31;

fn fresh_vault() -> Vault {
    Vault::init(id(OWNER), id(ADMIN), Some(id(RECEIVER)))
}

fn deposit_ok(v: &mut Vault, caller: Identity, token: Identity, units: u128) -> Result<u128, VaultError> {
    let req = v.deposit_prepare(caller, token, Amount::from_u128(units))?;
    assert_eq!(req.from, caller);
    assert_eq!(req.to, id(RECEIVER));
    assert_eq!(req.token, token);
    v.deposit_commit(
        caller,
        token,
        Amount::from_u128(units),
        String::from("dest"),
        String::from("corr"),
        7_000_000_000,
        TransferOutcome::Completed,
    )
}

fn withdraw_with(
    v: &mut Vault,
    caller: Identity,
    units: u128,
    request_id: &str,
    outcome: TransferOutcome,
) -> Result<u128, VaultError> {
    let rid = String::from(request_id);
    let req = v.withdraw_prepare(caller, Amount::from_u128(units), id(TOKEN), id(RECIPIENT), &rid)?;
    assert_eq!(req.to, id(RECIPIENT));
    v.withdraw_commit(req.amount, req.token, req.to, rid, outcome)
}

#[test]
fn init_seeds_roles_and_default_token() {
    let v = fresh_vault();
    assert_eq!(v.get_owner(), id(OWNER));
    assert_eq!(v.get_admin(), id(ADMIN));
    assert_eq!(v.get_fund_receiver(), id(RECEIVER));
    assert!(v.contains(id(DEFAULT_TOKEN_ID)));
    assert_eq!(v.get_whitelist(), vec![id(DEFAULT_TOKEN_ID)]);
    assert_eq!(v.get_deposit_counter(), 0);
    assert_eq!(v.get_withdraw_counter(), 0);
}

#[test]
fn init_without_receiver_uses_anonymous() {
    let v = Vault::init(id(OWNER), id(ADMIN), None);
    assert_eq!(v.get_fund_receiver(), Identity::anonymous());
}

#[test]
fn change_owner_rules() {
    let mut v = fresh_vault();
    assert_eq!(v.change_owner(id(ADMIN), id(99)), Err(VaultError::Unauthorized));
    assert_eq!(v.get_owner(), id(OWNER));
    assert_eq!(v.change_owner(id(OWNER), id(99)), Ok(()));
    assert_eq!(v.get_owner(), id(99));
    assert_eq!(v.change_owner(id(OWNER), id(OWNER)), Err(VaultError::Unauthorized));
}

#[test]
fn set_admin_and_receiver_are_owner_only() {
    let mut v = fresh_vault();
    assert_eq!(v.set_admin(id(ADMIN), id(42)), Err(VaultError::Unauthorized));
    assert_eq!(v.set_admin(id(OWNER), id(42)), Ok(()));
    assert_eq!(v.get_admin(), id(42));
    assert_eq!(v.set_fund_receiver(id(42), id(43)), Err(VaultError::Unauthorized));
    assert_eq!(v.set_fund_receiver(id(OWNER), id(43)), Ok(()));
    assert_eq!(v.get_fund_receiver(), id(43));
}

#[test]
fn whitelist_add_remove() {
    let mut v = fresh_vault();
    assert_eq!(v.add_token_to_whitelist(id(OWNER), id(TOKEN)), Err(VaultError::Unauthorized));
    assert_eq!(v.add_token_to_whitelist(id(ADMIN), id(TOKEN)), Ok(()));
    assert!(v.contains(id(TOKEN)));
    assert_eq!(
        v.add_token_to_whitelist(id(ADMIN), id(TOKEN)),
        Err(VaultError::AlreadyWhitelisted)
    );
    assert_eq!(
        v.remove_token_from_whitelist(id(ADMIN), id(77)),
        Err(VaultError::NotWhitelisted)
    );
    assert_eq!(v.remove_token_from_whitelist(id(ADMIN), id(TOKEN)), Ok(()));
    assert!(!v.contains(id(TOKEN)));
    assert!(v.contains(id(DEFAULT_TOKEN_ID)));
    assert_eq!(
        v.remove_token_from_whitelist(id(OWNER), id(DEFAULT_TOKEN_ID)),
        Err(VaultError::Unauthorized)
    );
}

#[test]
fn deposit_refused_for_unlisted_token_changes_nothing() {
    let mut v = fresh_vault();
    let r = v.deposit_prepare(id(DEPOSITOR), id(TOKEN), Amount::from_u128(100));
    assert_eq!(r.unwrap_err(), VaultError::TokenNotWhitelisted);
    assert_eq!(v.get_deposit_counter(), 0);
    assert!(v.get_deposit_info_by_nonce(0, 10).is_empty());
}

#[test]
fn successful_deposit_appends_one_record_with_prior_count_as_sequence() {
    let mut v = fresh_vault();
    v.add_token_to_whitelist(id(ADMIN), id(TOKEN)).unwrap();
    let before = v.get_deposit_counter();
    let seq = deposit_ok(&mut v, id(DEPOSITOR), id(TOKEN), 100).unwrap();
    assert_eq!(seq, before);
    assert_eq!(v.get_deposit_counter(), before + 1);
    let seq2 = deposit_ok(&mut v, id(DEPOSITOR), id(TOKEN), 5).unwrap();
    assert_eq!(seq2, 1);
    assert_eq!(v.get_deposit_counter(), 2);
    let page = v.get_deposit_info_by_nonce(0, 10);
    assert_eq!(page.len(), 2);
    assert_eq!(page[0].nonce, 0);
    assert_eq!(page[0].depositor, id(DEPOSITOR));
    assert_eq!(page[0].token, id(TOKEN));
    assert_eq!(page[0].amount, Amount::from_u128(100));
    assert_eq!(page[0].timestamp, 7);
    assert_eq!(page[0].destination, "dest");
    assert_eq!(page[0].deposit_id, "corr");
}

#[test]
fn failed_deposit_transfer_records_nothing() {
    let mut v = fresh_vault();
    v.add_token_to_whitelist(id(ADMIN), id(TOKEN)).unwrap();
    let r = v.deposit_commit(
        id(DEPOSITOR),
        id(TOKEN),
        Amount::from_u128(100),
        String::from("dest"),
        String::from("corr"),
        7_000_000_000,
        TransferOutcome::CallFailed(String::from("no route")),
    );
    assert_eq!(r, Err(VaultError::LedgerCallFailed(String::from("no route"))));
    let r = v.deposit_commit(
        id(DEPOSITOR),
        id(TOKEN),
        Amount::from_u128(100),
        String::from("dest"),
        String::from("corr"),
        7_000_000_000,
        TransferOutcome::Rejected(String::from("InsufficientFunds")),
    );
    assert_eq!(r, Err(VaultError::LedgerRejected(String::from("InsufficientFunds"))));
    assert_eq!(v.get_deposit_counter(), 0);
    assert!(v.get_deposit_info_by_nonce(0, 10).is_empty());
}

#[test]
fn withdraw_by_non_admin_is_unauthorized_and_state_unchanged() {
    let mut v = fresh_vault();
    let r = withdraw_with(&mut v, id(DEPOSITOR), 50, "r1", TransferOutcome::Completed);
    assert_eq!(r, Err(VaultError::Unauthorized));
    let r = withdraw_with(&mut v, id(OWNER), 50, "r1", TransferOutcome::Completed);
    assert_eq!(r, Err(VaultError::Unauthorized));
    assert_eq!(v.get_withdraw_counter(), 0);
    assert!(v.get_withdraw_info_by_nonce(0, 10).is_empty());
    // The id was never consumed, so the admin can still use it.
    let r = withdraw_with(&mut v, id(ADMIN), 50, "r1", TransferOutcome::Completed);
    assert_eq!(r, Ok(0));
}

#[test]
fn withdraw_of_zero_is_invalid() {
    let mut v = fresh_vault();
    let r = withdraw_with(&mut v, id(ADMIN), 0, "r1", TransferOutcome::Completed);
    assert_eq!(r, Err(VaultError::InvalidAmount));
    assert_eq!(v.get_withdraw_counter(), 0);
}

#[test]
fn duplicate_request_id_refused_after_success() {
    let mut v = fresh_vault();
    let r = withdraw_with(&mut v, id(ADMIN), 50, "r1", TransferOutcome::Completed);
    assert_eq!(r, Ok(0));
    assert_eq!(v.get_withdraw_counter(), 1);
    let r = withdraw_with(&mut v, id(ADMIN), 50, "r1", TransferOutcome::Completed);
    assert_eq!(r, Err(VaultError::DuplicateRequest));
    assert_eq!(v.get_withdraw_counter(), 1);
    // A different id still goes through.
    let r = withdraw_with(&mut v, id(ADMIN), 50, "r2", TransferOutcome::Completed);
    assert_eq!(r, Ok(1));
}

#[test]
fn failed_withdraw_leaves_request_id_retryable() {
    let mut v = fresh_vault();
    let r = withdraw_with(&mut v, id(ADMIN), 50, "r1", TransferOutcome::Rejected(String::from("BadFee")));
    assert_eq!(r, Err(VaultError::LedgerRejected(String::from("BadFee"))));
    assert_eq!(v.get_withdraw_counter(), 0);
    assert!(v.get_withdraw_info_by_nonce(0, 10).is_empty());
    let r = withdraw_with(&mut v, id(ADMIN), 50, "r1", TransferOutcome::CallFailed(String::from("timeout")));
    assert_eq!(r, Err(VaultError::LedgerCallFailed(String::from("timeout"))));
    assert_eq!(v.get_withdraw_counter(), 0);
    // The retry with the same id and a completing transfer goes through.
    let r = withdraw_with(&mut v, id(ADMIN), 50, "r1", TransferOutcome::Completed);
    assert_eq!(r, Ok(0));
    assert_eq!(v.get_withdraw_counter(), 1);
    let page = v.get_withdraw_info_by_nonce(0, 10);
    assert_eq!(page.len(), 1);
    assert_eq!(page[0].nonce, 0);
    assert_eq!(page[0].recipient, id(RECIPIENT));
    assert_eq!(page[0].amount, Amount::from_u128(50));
    assert_eq!(page[0].timestamp, 0);
}

#[test]
fn deposit_pages_are_ordered_bounded_and_stable() {
    let mut v = fresh_vault();
    v.add_token_to_whitelist(id(ADMIN), id(TOKEN)).unwrap();
    for units in [10, 20, 30] {
        deposit_ok(&mut v, id(DEPOSITOR), id(TOKEN), units).unwrap();
    }
    let page = v.get_deposit_info_by_nonce(1, 5);
    assert_eq!(page.len(), 2);
    assert!(page[0].nonce <= page[1].nonce);
    assert_eq!(page[0].nonce, 1);
    assert_eq!(page[1].nonce, 2);
    let limited = v.get_deposit_info_by_nonce(0, 2);
    assert_eq!(limited.len(), 2);
    assert_eq!(v.get_deposit_info_by_nonce(3, 5).len(), 0);
    assert_eq!(v.get_deposit_info_by_nonce(u128::MAX, 5).len(), 0);
    assert_eq!(v.get_deposit_info_by_nonce(0, 0).len(), 0);
    // Unchanged state repeats the page verbatim.
    let again = v.get_deposit_info_by_nonce(1, 5);
    assert_eq!(again.len(), page.len());
    for (a, b) in page.iter().zip(again.iter()) {
        assert_eq!(a.nonce, b.nonce);
        assert_eq!(a.amount, b.amount);
        assert_eq!(a.destination, b.destination);
        assert_eq!(a.deposit_id, b.deposit_id);
    }
}

#[test]
fn whitelist_staleness_is_accepted_at_deposit_commit() {
    // The whitelist is checked only at prepare time; a token removed while
    // the transfer is in flight still gets its deposit recorded.
    let mut v = fresh_vault();
    v.add_token_to_whitelist(id(ADMIN), id(TOKEN)).unwrap();
    let _req = v
        .deposit_prepare(id(DEPOSITOR), id(TOKEN), Amount::from_u128(100))
        .unwrap();
    v.remove_token_from_whitelist(id(ADMIN), id(TOKEN)).unwrap();
    let seq = v.deposit_commit(
        id(DEPOSITOR),
        id(TOKEN),
        Amount::from_u128(100),
        String::from("dest"),
        String::from("corr"),
        7_000_000_000,
        TransferOutcome::Completed,
    );
    assert_eq!(seq, Ok(0));
    assert_eq!(v.get_deposit_counter(), 1);
}

#[test]
fn in_flight_withdrawals_with_one_id_can_both_commit() {
    // The replay guard is written only at commit time: two withdrawals
    // with one request id, both prepared before either transfer resolves,
    // both pass the checks and both get recorded. This is the documented
    // hazard of the design, not a guarantee to rely on.
    let mut v = fresh_vault();
    let rid = String::from("r1");
    let first = v
        .withdraw_prepare(id(ADMIN), Amount::from_u128(50), id(TOKEN), id(RECIPIENT), &rid)
        .unwrap();
    let second = v
        .withdraw_prepare(id(ADMIN), Amount::from_u128(50), id(TOKEN), id(RECIPIENT), &rid)
        .unwrap();
    let r = v.withdraw_commit(first.amount, first.token, first.to, rid.clone(), TransferOutcome::Completed);
    assert_eq!(r, Ok(0));
    let r = v.withdraw_commit(second.amount, second.token, second.to, rid.clone(), TransferOutcome::Completed);
    assert_eq!(r, Ok(1));
    assert_eq!(v.get_withdraw_counter(), 2);
    // Only afterwards is the id refused.
    let r = v.withdraw_prepare(id(ADMIN), Amount::from_u128(50), id(TOKEN), id(RECIPIENT), &rid);
    assert_eq!(r.unwrap_err(), VaultError::DuplicateRequest);
}

#[test]
fn full_session_scenario() {
    let mut v = Vault::init(id(OWNER), id(ADMIN), Some(id(RECEIVER)));
    assert_eq!(v.add_token_to_whitelist(id(ADMIN), id(TOKEN)), Ok(()));
    assert_eq!(
        v.add_token_to_whitelist(id(ADMIN), id(TOKEN)),
        Err(VaultError::AlreadyWhitelisted)
    );
    let seq = deposit_ok(&mut v, id(DEPOSITOR), id(TOKEN), 100).unwrap();
    assert_eq!(seq, 0);
    assert_eq!(v.get_deposit_counter(), 1);
    let seq = withdraw_with(&mut v, id(ADMIN), 50, "r1", TransferOutcome::Completed).unwrap();
    assert_eq!(seq, 0);
    assert_eq!(v.get_withdraw_counter(), 1);
    assert_eq!(
        withdraw_with(&mut v, id(ADMIN), 50, "r1", TransferOutcome::Completed),
        Err(VaultError::DuplicateRequest)
    );
}
