use sugar_upload::funding::{FundingAction, FundingGate, DELAY_UNTIL_RETRY, MAX_RETRY};
use sugar_upload::task::UploadError;

#[test]
fn a_sufficient_balance_needs_no_transfer() {
    let funding = FundingGate::open(5_000, 5_000);
    assert_eq!(funding, FundingGate::Funded { balance: 5_000 });
    assert_eq!(funding.action(), FundingAction::Proceed);
    assert_eq!(funding.verdict("payer"), Some(Ok(())));
    assert_eq!(FundingGate::open(0, 0).action(), FundingAction::Proceed);
    assert_eq!(FundingGate::open(1, u64::MAX).action(), FundingAction::Proceed);
}

#[test]
fn a_short_balance_asks_for_the_missing_amount() {
    let funding = FundingGate::open(5_000, 1_200);
    assert_eq!(funding, FundingGate::Transfer { required: 5_000, balance: 1_200, amount: 3_800 });
    assert_eq!(funding.action(), FundingAction::SendTransfer(3_800));
    assert_eq!(funding.verdict("payer"), None);
}

#[test]
fn the_balance_after_the_transfer_needs_no_second_transfer() {
    let required = 7_777;
    let balance = 77;
    match FundingGate::open(required, balance) {
        FundingGate::Transfer { amount, .. } => {
            assert_eq!(FundingGate::open(required, balance + amount).action(), FundingAction::Proceed);
        }
        other => panic!("unexpected state {:?}", other),
    }
}

#[test]
fn the_confirmed_transfer_starts_the_polling() {
    let funding = FundingGate::open(100, 40).transfer_confirmed();
    assert_eq!(funding, FundingGate::Polling { required: 100, balance: 40, attempts: 0 });
    assert_eq!(funding.action(), FundingAction::QueryBalance);
    // Confirming again changes nothing, and never asks for another transfer.
    assert_eq!(funding.transfer_confirmed(), funding);
}

#[test]
fn insufficient_balance_through_all_attempts_exhausts_the_budget() {
    let mut funding = FundingGate::open(1_000, 10).transfer_confirmed();
    let mut queries = 0;
    while funding.action() == FundingAction::QueryBalance {
        funding = funding.observe(Some(999));
        queries += 1;
    }
    assert_eq!(queries, 120);
    assert_eq!(queries, MAX_RETRY);
    assert_eq!(funding, FundingGate::Exhausted { required: 1_000, balance: 999 });
    assert_eq!(funding.action(), FundingAction::Fail);
    assert_eq!(
        funding.verdict("9xQeWvG8"),
        Some(Err(UploadError::NoBundlrBalance("9xQeWvG8".to_string())))
    );
    // Later readings do not revive it.
    assert_eq!(funding.observe(Some(5_000)), funding);
}

#[test]
fn the_last_attempt_can_still_fund() {
    let mut funding = FundingGate::open(1_000, 10).transfer_confirmed();
    for _ in 0..119 {
        funding = funding.observe(Some(10));
    }
    assert_eq!(funding, FundingGate::Polling { required: 1_000, balance: 10, attempts: 119 });
    assert_eq!(funding.observe(Some(1_000)), FundingGate::Funded { balance: 1_000 });
    assert_eq!(funding.observe(Some(999)), FundingGate::Exhausted { required: 1_000, balance: 999 });
}

#[test]
fn a_failed_query_counts_but_keeps_the_observed_balance() {
    let funding = FundingGate::open(1_000, 10).transfer_confirmed();
    let funding = funding.observe(Some(600));
    assert_eq!(funding, FundingGate::Polling { required: 1_000, balance: 600, attempts: 1 });
    let funding = funding.observe(None);
    assert_eq!(funding, FundingGate::Polling { required: 1_000, balance: 600, attempts: 2 });
    let funding = funding.observe(Some(1_500));
    assert_eq!(funding, FundingGate::Funded { balance: 1_500 });
    assert_eq!(funding.verdict("payer"), Some(Ok(())));
}

#[test]
fn failed_queries_alone_exhaust_the_budget() {
    let mut funding = FundingGate::open(50, 0).transfer_confirmed();
    for _ in 0..120 {
        funding = funding.observe(None);
    }
    assert_eq!(funding, FundingGate::Exhausted { required: 50, balance: 0 });
}

#[test]
fn readings_before_the_transfer_are_ignored() {
    let funding = FundingGate::open(100, 40);
    assert_eq!(funding.observe(Some(1_000)), funding);
    let funded = FundingGate::open(100, 100);
    assert_eq!(funded.observe(Some(0)), funded);
    assert_eq!(funded.transfer_confirmed(), funded);
}

#[test]
fn the_polling_constants() {
    assert_eq!(MAX_RETRY, 120);
    assert_eq!(DELAY_UNTIL_RETRY, 1000);
}
