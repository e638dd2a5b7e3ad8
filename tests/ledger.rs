use lendcore::actor::Actor;
use lendcore::error::Error;
use lendcore::gate::{AuthGate, ReputeStore, Vault};
use lendcore::ledger::{fail_open, Ledger, LoanStatus};
use lendcore::scoring::{Config, Decision, Recommendation};
use lendcore::text::push_decimal;

fn alice() -> Actor {
    Actor::from_bytes(vec![1, 2, 3])
}

fn bob() -> Actor {
    Actor::from_bytes(vec![9])
}

fn approved() -> Recommendation {
    Recommendation { decision: Decision::Approve, score: 100, reasons: vec!["x".into(), "y".into()] }
}

fn open_loan(l: &mut Ledger, who: &Actor, amount: u128) -> u128 {
    l.request_loan(who, amount, Some(approved()), 5).unwrap().loan_id.unwrap()
}

#[test]
fn defaults_to_zero() {
    let me = Actor::from_bytes(candid::Principal::anonymous().as_slice().to_vec());
    let vault = Vault::new(me.duplicate(), None);
    assert_eq!(vault.get_collateral(&me), 0);
}

#[test]
fn end_to_end_approval() {
    let a = alice();
    let mut ledger = Ledger::new();
    ledger.register(&a);
    let admin = bob();
    let mut repute = ReputeStore::new(admin.duplicate(), None);
    repute.set_level(&admin, &a, 60).unwrap();
    let mut vault = Vault::new(admin.duplicate(), None);
    vault.deposit(&admin, &a, 150_000).unwrap();
    let oracle = Config::with_overrides(Some(100_000), Some(50), Some(100));

    assert_eq!(ledger.check_request(&a, 500), Ok(()));
    let (level, collateral) = fail_open(Some(repute.get_level(&a)), Some(vault.get_collateral(&a)));
    let rec = oracle.recommend(&a, collateral, level);
    let d = ledger.request_loan(&a, 500, Some(rec), 42).unwrap();
    assert_eq!(d.decision, Decision::Approve);
    assert_eq!(d.score, 100);
    assert_eq!(d.loan_id, Some(1));
    assert_eq!(d.reasons.len(), 2);

    let s = ledger.get_summary(&a, Some(60), Some(150_000));
    assert!(s.registered);
    assert_eq!(s.level, 60);
    assert_eq!(s.collateral, 150_000);
    assert_eq!(s.loans.len(), 1);
    assert_eq!(s.loans[0].id, 1);
    assert_eq!(s.loans[0].amount, 500);
    assert_eq!(s.loans[0].status, LoanStatus::Active);
    assert_eq!(s.outstanding, 500);

    let r = ledger.repay(&a, 1, 500).unwrap();
    assert_eq!(r.repaid, 500);
    assert_eq!(r.remaining, 0);
    assert_eq!(r.status, LoanStatus::Repaid);
    assert_eq!(r.status.label(), "Repaid");
    assert_eq!(ledger.repay(&a, 1, 1), Err(Error::InvalidState));
    assert_eq!(ledger.get_summary(&a, None, None).outstanding, 0);
}

#[test]
fn unregistered_request_is_refused_without_change() {
    let mut ledger = Ledger::new();
    ledger.register(&bob());
    open_loan(&mut ledger, &bob(), 10);
    assert_eq!(ledger.check_request(&alice(), 500), Err(Error::Unauthorized));
    let r = ledger.request_loan(&alice(), 500, Some(approved()), 1);
    assert!(matches!(r, Err(Error::Unauthorized)));
    assert_eq!(ledger.loan_count(), 1);
    assert_eq!(ledger.next_loan_id(), 2);
}

#[test]
fn zero_amount_request_is_invalid() {
    let mut ledger = Ledger::new();
    ledger.register(&alice());
    assert_eq!(ledger.check_request(&alice(), 0), Err(Error::InvalidArgument));
    let r = ledger.request_loan(&alice(), 0, Some(approved()), 1);
    assert!(matches!(r, Err(Error::InvalidArgument)));
    assert_eq!(ledger.loan_count(), 0);
}

#[test]
fn oracle_failure_is_a_dependency_failure() {
    let mut ledger = Ledger::new();
    ledger.register(&alice());
    let r = ledger.request_loan(&alice(), 10, None, 1);
    assert!(matches!(r, Err(Error::DependencyFailure)));
    assert_eq!(ledger.loan_count(), 0);
    assert_eq!(ledger.next_loan_id(), 1);
}

#[test]
fn vault_timeout_counts_as_no_collateral() {
    let a = alice();
    let mut ledger = Ledger::new();
    ledger.register(&a);
    let (level, collateral) = fail_open(Some(80), None);
    assert_eq!((level, collateral), (80, 0));
    let rec = Config::default().recommend(&a, collateral, level);
    assert_eq!(rec.decision, Decision::Review);
    let d = ledger.request_loan(&a, 10, Some(rec), 1).unwrap();
    assert_eq!(d.decision, Decision::Review);
    assert_eq!(d.loan_id, None);
    assert_eq!(ledger.loan_count(), 0);
    assert_eq!(fail_open(None, None), (0, 0));
}

#[test]
fn ids_count_up_from_one() {
    let mut ledger = Ledger::new();
    ledger.register(&alice());
    ledger.register(&alice());
    ledger.register(&bob());
    assert_eq!(open_loan(&mut ledger, &alice(), 10), 1);
    assert_eq!(open_loan(&mut ledger, &bob(), 20), 2);
    assert_eq!(open_loan(&mut ledger, &alice(), 30), 3);
    let s = ledger.get_summary(&alice(), None, None);
    assert_eq!(s.loans.iter().map(|l| l.id).collect::<Vec<_>>(), vec![1, 3]);
    assert_eq!(s.outstanding, 40);
    assert_eq!(s.level, 0);
    assert_eq!(s.collateral, 0);
    assert!(!ledger.get_summary(&Actor::from_bytes(vec![5]), None, None).registered);
}

#[test]
fn repay_refusals() {
    let mut ledger = Ledger::new();
    ledger.register(&alice());
    open_loan(&mut ledger, &alice(), 100);
    assert_eq!(ledger.repay(&alice(), 1, 0), Err(Error::InvalidArgument));
    assert_eq!(ledger.repay(&alice(), 2, 5), Err(Error::NotFound));
    assert_eq!(ledger.repay(&alice(), 0, 5), Err(Error::NotFound));
    assert_eq!(ledger.repay(&bob(), 1, 5), Err(Error::Unauthorized));
}

#[test]
fn partial_then_over_payment() {
    let mut ledger = Ledger::new();
    ledger.register(&alice());
    open_loan(&mut ledger, &alice(), 100);
    let r = ledger.repay(&alice(), 1, 30).unwrap();
    assert_eq!((r.repaid, r.remaining, r.status), (30, 70, LoanStatus::Active));
    assert_eq!(ledger.get_summary(&alice(), None, None).outstanding, 70);
    let r = ledger.repay(&alice(), 1, 500).unwrap();
    assert_eq!((r.repaid, r.remaining, r.status), (530, 0, LoanStatus::Repaid));
}

#[test]
fn repaid_total_saturates() {
    let mut ledger = Ledger::new();
    ledger.register(&alice());
    open_loan(&mut ledger, &alice(), u128::MAX);
    ledger.repay(&alice(), 1, u128::MAX - 1).unwrap();
    let r = ledger.repay(&alice(), 1, 10).unwrap();
    assert_eq!(r.repaid, u128::MAX);
    assert_eq!(r.status, LoanStatus::Repaid);
}

#[test]
fn gate_admits_admin_and_allowed_only() {
    let gate = AuthGate::new(alice(), Some(bob()));
    assert_eq!(gate.ensure_privileged(&alice()), Ok(()));
    assert_eq!(gate.ensure_privileged(&bob()), Ok(()));
    assert_eq!(gate.ensure_privileged(&Actor::from_bytes(vec![1, 2])), Err(Error::Unauthorized));
}

#[test]
fn deposit_rules() {
    let mut vault = Vault::new(alice(), Some(bob()));
    let c = Actor::from_bytes(vec![3]);
    assert_eq!(vault.deposit(&c, &c, 5), Err(Error::Unauthorized));
    assert_eq!(vault.deposit(&bob(), &c, 0), Err(Error::InvalidArgument));
    assert_eq!(vault.deposit(&bob(), &c, 5), Ok(()));
    assert_eq!(vault.deposit(&alice(), &c, 7), Ok(()));
    assert_eq!(vault.get_collateral(&c), 12);
    assert_eq!(vault.deposit(&alice(), &c, u128::MAX), Err(Error::Overflow));
    assert_eq!(vault.get_collateral(&c), 12);
}

#[test]
fn set_level_rules() {
    let mut repute = ReputeStore::new(alice(), None);
    let c = Actor::from_bytes(vec![3]);
    assert_eq!(repute.set_level(&bob(), &c, 5), Err(Error::Unauthorized));
    assert_eq!(repute.get_level(&c), 0);
    assert_eq!(repute.set_level(&alice(), &c, 5), Ok(()));
    assert_eq!(repute.set_level(&alice(), &c, 3), Ok(()));
    assert_eq!(repute.get_level(&c), 3);
}

#[test]
fn decimal_text() {
    let mut s = String::from("n=");
    push_decimal(&mut s, 0);
    push_decimal(&mut s, 1234567890);
    assert_eq!(s, "n=01234567890");
    let mut t = String::new();
    push_decimal(&mut t, u128::MAX);
    assert_eq!(t, u128::MAX.to_string());
}

#[test]
fn snapshot_round_trip() {
    let mut ledger = Ledger::new();
    ledger.register(&alice());
    ledger.register(&bob());
    open_loan(&mut ledger, &alice(), 100);
    open_loan(&mut ledger, &bob(), 50);
    ledger.repay(&bob(), 2, 50).unwrap();
    let (users, loans) = ledger.snapshot();
    assert_eq!(users.len(), 2);
    assert_eq!(loans.len(), 2);
    assert_eq!(loans[1].status, LoanStatus::Repaid);
    assert_eq!(loans[0].created_at_ns, 5);
    let mut back = Ledger::restore(users, loans).unwrap();
    assert!(back.is_registered(&alice()));
    assert!(back.is_registered(&bob()));
    assert_eq!(back.next_loan_id(), 3);
    assert_eq!(back.get_summary(&alice(), None, None).outstanding, 100);
    assert_eq!(back.repay(&bob(), 2, 1), Err(Error::InvalidState));
    assert_eq!(open_loan(&mut back, &alice(), 7), 3);
}

#[test]
fn restore_refuses_inconsistent_tables() {
    let mut ledger = Ledger::new();
    ledger.register(&alice());
    open_loan(&mut ledger, &alice(), 100);
    let (users, mut loans) = ledger.snapshot();
    loans[0].id = 4;
    assert!(matches!(Ledger::restore(users, loans), Err(Error::InvalidArgument)));
    let (users, mut loans) = ledger.snapshot();
    loans[0].status = LoanStatus::Repaid;
    assert!(matches!(Ledger::restore(users, loans), Err(Error::InvalidArgument)));
    let (users, mut loans) = ledger.snapshot();
    loans[0].amount = 0;
    loans[0].status = LoanStatus::Repaid;
    assert!(matches!(Ledger::restore(users, loans), Err(Error::InvalidArgument)));
}

#[test]
fn rejected_request_opens_no_loan() {
    let mut ledger = Ledger::new();
    ledger.register(&alice());
    let rec = Config::default().recommend(&alice(), 0, 0);
    assert_eq!(rec.decision, Decision::Reject);
    let d = ledger.request_loan(&alice(), 10, Some(rec), 1).unwrap();
    assert_eq!(d.decision, Decision::Reject);
    assert_eq!(d.loan_id, None);
    assert_eq!(ledger.loan_count(), 0);
    assert_eq!(ledger.next_loan_id(), 1);
}

#[test]
fn local_oracle_flow() {
    let a = alice();
    let oracle = Config::default();
    let mut ledger = Ledger::new();
    assert!(matches!(
        ledger.request_loan_local(&oracle, &a, 500, Some(60), Some(150_000), 1),
        Err(Error::Unauthorized)
    ));
    ledger.register(&a);
    assert!(matches!(
        ledger.request_loan_local(&oracle, &a, 0, Some(60), Some(150_000), 1),
        Err(Error::InvalidArgument)
    ));
    let d = ledger.request_loan_local(&oracle, &a, 500, Some(60), Some(150_000), 1).unwrap();
    assert_eq!((d.decision, d.score, d.loan_id), (Decision::Approve, 100, Some(1)));
    let d = ledger.request_loan_local(&oracle, &a, 500, Some(60), None, 1).unwrap();
    assert_eq!((d.decision, d.score, d.loan_id), (Decision::Review, 50, None));
    let d = ledger.request_loan_local(&oracle, &a, 500, None, None, 1).unwrap();
    assert_eq!((d.decision, d.score, d.loan_id), (Decision::Reject, 0, None));
    assert_eq!(ledger.loan_count(), 1);
}
