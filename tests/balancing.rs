use jcli_lib::{balance, BalanceError, ChangePolicy, CommonFees, Input, LinearFee, Output, TransactionDraft};

fn schedule(constant: u64, coefficient: u64) -> LinearFee {
    CommonFees {
        constant,
        coefficient,
        certificate: 0,
        certificate_pool_registration: None,
        certificate_stake_delegation: None,
        certificate_owner_stake_delegation: None,
        certificate_vote_plan: None,
        certificate_vote_cast: None,
    }
    .linear_fee()
}

fn draft(inputs: &[u64], outputs: &[u64]) -> TransactionDraft {
    TransactionDraft {
        inputs: inputs.iter().map(|v| Input { source: vec![1, 2], value: *v }).collect(),
        outputs: outputs.iter().map(|v| Output { address: vec![9], value: *v }).collect(),
        certificate: None,
    }
}

fn total_out(tx: &TransactionDraft) -> u64 {
    tx.outputs.iter().map(|o| o.value).sum()
}

#[test]
fn return_to_adds_change_after_counting_it() {
    let mut tx = draft(&[600, 400], &[500]);
    let r = balance(&mut tx, &schedule(0, 1), ChangePolicy::ReturnTo(vec![0xaa, 0xbb])).unwrap();
    assert_eq!(r.fee, 4);
    assert_eq!(tx.outputs.len(), 2);
    assert_eq!(tx.outputs[1].address, vec![0xaa, 0xbb]);
    assert_eq!(tx.outputs[1].value, 496);
    assert_eq!(tx.outputs[0].value, 500);
}

#[test]
fn discard_leaves_surplus_to_fee() {
    let mut tx = draft(&[600, 400], &[500]);
    let r = balance(&mut tx, &schedule(0, 1), ChangePolicy::Discard).unwrap();
    assert_eq!(r.fee, 500);
    assert_eq!(tx.outputs.len(), 1);
}

#[test]
fn value_is_conserved() {
    for policy in [ChangePolicy::Discard, ChangePolicy::ReturnTo(vec![3])] {
        let mut tx = draft(&[1000, 2000, 7], &[100, 200]);
        let r = balance(&mut tx, &schedule(5, 2), policy).unwrap();
        assert_eq!(3007, total_out(&tx) + r.fee);
    }
}

#[test]
fn return_to_pays_exact_fee() {
    let mut tx = draft(&[1000], &[100]);
    let r = balance(&mut tx, &schedule(5, 2), ChangePolicy::ReturnTo(vec![3])).unwrap();
    // fee = 5 + 2 * (1 + 1 + 1)
    assert_eq!(r.fee, 11);
    assert_eq!(tx.outputs[1].value, 1000 - 100 - 11);
}

#[test]
fn exact_balance_adds_no_change() {
    // fee = 1 * (1 + 1 + 1), counting the candidate change output
    let mut tx = draft(&[503], &[500]);
    let r = balance(&mut tx, &schedule(0, 1), ChangePolicy::ReturnTo(vec![3])).unwrap();
    assert_eq!(r.fee, 3);
    assert_eq!(tx.outputs.len(), 1);
}

#[test]
fn insufficient_funds_leaves_draft_unchanged() {
    let mut tx = draft(&[502], &[500]);
    let r = balance(&mut tx, &schedule(0, 1), ChangePolicy::ReturnTo(vec![3]));
    assert_eq!(r, Err(BalanceError::InsufficientFunds));
    assert_eq!(tx.outputs.len(), 1);
    assert_eq!(tx.outputs[0].value, 500);
    assert_eq!(tx.inputs.len(), 1);
    let mut tx2 = draft(&[10], &[]);
    assert_eq!(balance(&mut tx2, &schedule(11, 0), ChangePolicy::Discard), Err(BalanceError::InsufficientFunds));
}

#[test]
fn output_total_overflow_is_insufficient() {
    let mut tx = draft(&[5], &[u64::MAX, 1]);
    assert_eq!(balance(&mut tx, &schedule(0, 0), ChangePolicy::Discard), Err(BalanceError::InsufficientFunds));
}

#[test]
fn input_total_overflow_is_reported() {
    let mut tx = draft(&[u64::MAX, 1], &[]);
    assert_eq!(balance(&mut tx, &schedule(0, 0), ChangePolicy::Discard), Err(BalanceError::InputTotalOverflow));
    assert_eq!(tx.outputs.len(), 0);
}

#[test]
fn empty_draft_with_zero_fee_balances() {
    let mut tx = draft(&[], &[]);
    let r = balance(&mut tx, &schedule(0, 0), ChangePolicy::ReturnTo(vec![1])).unwrap();
    assert_eq!(r.fee, 0);
    assert!(tx.outputs.is_empty());
}

#[test]
fn change_policy_from_optional_address() {
    assert!(matches!(ChangePolicy::from_change(None), ChangePolicy::Discard));
    match ChangePolicy::from_change(Some(vec![4, 5])) {
        ChangePolicy::ReturnTo(a) => assert_eq!(a, vec![4, 5]),
        ChangePolicy::Discard => panic!("expected a change address"),
    }
}

#[test]
fn total_fee_of_a_draft_with_certificate() {
    let mut fees = CommonFees {
        constant: 2,
        coefficient: 3,
        certificate: 10,
        certificate_pool_registration: Some(40),
        certificate_stake_delegation: None,
        certificate_owner_stake_delegation: None,
        certificate_vote_plan: None,
        certificate_vote_cast: None,
    };
    let mut tx = draft(&[1, 2], &[3]);
    assert_eq!(fees.linear_fee().total_fee(&tx), Some(2 + 3 * 3));
    tx.certificate = Some(jcli_lib::CertificateKind::PoolRegistration);
    assert_eq!(fees.linear_fee().total_fee(&tx), Some(2 + 3 * 3 + 40));
    fees.certificate_pool_registration = Some(0);
    assert_eq!(fees.linear_fee().total_fee(&tx), Some(2 + 3 * 3 + 10));
}

#[test]
fn finalize_with_and_without_change_address() {
    let fees = CommonFees {
        constant: 0,
        coefficient: 1,
        certificate: 0,
        certificate_pool_registration: None,
        certificate_stake_delegation: None,
        certificate_owner_stake_delegation: None,
        certificate_vote_plan: None,
        certificate_vote_cast: None,
    };
    let mut tx = draft(&[600, 400], &[500]);
    let r = jcli_lib::finalize(&mut tx, &fees, Some(vec![0xcc])).unwrap();
    assert_eq!(r.fee, 4);
    assert_eq!(tx.outputs.len(), 2);
    assert_eq!(tx.outputs[1].address, vec![0xcc]);
    assert_eq!(tx.outputs[1].value, 496);
    let mut tx2 = draft(&[600, 400], &[500]);
    let r2 = jcli_lib::finalize(&mut tx2, &fees, None).unwrap();
    assert_eq!(r2.fee, 500);
    assert_eq!(tx2.outputs.len(), 1);
    // fee = 1 * (1 + 1) = 2, but only 1 is left over
    let mut tx3 = draft(&[502], &[501]);
    assert_eq!(jcli_lib::finalize(&mut tx3, &fees, None), Err(BalanceError::InsufficientFunds));
    assert_eq!(tx3.outputs.len(), 1);
}
