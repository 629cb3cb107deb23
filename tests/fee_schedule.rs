use jcli_lib::{CertificateKind, CommonFees, LinearFee};

fn fees(constant: u64, coefficient: u64, certificate: u64) -> CommonFees {
    CommonFees {
        constant,
        coefficient,
        certificate,
        certificate_pool_registration: None,
        certificate_stake_delegation: None,
        certificate_owner_stake_delegation: None,
        certificate_vote_plan: None,
        certificate_vote_cast: None,
    }
}

#[test]
fn linear_fee_drops_zero_overrides() {
    let mut f = fees(1, 2, 3);
    f.certificate_pool_registration = Some(0);
    f.certificate_stake_delegation = Some(7);
    f.certificate_vote_cast = Some(9);
    let l = f.linear_fee();
    assert_eq!(l.constant, 1);
    assert_eq!(l.coefficient, 2);
    assert_eq!(l.certificate, 3);
    assert_eq!(l.pool_registration, None);
    assert_eq!(l.stake_delegation, Some(7));
    assert_eq!(l.owner_stake_delegation, None);
    assert_eq!(l.vote_plan, None);
    assert_eq!(l.vote_cast, Some(9));
}

#[test]
fn fee_formula_without_certificate() {
    let l = fees(10, 3, 100).linear_fee();
    assert_eq!(l.calculate(None, 2, 3), Some(10 + 3 * 5));
}

#[test]
fn certificate_override_and_fallback() {
    let mut f = fees(0, 0, 50);
    f.certificate_stake_delegation = Some(20);
    f.certificate_vote_plan = Some(0);
    let l = f.linear_fee();
    assert_eq!(l.calculate(Some(CertificateKind::StakeDelegation), 1, 1), Some(20));
    assert_eq!(l.calculate(Some(CertificateKind::VotePlan), 1, 1), Some(50));
    assert_eq!(l.calculate(Some(CertificateKind::PoolRegistration), 1, 1), Some(50));
    assert_eq!(l.calculate(Some(CertificateKind::Other), 0, 0), Some(50));
    assert_eq!(l.certificate_fee(None), 0);
}

#[test]
fn fee_overflow_is_reported() {
    let l = fees(u64::MAX, 1, 0).linear_fee();
    assert_eq!(l.calculate(None, 0, 0), Some(u64::MAX));
    assert_eq!(l.calculate(None, 1, 0), None);
    let l2 = LinearFee {
        constant: 0,
        coefficient: u64::MAX,
        certificate: 0,
        pool_registration: None,
        stake_delegation: None,
        owner_stake_delegation: None,
        vote_plan: None,
        vote_cast: None,
    };
    assert_eq!(l2.calculate(None, 1, 1), None);
    assert_eq!(l2.calculate(None, 1, 0), Some(u64::MAX));
}
