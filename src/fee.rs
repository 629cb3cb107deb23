//! The linear fee schedule and its per-certificate overrides.
use vstd::prelude::*;

verus! {

/// The kind of certificate a transaction may carry, as far as fees are concerned.
#[derive(Clone, Copy, Debug, PartialEq, Eq, Structural)]
pub enum CertificateKind {
    PoolRegistration,
    StakeDelegation,
    OwnerStakeDelegation,
    VotePlan,
    VoteCast,
    /// Any other certificate: always charged the default certificate fee.
    Other,
}

/// Fee settings as given on the command line. An override that is absent or
/// zero means "use the default certificate fee".
#[derive(Clone, Copy, Debug)]
pub struct CommonFees {
    /// fee per transaction
    pub constant: u64,
    /// fee per every input and output
    pub coefficient: u64,
    /// fee per certificate
    pub certificate: u64,
    /// fee per pool registration (default: certificate)
    pub certificate_pool_registration: Option<u64>,
    /// fee per stake delegation (default: certificate)
    pub certificate_stake_delegation: Option<u64>,
    /// fee per owner stake delegation (default: certificate)
    pub certificate_owner_stake_delegation: Option<u64>,
    /// fee per vote plan (default: certificate)
    pub certificate_vote_plan: Option<u64>,
    /// fee per vote cast (default: certificate)
    pub certificate_vote_cast: Option<u64>,
}

/// The linear fee schedule: `constant + coefficient * (inputs + outputs) + certificate fee`.
/// Overrides are kept only when non-zero.
#[derive(Clone, Copy, Debug)]
pub struct LinearFee {
    pub constant: u64,
    pub coefficient: u64,
    pub certificate: u64,
    pub pool_registration: Option<u64>,
    pub stake_delegation: Option<u64>,
    pub owner_stake_delegation: Option<u64>,
    pub vote_plan: Option<u64>,
    pub vote_cast: Option<u64>,
}

/// A configured override counts only when it is present and non-zero.
pub open spec fn non_zero(o: Option<u64>) -> Option<u64> {
    match o {
        Some(v) => if v == 0 { None } else { Some(v) },
        None => None,
    }
}

fn non_zero_exec(o: Option<u64>) -> (r: Option<u64>)
    ensures
        r == non_zero(o),
{
    match o {
        Some(v) => if v == 0 { None } else { Some(v) },
        None => None,
    }
}

impl CommonFees {
    /// The fee schedule these settings describe.
    pub open spec fn spec_linear_fee(&self) -> LinearFee {
        LinearFee {
            constant: self.constant,
            coefficient: self.coefficient,
            certificate: self.certificate,
            pool_registration: non_zero(self.certificate_pool_registration),
            stake_delegation: non_zero(self.certificate_stake_delegation),
            owner_stake_delegation: non_zero(self.certificate_owner_stake_delegation),
            vote_plan: non_zero(self.certificate_vote_plan),
            vote_cast: non_zero(self.certificate_vote_cast),
        }
    }

    /// Builds the fee schedule, dropping overrides that are zero.
    pub fn linear_fee(&self) -> (r: LinearFee)
        ensures
            r == self.spec_linear_fee(),
            r.wf(),
    {
        LinearFee {
            constant: self.constant,
            coefficient: self.coefficient,
            certificate: self.certificate,
            pool_registration: non_zero_exec(self.certificate_pool_registration),
            stake_delegation: non_zero_exec(self.certificate_stake_delegation),
            owner_stake_delegation: non_zero_exec(self.certificate_owner_stake_delegation),
            vote_plan: non_zero_exec(self.certificate_vote_plan),
            vote_cast: non_zero_exec(self.certificate_vote_cast),
        }
    }
}

impl LinearFee {
    /// Every override that is present is non-zero.
    pub open spec fn wf(&self) -> bool {
        &&& non_zero(self.pool_registration) == self.pool_registration
        &&& non_zero(self.stake_delegation) == self.stake_delegation
        &&& non_zero(self.owner_stake_delegation) == self.owner_stake_delegation
        &&& non_zero(self.vote_plan) == self.vote_plan
        &&& non_zero(self.vote_cast) == self.vote_cast
    }

    pub open spec fn override_for(&self, kind: CertificateKind) -> Option<u64> {
        match kind {
            CertificateKind::PoolRegistration => self.pool_registration,
            CertificateKind::StakeDelegation => self.stake_delegation,
            CertificateKind::OwnerStakeDelegation => self.owner_stake_delegation,
            CertificateKind::VotePlan => self.vote_plan,
            CertificateKind::VoteCast => self.vote_cast,
            CertificateKind::Other => None,
        }
    }

    /// The fee charged for carrying a certificate (zero without one).
    pub open spec fn spec_certificate_fee(&self, cert: Option<CertificateKind>) -> nat {
        match cert {
            None => 0,
            Some(kind) => match non_zero(self.override_for(kind)) {
                Some(v) => v as nat,
                None => self.certificate as nat,
            },
        }
    }

    /// The total fee of a transaction of the given shape, as a mathematical integer.
    pub open spec fn spec_fee(&self, cert: Option<CertificateKind>, inputs: nat, outputs: nat) -> nat {
        (self.constant + self.coefficient * (inputs + outputs) + self.spec_certificate_fee(cert)) as nat
    }

    /// The fee charged for carrying the given certificate, if any.
    pub fn certificate_fee(&self, cert: Option<CertificateKind>) -> (r: u64)
        ensures
            r == self.spec_certificate_fee(cert),
    {
        match cert {
            None => 0,
            Some(kind) => {
                let o = match kind {
                    CertificateKind::PoolRegistration => self.pool_registration,
                    CertificateKind::StakeDelegation => self.stake_delegation,
                    CertificateKind::OwnerStakeDelegation => self.owner_stake_delegation,
                    CertificateKind::VotePlan => self.vote_plan,
                    CertificateKind::VoteCast => self.vote_cast,
                    CertificateKind::Other => None,
                };
                match non_zero_exec(o) {
                    Some(v) => v,
                    None => self.certificate,
                }
            },
        }
    }

    /// Computes the fee of a transaction with `inputs` inputs, `outputs` outputs and
    /// the given certificate; `None` when the fee does not fit in a `u64`.
    pub fn calculate(&self, cert: Option<CertificateKind>, inputs: usize, outputs: usize) -> (r:
        Option<u64>)
        ensures
            match r {
                Some(v) => v == self.spec_fee(cert, inputs as nat, outputs as nat),
                None => self.spec_fee(cert, inputs as nat, outputs as nat) > u64::MAX,
            },
    {
        self.fee_for_items(cert, inputs as u128 + outputs as u128)
    }

    /// The fee for `count` inputs and outputs together.
    pub(crate) fn fee_for_items(&self, cert: Option<CertificateKind>, count: u128) -> (r: Option<u64>)
        ensures
            forall|inputs: nat, outputs: nat| #![trigger self.spec_fee(cert, inputs, outputs)]
                inputs + outputs == count ==> match r {
                    Some(v) => v == self.spec_fee(cert, inputs, outputs),
                    None => self.spec_fee(cert, inputs, outputs) > u64::MAX,
                },
    {
        if count > u64::MAX as u128 {
            if self.coefficient == 0 {
                let cert_fee = self.certificate_fee(cert);
                return self.constant.checked_add(cert_fee);
            }
            assert forall|inputs: nat, outputs: nat| inputs + outputs == count implies
                #[trigger] self.spec_fee(cert, inputs, outputs) > u64::MAX by {
                assert(self.coefficient * (inputs + outputs) >= inputs + outputs) by (nonlinear_arith)
                    requires
                        self.coefficient >= 1,
                ;
            }
            return None;
        }
        let per_item = match self.coefficient.checked_mul(count as u64) {
            Some(v) => v,
            None => return None,
        };
        let with_constant = match self.constant.checked_add(per_item) {
            Some(v) => v,
            None => return None,
        };
        with_constant.checked_add(self.certificate_fee(cert))
    }
}

} // verus!
