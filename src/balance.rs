//! Draft transactions and their balancing against a fee schedule.
use vstd::prelude::*;
use crate::fee::{CertificateKind, CommonFees, LinearFee};

verus! {

/// An input of a draft transaction: the spent source and the value it brings.
#[derive(Clone, Debug)]
pub struct Input {
    pub source: Vec<u8>,
    pub value: u64,
}

/// An output of a draft transaction: the address paid and the value paid to it.
#[derive(Clone, Debug)]
pub struct Output {
    pub address: Vec<u8>,
    pub value: u64,
}

/// A transaction being built: inputs, outputs and an optional certificate.
#[derive(Clone, Debug)]
pub struct TransactionDraft {
    pub inputs: Vec<Input>,
    pub outputs: Vec<Output>,
    pub certificate: Option<CertificateKind>,
}

/// What to do with the value that inputs bring beyond outputs and fee.
#[derive(Clone, Debug)]
pub enum ChangePolicy {
    /// The surplus is left to the fee.
    Discard,
    /// The surplus is paid back to this address in one new output.
    ReturnTo(Vec<u8>),
}

/// The outcome of a successful balancing.
#[derive(Clone, Copy, Debug, PartialEq, Eq, Structural)]
pub struct BalanceReport {
    /// The fee actually paid: total input value minus total output value.
    pub fee: u64,
}

#[derive(Clone, Copy, Debug, PartialEq, Eq, Structural)]
pub enum BalanceError {
    /// The input values add up to more than a `u64` can hold.
    InputTotalOverflow,
    /// The inputs do not cover the outputs plus the fee.
    InsufficientFunds,
}

pub open spec fn sum_values(s: Seq<u64>) -> int
    decreases s.len(),
{
    if s.len() == 0 {
        0
    } else {
        sum_values(s.drop_last()) + s.last()
    }
}

pub open spec fn input_values(s: Seq<Input>) -> Seq<u64> {
    s.map_values(|i: Input| i.value)
}

pub open spec fn output_values(s: Seq<Output>) -> Seq<u64> {
    s.map_values(|o: Output| o.value)
}

/// An output as a mathematical value: address bytes and amount.
pub open spec fn output_view(o: Output) -> (Seq<u8>, u64) {
    (o.address@, o.value)
}

pub open spec fn outputs_view(s: Seq<Output>) -> Seq<(Seq<u8>, u64)> {
    s.map_values(|o: Output| output_view(o))
}

pub open spec fn inputs_view(s: Seq<Input>) -> Seq<(Seq<u8>, u64)> {
    s.map_values(|i: Input| (i.source@, i.value))
}

impl TransactionDraft {
    pub open spec fn total_in(&self) -> int {
        sum_values(input_values(self.inputs@))
    }

    pub open spec fn total_out(&self) -> int {
        sum_values(output_values(self.outputs@))
    }
}

impl ChangePolicy {
    /// How many outputs the policy may add: the candidate change output is counted
    /// in the fee whenever change may be returned.
    pub open spec fn extra_outputs(&self) -> nat {
        match self {
            ChangePolicy::Discard => 0,
            ChangePolicy::ReturnTo(_) => 1,
        }
    }
}

impl ChangePolicy {
    pub open spec fn spec_from_change(change: Option<Vec<u8>>) -> ChangePolicy {
        match change {
            None => ChangePolicy::Discard,
            Some(addr) => ChangePolicy::ReturnTo(addr),
        }
    }

    /// The policy for an optional change address: none means the surplus is left
    /// to the fee.
    pub fn from_change(change: Option<Vec<u8>>) -> (r: ChangePolicy)
        ensures
            r == ChangePolicy::spec_from_change(change),
    {
        match change {
            None => ChangePolicy::Discard,
            Some(addr) => ChangePolicy::ReturnTo(addr),
        }
    }
}

impl LinearFee {
    /// The fee that the schedule asks of the draft as it stands; `None` when it
    /// does not fit in a `u64`.
    pub fn total_fee(&self, tx: &TransactionDraft) -> (r: Option<u64>)
        ensures
            match r {
                Some(v) => v == self.spec_fee(tx.certificate, tx.inputs@.len(), tx.outputs@.len()),
                None => self.spec_fee(tx.certificate, tx.inputs@.len(), tx.outputs@.len())
                    > u64::MAX,
            },
    {
        self.calculate(tx.certificate, tx.inputs.len(), tx.outputs.len())
    }
}

/// The fee that the schedule asks of `tx` under `policy`.
pub open spec fn required_fee(tx: TransactionDraft, fees: LinearFee, policy: ChangePolicy) -> int {
    fees.spec_fee(
        tx.certificate,
        tx.inputs@.len(),
        tx.outputs@.len() + policy.extra_outputs(),
    ) as int
}

proof fn lemma_prefix_sum_le(s: Seq<u64>, i: int)
    requires
        0 <= i <= s.len(),
    ensures
        sum_values(s.take(i)) <= sum_values(s),
    decreases s.len() - i,
{
    if i < s.len() {
        lemma_prefix_sum_le(s, i + 1);
        assert(s.take(i + 1).drop_last() =~= s.take(i));
    } else {
        assert(s.take(i) =~= s);
    }
}

proof fn lemma_sum_push(s: Seq<u64>, v: u64)
    ensures
        sum_values(s.push(v)) == sum_values(s) + v,
{
    assert(s.push(v).drop_last() =~= s);
}

/// The sum of the values in `s`, or `None` when it exceeds `u64::MAX`.
fn checked_sum_inputs(s: &Vec<Input>) -> (r: Option<u64>)
    ensures
        match r {
            Some(v) => v == sum_values(input_values(s@)),
            None => sum_values(input_values(s@)) > u64::MAX,
        },
{
    let ghost vals = input_values(s@);
    let mut acc: u64 = 0;
    let mut i: usize = 0;
    while i < s.len()
        invariant
            i <= s.len(),
            vals == input_values(s@),
            acc == sum_values(vals.take(i as int)),
        decreases s.len() - i,
    {
        proof {
            assert(vals.take(i + 1).drop_last() =~= vals.take(i as int));
        }
        match acc.checked_add(s[i].value) {
            Some(v) => acc = v,
            None => {
                proof {
                    lemma_prefix_sum_le(vals, i + 1);
                }
                return None;
            },
        }
        i = i + 1;
    }
    proof {
        assert(vals.take(i as int) =~= vals);
    }
    Some(acc)
}

/// The sum of the values in `s`, or `None` when it exceeds `u64::MAX`.
fn checked_sum_outputs(s: &Vec<Output>) -> (r: Option<u64>)
    ensures
        match r {
            Some(v) => v == sum_values(output_values(s@)),
            None => sum_values(output_values(s@)) > u64::MAX,
        },
{
    let ghost vals = output_values(s@);
    let mut acc: u64 = 0;
    let mut i: usize = 0;
    while i < s.len()
        invariant
            i <= s.len(),
            vals == output_values(s@),
            acc == sum_values(vals.take(i as int)),
        decreases s.len() - i,
    {
        proof {
            assert(vals.take(i + 1).drop_last() =~= vals.take(i as int));
        }
        match acc.checked_add(s[i].value) {
            Some(v) => acc = v,
            None => {
                proof {
                    lemma_prefix_sum_le(vals, i + 1);
                }
                return None;
            },
        }
        i = i + 1;
    }
    proof {
        assert(vals.take(i as int) =~= vals);
    }
    Some(acc)
}

/// What balancing guarantees, from the draft `before` to the draft `after`, for the
/// schedule `fees`, the policy `policy` and the result `r`.
pub open spec fn balanced(
    before: TransactionDraft,
    after: TransactionDraft,
    fees: LinearFee,
    policy: ChangePolicy,
    r: Result<BalanceReport, BalanceError>,
) -> bool {
    &&& (after.inputs@ == before.inputs@)
    &&& (after.certificate == before.certificate)
    &&& (before.total_in() > u64::MAX <==> r == Err::<BalanceReport, BalanceError>(
        BalanceError::InputTotalOverflow,
    ))
    &&& (before.total_in() <= u64::MAX && before.total_in() < before.total_out() + required_fee(
        before,
        fees,
        policy,
    ) <==> r == Err::<BalanceReport, BalanceError>(BalanceError::InsufficientFunds))
    &&& (r is Err ==> after == before)
    // discarding never adds an output
    &&& (policy is Discard ==> after.outputs@ == before.outputs@)
    // inputs that fit a u64 and cover outputs and fee always balance
    &&& (before.total_in() <= u64::MAX && before.total_in() >= before.total_out() + required_fee(
        before,
        fees,
        policy,
    ) ==> r is Ok)
    // value is conserved
    &&& (r matches Ok(rep) ==> after.total_in() == after.total_out() + rep.fee)
    // the surplus goes to a change output exactly when change is returned and there is some
    &&& (r matches Ok(rep) ==> match policy {
        ChangePolicy::ReturnTo(addr) => if before.total_in() > before.total_out()
            + required_fee(before, fees, policy) {
            &&& after.outputs@ == before.outputs@.push(
                Output {
                    address: addr,
                    value: (before.total_in() - before.total_out() - required_fee(
                        before,
                        fees,
                        policy,
                    )) as u64,
                },
            )
            &&& rep.fee == required_fee(before, fees, policy)
        } else {
            &&& after.outputs@ == before.outputs@
            &&& rep.fee == before.total_in() - before.total_out()
        },
        ChangePolicy::Discard => {
            &&& after.outputs@ == before.outputs@
            &&& rep.fee == before.total_in() - before.total_out()
        },
    })
}

/// Balances `tx` against the fee schedule: fails when the inputs cannot pay the
/// outputs and the fee, else either leaves the surplus to the fee (`Discard`, or
/// no surplus) or pays it back in one new output (`ReturnTo`). With `ReturnTo`,
/// the fee counts the candidate change output. On failure `tx` is left as it was.
pub fn balance(tx: &mut TransactionDraft, fees: &LinearFee, policy: ChangePolicy) -> (r: Result<
    BalanceReport,
    BalanceError,
>)
    ensures
        balanced(*old(tx), *final(tx), *fees, policy, r),
{
    let total_in = match checked_sum_inputs(&tx.inputs) {
        Some(v) => v,
        None => return Err(BalanceError::InputTotalOverflow),
    };
    let total_out = match checked_sum_outputs(&tx.outputs) {
        Some(v) => v,
        None => return Err(BalanceError::InsufficientFunds),
    };
    let extra: usize = match policy {
        ChangePolicy::Discard => 0,
        ChangePolicy::ReturnTo(_) => 1,
    };
    let count: u128 = tx.inputs.len() as u128 + tx.outputs.len() as u128 + extra as u128;
    let fee = match fees.fee_for_items(tx.certificate, count) {
        Some(v) => v,
        None => return Err(BalanceError::InsufficientFunds),
    };
    if total_out > total_in || fee > total_in - total_out {
        return Err(BalanceError::InsufficientFunds);
    }
    let surplus = total_in - total_out - fee;
    match policy {
        ChangePolicy::ReturnTo(addr) => {
            if surplus > 0 {
                let ghost old_outputs = output_values(tx.outputs@);
                tx.outputs.push(Output { address: addr, value: surplus });
                proof {
                    assert(output_values(tx.outputs@) =~= old_outputs.push(surplus));
                    lemma_sum_push(old_outputs, surplus);
                }
                Ok(BalanceReport { fee })
            } else {
                Ok(BalanceReport { fee: total_in - total_out })
            }
        },
        ChangePolicy::Discard => Ok(BalanceReport { fee: total_in - total_out }),
    }
}

/// The finalize step: balances `tx` against the schedule that `fees` describe,
/// paying any surplus back to `change` when an address is given and leaving it to
/// the fee otherwise.
pub fn finalize(tx: &mut TransactionDraft, fees: &CommonFees, change: Option<Vec<u8>>) -> (r: Result<
    BalanceReport,
    BalanceError,
>)
    ensures
        balanced(
            *old(tx),
            *final(tx),
            fees.spec_linear_fee(),
            ChangePolicy::spec_from_change(change),
            r,
        ),
{
    let fee_algo = fees.linear_fee();
    let policy = ChangePolicy::from_change(change);
    balance(tx, &fee_algo, policy)
}

} // verus!
