//! Offline transaction finalization and witness construction: a linear fee
//! schedule, the balancing of a draft against it, the messages that witnesses
//! sign, their binary layout and their bech32 text, and the staging format.
use vstd::prelude::*;

pub mod balance;
pub mod bytes;
pub mod fee;
pub mod staging;
pub mod witness;

pub use balance::{balance, finalize, BalanceError, BalanceReport, ChangePolicy, Input, Output, TransactionDraft};
pub use fee::{CertificateKind, CommonFees, LinearFee};
pub use staging::{CommonTransaction, StagingError};
pub use witness::{
    signing_message, witness_from_text, witness_kind, witness_to_text, MkWitnessError, Witness,
    WitnessDecodeError, WitnessKind, WitnessType,
};

verus! {

} // verus!
