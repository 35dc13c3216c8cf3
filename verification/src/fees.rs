//! The fee that a transaction costs, from the parts that a node reports.

use crate::number::{decimal_number, number_of, quantity_of, to_number, NumberError};
use vstd::prelude::*;

verus! {

/// The parts of the fee for including a transaction in a block.
#[derive(Clone, Copy, Debug, PartialEq, Eq, Structural)]
pub struct FeeDetails {
    /// What every transaction pays.
    pub base_fee: u128,
    /// What the transaction pays for its length.
    pub len_fee: u128,
    /// What the transaction pays for its weight, adjusted to the load of
    /// the network.
    pub adjusted_weight_fee: u128,
}

impl FeeDetails {
    /// The sum of the three parts.
    pub open spec fn total(self) -> nat {
        self.base_fee as nat + self.len_fee as nat + self.adjusted_weight_fee as nat
    }

    /// The partial fee: the fee without a tip, which is the sum of the three
    /// parts; `None` where the sum does not fit 128 bits.
    pub fn partial_fee(&self) -> (r: Option<u128>)
        ensures
            self.total() <= u128::MAX ==> r == Some(self.total() as u128),
            self.total() > u128::MAX ==> r is None,
    {
        match self.base_fee.checked_add(self.len_fee) {
            None => None,
            Some(both) => both.checked_add(self.adjusted_weight_fee),
        }
    }

    /// Whether the three parts add up to the partial fee that the node
    /// reports for the same transaction.
    pub fn adds_up_to(&self, partial_fee: u128) -> (b: bool)
        ensures
            b == (self.total() == partial_fee as nat),
    {
        match self.partial_fee() {
            Some(sum) => sum == partial_fee,
            None => false,
        }
    }
}

/// What the texts of a fee report stand for: the three parts as prefixed
/// hexadecimal quantities.
pub open spec fn details_of(base: Seq<u8>, len: Seq<u8>, weight: Seq<u8>) -> Result<
    FeeDetails,
    NumberError,
> {
    match quantity_of(weight) {
        Err(e) => Err(e),
        Ok(adjusted_weight_fee) => match quantity_of(base) {
            Err(e) => Err(e),
            Ok(base_fee) => match quantity_of(len) {
                Err(e) => Err(e),
                Ok(len_fee) => Ok(FeeDetails { base_fee, len_fee, adjusted_weight_fee }),
            },
        },
    }
}

/// Reads the three parts of a fee report; they are read in the order
/// weight, base, length, and the first that fails is reported.
pub fn read_details(base: &[u8], len: &[u8], weight: &[u8]) -> (r: Result<FeeDetails, NumberError>)
    ensures
        r == details_of(base@, len@, weight@),
{
    let adjusted_weight_fee: u128 = match to_number(weight) {
        Ok(n) => n,
        Err(e) => {
            return Err(e);
        },
    };
    let base_fee: u128 = match to_number(base) {
        Ok(n) => n,
        Err(e) => {
            return Err(e);
        },
    };
    let len_fee: u128 = match to_number(len) {
        Ok(n) => n,
        Err(e) => {
            return Err(e);
        },
    };
    Ok(FeeDetails { base_fee, len_fee, adjusted_weight_fee })
}

/// Whether the parts of `details` add up to the partial fee that the node
/// reports as the decimal text `partial_fee`.
pub fn check_partial_fee(details: &FeeDetails, partial_fee: &[u8]) -> (r: Result<
    bool,
    NumberError,
>)
    ensures
        match number_of(partial_fee@, 10) {
            Ok(reported) => r == Ok::<bool, NumberError>(details.total() == reported as nat),
            Err(e) => r == Err::<bool, NumberError>(e),
        },
{
    match decimal_number(partial_fee) {
        Ok(reported) => Ok(details.adds_up_to(reported)),
        Err(e) => Err(e),
    }
}

} // verus!
