//! Configuration of the virtual machine collaborator.
use vstd::prelude::*;

verus! {

/// Settings of the virtual machine; it has none of its own yet.
#[derive(Debug, Default)]
pub struct Config {}

/// Why a transaction could not be charged.
#[derive(Debug, Clone, Copy, PartialEq, Eq)]
pub enum GasError {
    /// The transaction spent more gas than the block has left.
    OutOfGas,
    /// The fees collected for the block would not fit in 64 bits.
    FeeOverflow,
}

/// Gas left in a block and the fees its transactions paid, while the
/// transactions are executed one after another.
pub struct GasBudget {
    gas_left: u64,
    dusk_spent: u64,
}

/// The fee a transaction pays.
pub open spec fn fee(gas_spent: u64, gas_price: u64) -> int {
    gas_spent as int * gas_price as int
}

impl GasBudget {
    pub closed spec fn gas_left_spec(&self) -> u64 {
        self.gas_left
    }

    pub closed spec fn dusk_spent_spec(&self) -> u64 {
        self.dusk_spent
    }

    /// The budget of a block with this gas limit.
    pub fn new(block_gas_limit: u64) -> (r: GasBudget)
        ensures
            r.gas_left_spec() == block_gas_limit,
            r.dusk_spent_spec() == 0,
    {
        GasBudget { gas_left: block_gas_limit, dusk_spent: 0 }
    }

    pub fn gas_left(&self) -> (r: u64)
        ensures
            r == self.gas_left_spec(),
    {
        self.gas_left
    }

    pub fn dusk_spent(&self) -> (r: u64)
        ensures
            r == self.dusk_spent_spec(),
    {
        self.dusk_spent
    }

    /// Whether no gas is left: no further transaction can be included.
    pub fn exhausted(&self) -> (r: bool)
        ensures
            r == (self.gas_left_spec() == 0),
    {
        self.gas_left == 0
    }

    /// Charges an executed transaction of a block being verified: it must
    /// fit in the gas left. On error nothing changes.
    pub fn charge(&mut self, gas_spent: u64, gas_price: u64) -> (r: Result<(), GasError>)
        ensures
            gas_spent > old(self).gas_left_spec() ==> r == Err::<(), GasError>(GasError::OutOfGas),
            gas_spent <= old(self).gas_left_spec() && old(self).dusk_spent_spec() + fee(gas_spent, gas_price) > u64::MAX
                ==> r == Err::<(), GasError>(GasError::FeeOverflow),
            r is Ok <==> gas_spent <= old(self).gas_left_spec() && old(self).dusk_spent_spec() + fee(gas_spent, gas_price) <= u64::MAX,
            r is Ok ==> final(self).gas_left_spec() == old(self).gas_left_spec() - gas_spent
                && final(self).dusk_spent_spec() == old(self).dusk_spent_spec() + fee(gas_spent, gas_price),
            r is Err ==> final(self).gas_left_spec() == old(self).gas_left_spec()
                && final(self).dusk_spent_spec() == old(self).dusk_spent_spec(),
    {
        if gas_spent > self.gas_left {
            return Err(GasError::OutOfGas);
        }
        let fee = match gas_spent.checked_mul(gas_price) {
            Some(f) => f,
            None => return Err(GasError::FeeOverflow),
        };
        let total = match self.dusk_spent.checked_add(fee) {
            Some(t) => t,
            None => return Err(GasError::FeeOverflow),
        };
        self.gas_left = self.gas_left - gas_spent;
        self.dusk_spent = total;
        Ok(())
    }

    /// Charges an executed transaction of a block being produced: a
    /// transaction that spent more than is left is discarded (`Ok(false)`)
    /// and changes nothing; otherwise it is charged (`Ok(true)`).
    pub fn charge_or_discard(&mut self, gas_spent: u64, gas_price: u64) -> (r: Result<bool, GasError>)
        ensures
            gas_spent > old(self).gas_left_spec() ==> r == Ok::<bool, GasError>(false)
                && final(self).gas_left_spec() == old(self).gas_left_spec()
                && final(self).dusk_spent_spec() == old(self).dusk_spent_spec(),
            gas_spent <= old(self).gas_left_spec() && old(self).dusk_spent_spec() + fee(gas_spent, gas_price) > u64::MAX
                ==> r == Err::<bool, GasError>(GasError::FeeOverflow)
                && final(self).gas_left_spec() == old(self).gas_left_spec()
                && final(self).dusk_spent_spec() == old(self).dusk_spent_spec(),
            gas_spent <= old(self).gas_left_spec() && old(self).dusk_spent_spec() + fee(gas_spent, gas_price) <= u64::MAX
                ==> r == Ok::<bool, GasError>(true)
                && final(self).gas_left_spec() == old(self).gas_left_spec() - gas_spent
                && final(self).dusk_spent_spec() == old(self).dusk_spent_spec() + fee(gas_spent, gas_price),
    {
        if gas_spent > self.gas_left {
            return Ok(false);
        }
        match self.charge(gas_spent, gas_price) {
            Ok(()) => Ok(true),
            Err(e) => Err(e),
        }
    }
}

} // verus!
