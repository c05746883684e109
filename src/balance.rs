use vstd::prelude::*;

verus! {

/// Balance of an account, in ten-thousandths of a currency unit.
#[derive(Debug, Clone, Copy, PartialEq, Eq, Structural)]
pub struct Balance {
    /// Funds the owner may withdraw or dispute against.
    pub available: u64,
    /// Funds frozen while a dispute is open.
    pub held: u64,
}

impl Balance {
    /// The account total: available plus held.
    pub open spec fn total_amount(self) -> int {
        self.available + self.held
    }

    /// A balance whose funds are all available.
    pub fn new(available: u64) -> (r: Self)
        ensures
            r.available == available,
            r.held == 0,
    {
        Balance { available, held: 0 }
    }

    /// The account total, computed afresh from its two parts.
    pub fn total(&self) -> (r: u64)
        requires
            self.total_amount() <= u64::MAX,
        ensures
            r == self.total_amount(),
    {
        self.available + self.held
    }
}

} // verus!
