//! An engine that lies, as the measure of what the vault leaves to its engine.
//!
//! It answers the two questions that [`Vault::set_engine`] asks, because
//! answering them costs a stored address and a zero. It checks no cap, no
//! floor and no book before it asks for a release. What it can then take is
//! what the vault's own floor lets any engine take, and it can make the vault
//! forget none of it.

use crate::address::Address;
use crate::host::{Call, Effects, Event, Invocation, Receipt, Rent, Trap};
use crate::vault::{RepaymentRecorded, Vault, WriteDownRecorded};
use vstd::prelude::*;

verus! {

/// The storage of the hostile engine.
#[derive(Clone)]
pub struct HostileEngine {
    pub vault: Option<Address>,
}

impl HostileEngine {
    /// A hostile engine that has not been told what to attack.
    pub fn empty() -> (h: HostileEngine)
        ensures
            h.vault is None,
    {
        HostileEngine { vault: None }
    }

    /// Names the vault to attack. Anyone may, at any time.
    pub fn initialize(&mut self, vault: Address)
        ensures
            *final(self) == (HostileEngine { vault: Some(vault) }),
    {
        self.vault = Some(vault);
    }

    /// The vault it claims to govern.
    pub fn vault(&self) -> (r: Result<Address, Trap>)
        ensures
            r == (match self.vault {
                Some(v) => Ok::<Address, Trap>(v),
                None => Err(Trap::Absent),
            }),
    {
        match self.vault {
            Some(v) => Ok(v),
            None => Err(Trap::Absent),
        }
    }

    /// Whatever number is convenient.
    pub fn total_allocated(&self) -> (n: i128)
        ensures
            n == 0,
    {
        0
    }

    /// Asks the vault for a release and reports whether it was granted. The
    /// vault is the one this engine names, and `held` what USDC says that
    /// vault holds.
    pub fn steal(
        &self,
        inv: &Invocation,
        to: Address,
        amount: i128,
        governed: &mut Vault,
        held: i128,
    ) -> (r: Result<Receipt<bool>, Trap>)
        ensures
            match r {
                Ok(d) => {
                    &&& self.vault is Some
                    &&& forall|n: Invocation| #[trigger]
                        inv.opens(n, self.vault->0) ==> d.value == (old(
                            governed,
                        ).settle_allocation_fault(n, amount, held) is None)
                    &&& d.value ==> {
                        &&& old(governed).released(*final(governed), amount)
                        &&& d.gives(
                            true,
                            seq![
                                Call::Transfer {
                                    token: old(governed).usdc->0,
                                    from: self.vault->0,
                                    to,
                                    amount,
                                },
                            ],
                            seq![],
                            seq![Rent::Instance],
                        )
                        &&& old(governed).sound() ==> final(governed).floor_stands(
                            (held - amount) as i128,
                        )
                    }
                    &&& !d.value ==> {
                        &&& *final(governed) == *old(governed)
                        &&& d.gives(false, seq![], seq![], seq![])
                    }
                },
                Err(t) => {
                    &&& self.vault is None
                    &&& t == Trap::Absent
                    &&& *final(governed) == *old(governed)
                },
            },
            old(governed).sound() ==> final(governed).sound(),
    {
        let vault: Address = match self.vault() {
            Ok(v) => v,
            Err(t) => {
                return Err(t);
            },
        };
        let nested = inv.nested(vault);
        proof {
            if old(governed).sound() {
                old(governed).queued_is_not_negative();
            }
        }
        match governed.settle_allocation(&nested, to, amount, held) {
            Ok(d) => Ok(Receipt { value: true, effects: d.effects }),
            Err(_) => Ok(Receipt { value: false, effects: Effects::none() }),
        }
    }

    /// Asks the vault to take capital off its deployed book as lost, in the
    /// admin's name, and reports whether it did.
    pub fn erase_the_book(
        &self,
        inv: &Invocation,
        admin: Address,
        amount: i128,
        governed: &mut Vault,
    ) -> (r: Result<Receipt<bool>, Trap>)
        ensures
            match r {
                Ok(d) => {
                    &&& self.vault is Some
                    &&& forall|n: Invocation| #[trigger]
                        inv.opens(n, self.vault->0) ==> d.value == (old(
                            governed,
                        ).record_writedown_fault(n, admin, amount) is None)
                    &&& d.value ==> {
                        &&& old(governed).wrote_down(*final(governed), amount)
                        &&& d.gives(
                            true,
                            seq![],
                            seq![
                                Event::WriteDownRecorded(
                                    WriteDownRecorded {
                                        amount,
                                        deployed: final(governed).deployed,
                                        recognised_losses: final(governed).written_off,
                                    },
                                ),
                            ],
                            seq![Rent::Instance],
                        )
                    }
                    &&& !d.value ==> {
                        &&& *final(governed) == *old(governed)
                        &&& d.gives(false, seq![], seq![], seq![])
                    }
                },
                Err(t) => {
                    &&& self.vault is None
                    &&& t == Trap::Absent
                    &&& *final(governed) == *old(governed)
                },
            },
            old(governed).sound() ==> final(governed).sound(),
    {
        let vault: Address = match self.vault() {
            Ok(v) => v,
            Err(t) => {
                return Err(t);
            },
        };
        let nested = inv.nested(vault);
        match governed.record_writedown(&nested, admin, amount) {
            Ok(d) => Ok(Receipt { value: true, effects: d.effects }),
            Err(_) => Ok(Receipt { value: false, effects: Effects::none() }),
        }
    }

    /// Asks the vault to take capital off its deployed book as repaid, and
    /// reports whether it did. `held` is what USDC says the vault holds.
    pub fn fake_a_repayment(
        &self,
        inv: &Invocation,
        amount: i128,
        governed: &mut Vault,
        held: i128,
    ) -> (r: Result<Receipt<bool>, Trap>)
        ensures
            match r {
                Ok(d) => {
                    &&& self.vault is Some
                    &&& forall|n: Invocation| #[trigger]
                        inv.opens(n, self.vault->0) ==> d.value == (old(
                            governed,
                        ).record_repayment_fault(n, amount, held) is None)
                    &&& d.value ==> {
                        &&& old(governed).repaid(*final(governed), amount)
                        &&& d.gives(
                            true,
                            seq![],
                            seq![
                                Event::RepaymentRecorded(
                                    RepaymentRecorded {
                                        amount,
                                        deployed: final(governed).deployed,
                                    },
                                ),
                            ],
                            seq![Rent::Instance],
                        )
                    }
                    &&& !d.value ==> {
                        &&& *final(governed) == *old(governed)
                        &&& d.gives(false, seq![], seq![], seq![])
                    }
                },
                Err(t) => {
                    &&& self.vault is None
                    &&& t == Trap::Absent
                    &&& *final(governed) == *old(governed)
                },
            },
            old(governed).sound() ==> final(governed).sound(),
    {
        let vault: Address = match self.vault() {
            Ok(v) => v,
            Err(t) => {
                return Err(t);
            },
        };
        let nested = inv.nested(vault);
        match governed.record_repayment(&nested, amount, held) {
            Ok(d) => Ok(Receipt { value: true, effects: d.effects }),
            Err(_) => Ok(Receipt { value: false, effects: Effects::none() }),
        }
    }
}

} // verus!
