//! The private credit adapter: the on-chain escrow of a position with an
//! off-chain originator.
//!
//! Only the engine moves capital. The two counterparties move together, while
//! the adapter holds nothing, and only to an engine that says it governs the
//! vault offered and a vault that says it custodies the adapter's token.

use crate::address::{Address, Symbol};
use crate::host::{Call, Effects, Event, Fault, Invocation, InvokeError, Receipt, Rent, Trap};
use crate::math::{fits, minus, plus};
use crate::role::{Role, RoleRefusal};
use vstd::prelude::*;

verus! {

/// The packed text of this pool's kind, for [`Symbol::short`].
pub const POOL_KIND: u128 = 0x50524956_43524544_00000000_00000000;

/// The packed text of the feed this pool is priced from.
pub const ORACLE_FEED: u128 = 0x50435f4e_41560000_00000000_00000000;

/// A position settles in fifteen days at the earliest.
pub const MIN_SETTLEMENT_DAYS: u32 = 15;

/// A position settles in ninety days at the latest.
pub const MAX_SETTLEMENT_DAYS: u32 = 90;

/// What the adapter refuses.
#[derive(Clone, Copy, Debug, PartialEq, Eq, Structural)]
pub enum AdapterError {
    /// Kept so that its code never means anything new.
    AlreadyInitialized,
    NotInitialized,
    InvalidAmount,
    /// More returned than is booked as deployed.
    ExposureUnderflow,
    NotAdmin,
    /// The adapter holds exposure or USDC, so its counterparties are fixed.
    NotEmpty,
    /// The engine does not govern the vault, or the vault custodies another
    /// token.
    CounterpartyMismatch,
    /// More written down than is booked as deployed.
    WriteDownExceedsExposure,
    /// `accept_admin` with no handover in flight.
    NoPendingAdmin,
    /// `accept_admin` by an address that was not the one proposed.
    NotPendingAdmin,
    /// A sweep by neither the engine nor the admin.
    NotAuthorized,
    /// The adapter holds nothing above its exposure.
    NothingToRecover,
}

impl AdapterError {
    /// The code the ledger reports.
    pub open spec fn number(self) -> u32 {
        match self {
            AdapterError::AlreadyInitialized => 600,
            AdapterError::NotInitialized => 601,
            AdapterError::InvalidAmount => 602,
            AdapterError::ExposureUnderflow => 603,
            AdapterError::NotAdmin => 604,
            AdapterError::NotEmpty => 605,
            AdapterError::CounterpartyMismatch => 606,
            AdapterError::WriteDownExceedsExposure => 607,
            AdapterError::NoPendingAdmin => 608,
            AdapterError::NotPendingAdmin => 609,
            AdapterError::NotAuthorized => 610,
            AdapterError::NothingToRecover => 611,
        }
    }

    /// The code the ledger reports.
    pub fn code(self) -> (n: u32)
        ensures
            n == self.number(),
    {
        match self {
            AdapterError::AlreadyInitialized => 600,
            AdapterError::NotInitialized => 601,
            AdapterError::InvalidAmount => 602,
            AdapterError::ExposureUnderflow => 603,
            AdapterError::NotAdmin => 604,
            AdapterError::NotEmpty => 605,
            AdapterError::CounterpartyMismatch => 606,
            AdapterError::WriteDownExceedsExposure => 607,
            AdapterError::NoPendingAdmin => 608,
            AdapterError::NotPendingAdmin => 609,
            AdapterError::NotAuthorized => 610,
            AdapterError::NothingToRecover => 611,
        }
    }
}

/// The counterparties moved, together.
#[derive(Clone, Copy, Debug, PartialEq, Eq, Structural)]
pub struct CounterpartiesSet {
    pub engine: Address,
    pub vault: Address,
}

/// A loss was taken off the exposure.
#[derive(Clone, Copy, Debug, PartialEq, Eq, Structural)]
pub struct WrittenDown {
    pub amount: i128,
    pub exposure: i128,
}

/// Surplus went home to the vault.
#[derive(Clone, Copy, Debug, PartialEq, Eq, Structural)]
pub struct SurplusRecovered {
    pub vault: Address,
    pub amount: i128,
}

/// A handover of the admin role was proposed.
#[derive(Clone, Copy, Debug, PartialEq, Eq, Structural)]
pub struct AdminProposed {
    pub new_admin: Address,
}

/// A proposed admin accepted the role.
#[derive(Clone, Copy, Debug, PartialEq, Eq, Structural)]
pub struct AdminChanged {
    pub admin: Address,
}

/// The storage of the adapter.
#[derive(Clone)]
pub struct PrivateCreditAdapter {
    pub role: Role,
    pub engine: Option<Address>,
    pub vault: Option<Address>,
    pub usdc: Option<Address>,
    pub exposure: i128,
}

impl PrivateCreditAdapter {
    /// The contract's refusal for a refusal on the role.
    pub open spec fn denial(e: RoleRefusal) -> Fault<AdapterError> {
        match e {
            RoleRefusal::Unset => Fault::Error(AdapterError::NotInitialized),
            RoleRefusal::NotAdmin => Fault::Error(AdapterError::NotAdmin),
            RoleRefusal::NoPending => Fault::Error(AdapterError::NoPendingAdmin),
            RoleRefusal::NotPending => Fault::Error(AdapterError::NotPendingAdmin),
            RoleRefusal::Unauthorized => Fault::Trap(Trap::Unauthorized),
        }
    }

    fn deny(e: RoleRefusal) -> (f: Fault<AdapterError>)
        ensures
            f == PrivateCreditAdapter::denial(e),
    {
        match e {
            RoleRefusal::Unset => Fault::Error(AdapterError::NotInitialized),
            RoleRefusal::NotAdmin => Fault::Error(AdapterError::NotAdmin),
            RoleRefusal::NoPending => Fault::Error(AdapterError::NoPendingAdmin),
            RoleRefusal::NotPending => Fault::Error(AdapterError::NotPendingAdmin),
            RoleRefusal::Unauthorized => Fault::Trap(Trap::Unauthorized),
        }
    }

    /// What every call keeps: nobody owes the position less than nothing.
    pub open spec fn sound(self) -> bool {
        self.exposure >= 0
    }

    /// Whether a balance covers the position.
    pub open spec fn funded(self, held: int) -> bool {
        held >= self.exposure
    }

    /// The state with another exposure.
    pub open spec fn rebooked(self, after: PrivateCreditAdapter, exposure: int) -> bool {
        after == (PrivateCreditAdapter { exposure: exposure as i128, ..self })
    }

    /// Why `admin` may not act as admin.
    pub open spec fn admin_fault(self, inv: Invocation, admin: Address) -> Option<
        Fault<AdapterError>,
    > {
        match self.role.require_refusal(inv, admin) {
            Some(e) => Some(PrivateCreditAdapter::denial(e)),
            None => None,
        }
    }

    /// Why the caller may not act as the engine.
    pub open spec fn engine_fault(self, inv: Invocation) -> Option<Fault<AdapterError>> {
        match self.engine {
            None => Some(Fault::Error(AdapterError::NotInitialized)),
            Some(engine) => if !inv.signed(engine) {
                Some(Fault::Trap(Trap::Unauthorized))
            } else {
                None
            },
        }
    }

    fn require_engine(&self, inv: &Invocation) -> (r: Result<(), Fault<AdapterError>>)
        ensures
            match r {
                Ok(_) => self.engine_fault(*inv) is None,
                Err(f) => self.engine_fault(*inv) == Some(f),
            },
    {
        match self.engine {
            None => Err(Fault::Error(AdapterError::NotInitialized)),
            Some(engine) => if !inv.authorized(engine) {
                Err(Fault::Trap(Trap::Unauthorized))
            } else {
                Ok(())
            },
        }
    }

    /// Whether a contract answered with this address.
    fn answers(answer: &Result<Address, InvokeError>, expected: Address) -> (b: bool)
        ensures
            b == (*answer == Ok::<Address, InvokeError>(expected)),
    {
        match *answer {
            Ok(a) => a == expected,
            Err(_) => false,
        }
    }

    /// An adapter that nobody has set up yet.
    pub fn empty() -> (a: PrivateCreditAdapter)
        ensures
            a == (PrivateCreditAdapter {
                role: Role { admin: None, pending: None },
                engine: None,
                vault: None,
                usdc: None,
                exposure: 0,
            }),
            a.sound(),
    {
        PrivateCreditAdapter { role: Role::vacant(), engine: None, vault: None, usdc: None, exposure: 0 }
    }

    /// Why the constructor is refused, given which vault the engine says it
    /// governs and which token the vault says it custodies.
    pub open spec fn constructor_fault(
        inv: Invocation,
        admin: Address,
        vault: Address,
        usdc: Address,
        governed: Result<Address, InvokeError>,
        custodied: Result<Address, InvokeError>,
    ) -> Option<Fault<AdapterError>> {
        if !inv.signed(admin) {
            Some(Fault::Trap(Trap::Unauthorized))
        } else if governed != Ok::<Address, InvokeError>(vault) || custodied != Ok::<
            Address,
            InvokeError,
        >(usdc) {
            Some(Fault::Error(AdapterError::CounterpartyMismatch))
        } else {
            None
        }
    }

    /// What `__constructor` answers, and what it leaves behind.
    pub open spec fn __constructor_step(
        self,
        after: PrivateCreditAdapter,
        inv: Invocation,
        admin: Address,
        engine: Address,
        vault: Address,
        usdc: Address,
        governed: Result<Address, InvokeError>,
        custodied: Result<Address, InvokeError>,
        r: Result<Receipt<()>, Fault<AdapterError>>,
    ) -> bool {
        match r {
            Ok(d) => {
                &&& PrivateCreditAdapter::constructor_fault(
                    inv,
                    admin,
                    vault,
                    usdc,
                    governed,
                    custodied,
                ) is None
                &&& after == (PrivateCreditAdapter {
                    role: Role { admin: Some(admin), ..self.role },
                    engine: Some(engine),
                    vault: Some(vault),
                    usdc: Some(usdc),
                    exposure: 0,
                })
                &&& d.gives((), seq![], seq![], seq![Rent::Instance])
                &&& after.sound()
            },
            Err(f) => {
                &&& PrivateCreditAdapter::constructor_fault(
                    inv,
                    admin,
                    vault,
                    usdc,
                    governed,
                    custodied,
                ) == Some(f)
                &&& after == self
            },
        }
    }

    /// Records the admin and the counterparties, in the transaction that
    /// deploys the adapter. The engine has to govern the vault, and the vault
    /// has to custody the token.
    pub fn __constructor(
        &mut self,
        inv: &Invocation,
        admin: Address,
        engine: Address,
        vault: Address,
        usdc: Address,
        governed: Result<Address, InvokeError>,
        custodied: Result<Address, InvokeError>,
    ) -> (r: Result<Receipt<()>, Fault<AdapterError>>)
        ensures
            old(self).__constructor_step(
                *final(self),
                *inv,
                admin,
                engine,
                vault,
                usdc,
                governed,
                custodied,
                r,
            ),
    {
        if !inv.authorized(admin) {
            return Err(Fault::Trap(Trap::Unauthorized));
        }
        if !PrivateCreditAdapter::answers(&governed, vault) || !PrivateCreditAdapter::answers(&custodied, usdc) {
            return Err(Fault::Error(AdapterError::CounterpartyMismatch));
        }
        self.role.admin = Some(admin);
        self.engine = Some(engine);
        self.vault = Some(vault);
        self.usdc = Some(usdc);
        self.exposure = 0;
        Ok(Receipt { value: (), effects: Effects::none().keep(Rent::Instance) })
    }

    /// Why `set_counterparties` is refused, given what USDC says the adapter
    /// holds, which vault the engine says it governs, and
    /// which token the vault says it custodies.
    pub open spec fn set_counterparties_fault(
        self,
        inv: Invocation,
        admin: Address,
        vault: Address,
        held: Result<i128, InvokeError>,
        governed: Result<Address, InvokeError>,
        custodied: Result<Address, InvokeError>,
    ) -> Option<Fault<AdapterError>> {
        if self.admin_fault(inv, admin) is Some {
            self.admin_fault(inv, admin)
        } else if self.exposure != 0 {
            Some(Fault::Error(AdapterError::NotEmpty))
        } else if self.usdc is None {
            Some(Fault::Error(AdapterError::NotInitialized))
        } else if held is Err {
            Some(Fault::Trap(Trap::Callee(held->Err_0)))
        } else if held->Ok_0 != 0 {
            Some(Fault::Error(AdapterError::NotEmpty))
        } else if governed != Ok::<Address, InvokeError>(vault) || custodied != Ok::<
            Address,
            InvokeError,
        >(self.usdc->0) {
            Some(Fault::Error(AdapterError::CounterpartyMismatch))
        } else {
            None
        }
    }

    /// What `set_counterparties` answers, and what it leaves behind.
    pub open spec fn set_counterparties_step(
        self,
        after: PrivateCreditAdapter,
        inv: Invocation,
        admin: Address,
        engine: Address,
        vault: Address,
        held: Result<i128, InvokeError>,
        governed: Result<Address, InvokeError>,
        custodied: Result<Address, InvokeError>,
        r: Result<Receipt<()>, Fault<AdapterError>>,
    ) -> bool {
        match r {
            Ok(d) => {
                &&& self.set_counterparties_fault(
                    inv,
                    admin,
                    vault,
                    held,
                    governed,
                    custodied,
                ) is None
                &&& after == (PrivateCreditAdapter {
                    engine: Some(engine),
                    vault: Some(vault),
                    ..self
                })
                &&& d.gives(
                    (),
                    seq![],
                    seq![Event::PrivateCreditCounterpartiesSet(CounterpartiesSet { engine, vault })],
                    seq![Rent::Instance],
                )
            },
            Err(f) => {
                &&& self.set_counterparties_fault(
                    inv,
                    admin,
                    vault,
                    held,
                    governed,
                    custodied,
                ) == Some(f)
                &&& after == self
            },
        }
    }

    /// Points the adapter at another engine and vault, while it holds nothing.
    pub fn set_counterparties(
        &mut self,
        inv: &Invocation,
        admin: Address,
        engine: Address,
        vault: Address,
        held: Result<i128, InvokeError>,
        governed: Result<Address, InvokeError>,
        custodied: Result<Address, InvokeError>,
    ) -> (r: Result<Receipt<()>, Fault<AdapterError>>)
        ensures
            old(self).set_counterparties_step(
                *final(self),
                *inv,
                admin,
                engine,
                vault,
                held,
                governed,
                custodied,
                r,
            ),
            old(self).sound() ==> final(self).sound(),
    {
        match self.role.require(inv, admin) {
            Ok(_) => {},
            Err(e) => {
                return Err(PrivateCreditAdapter::deny(e));
            },
        }
        if self.exposure != 0 {
            return Err(Fault::Error(AdapterError::NotEmpty));
        }
        let usdc: Address = match self.usdc {
            Some(u) => u,
            None => {
                return Err(Fault::Error(AdapterError::NotInitialized));
            },
        };
        match held {
            Err(e) => {
                return Err(Fault::Trap(Trap::Callee(e)));
            },
            Ok(balance) => if balance != 0 {
                return Err(Fault::Error(AdapterError::NotEmpty));
            },
        }
        if !PrivateCreditAdapter::answers(&governed, vault) || !PrivateCreditAdapter::answers(&custodied, usdc) {
            return Err(Fault::Error(AdapterError::CounterpartyMismatch));
        }
        self.engine = Some(engine);
        self.vault = Some(vault);
        Ok(
            Receipt {
                value: (),
                effects: Effects::none().keep(Rent::Instance).event(
                    Event::PrivateCreditCounterpartiesSet(CounterpartiesSet { engine, vault }),
                ),
            },
        )
    }

    /// Why `allocate` is refused.
    pub open spec fn allocate_fault(self, inv: Invocation, amount: i128) -> Option<
        Fault<AdapterError>,
    > {
        if self.engine_fault(inv) is Some {
            self.engine_fault(inv)
        } else if amount <= 0 {
            Some(Fault::Error(AdapterError::InvalidAmount))
        } else if !fits(self.exposure + amount) {
            Some(Fault::Trap(Trap::Overflow))
        } else {
            None
        }
    }

    /// What `allocate` answers, and what it leaves behind.
    pub open spec fn allocate_step(
        self,
        after: PrivateCreditAdapter,
        inv: Invocation,
        amount: i128,
        r: Result<Receipt<()>, Fault<AdapterError>>,
    ) -> bool {
        match r {
            Ok(d) => {
                &&& self.allocate_fault(inv, amount) is None
                &&& self.rebooked(after, self.exposure + amount)
                &&& d.gives((), seq![], seq![], seq![Rent::Instance])
            },
            Err(f) => {
                &&& self.allocate_fault(inv, amount) == Some(f)
                &&& after == self
            },
        }
    }

    /// Books capital that the vault has just released to this address.
    pub fn allocate(&mut self, inv: &Invocation, amount: i128) -> (r: Result<
        Receipt<()>,
        Fault<AdapterError>,
    >)
        ensures
            old(self).allocate_step(*final(self), *inv, amount, r),
            old(self).sound() ==> final(self).sound(),
    {
        match self.require_engine(inv) {
            Ok(_) => {},
            Err(f) => {
                return Err(f);
            },
        }
        if amount <= 0 {
            return Err(Fault::Error(AdapterError::InvalidAmount));
        }
        let exposure: i128 = match plus(self.exposure, amount) {
            Ok(z) => z,
            Err(t) => {
                return Err(Fault::Trap(t));
            },
        };
        self.exposure = exposure;
        Ok(Receipt { value: (), effects: Effects::none().keep(Rent::Instance) })
    }

    /// Why `deallocate` is refused.
    pub open spec fn deallocate_fault(self, inv: Invocation, amount: i128) -> Option<
        Fault<AdapterError>,
    > {
        if self.engine_fault(inv) is Some {
            self.engine_fault(inv)
        } else if amount <= 0 {
            Some(Fault::Error(AdapterError::InvalidAmount))
        } else if amount > self.exposure {
            Some(Fault::Error(AdapterError::ExposureUnderflow))
        } else if self.usdc is None || self.vault is None {
            Some(Fault::Error(AdapterError::NotInitialized))
        } else {
            None
        }
    }

    /// What `deallocate` answers, and what it leaves behind.
    pub open spec fn deallocate_step(
        self,
        after: PrivateCreditAdapter,
        inv: Invocation,
        amount: i128,
        r: Result<Receipt<()>, Fault<AdapterError>>,
    ) -> bool {
        match r {
            Ok(d) => {
                &&& self.deallocate_fault(inv, amount) is None
                &&& self.rebooked(after, self.exposure - amount)
                &&& d.gives(
                    (),
                    seq![
                        Call::Transfer {
                            token: self.usdc->0,
                            from: inv.contract,
                            to: self.vault->0,
                            amount,
                        },
                    ],
                    seq![],
                    seq![Rent::Instance],
                )
            },
            Err(f) => {
                &&& self.deallocate_fault(inv, amount) == Some(f)
                &&& after == self
            },
        }
    }

    /// Returns capital to the vault and takes it off the exposure, together.
    pub fn deallocate(&mut self, inv: &Invocation, amount: i128) -> (r: Result<
        Receipt<()>,
        Fault<AdapterError>,
    >)
        ensures
            old(self).deallocate_step(*final(self), *inv, amount, r),
            old(self).sound() ==> final(self).sound(),
    {
        match self.require_engine(inv) {
            Ok(_) => {},
            Err(f) => {
                return Err(f);
            },
        }
        if amount <= 0 {
            return Err(Fault::Error(AdapterError::InvalidAmount));
        }
        if amount > self.exposure {
            return Err(Fault::Error(AdapterError::ExposureUnderflow));
        }
        let (usdc, vault): (Address, Address) = match (self.usdc, self.vault) {
            (Some(u), Some(v)) => (u, v),
            _ => {
                return Err(Fault::Error(AdapterError::NotInitialized));
            },
        };
        self.exposure = self.exposure - amount;
        Ok(
            Receipt {
                value: (),
                effects: Effects::none().call(
                    Call::Transfer { token: usdc, from: inv.contract, to: vault, amount },
                ).keep(Rent::Instance),
            },
        )
    }

    /// Why `write_down` is refused.
    pub open spec fn write_down_fault(self, inv: Invocation, amount: i128) -> Option<
        Fault<AdapterError>,
    > {
        if self.engine_fault(inv) is Some {
            self.engine_fault(inv)
        } else if amount <= 0 {
            Some(Fault::Error(AdapterError::InvalidAmount))
        } else if amount > self.exposure {
            Some(Fault::Error(AdapterError::WriteDownExceedsExposure))
        } else {
            None
        }
    }

    /// What `write_down` answers, and what it leaves behind.
    pub open spec fn write_down_step(
        self,
        after: PrivateCreditAdapter,
        inv: Invocation,
        amount: i128,
        r: Result<Receipt<()>, Fault<AdapterError>>,
    ) -> bool {
        match r {
            Ok(d) => {
                let exposure = (self.exposure - amount) as i128;
                &&& self.write_down_fault(inv, amount) is None
                &&& self.rebooked(after, self.exposure - amount)
                &&& d.gives(
                    (),
                    seq![],
                    seq![Event::PrivateCreditWrittenDown(WrittenDown { amount, exposure })],
                    seq![Rent::Instance],
                )
            },
            Err(f) => {
                &&& self.write_down_fault(inv, amount) == Some(f)
                &&& after == self
            },
        }
    }

    /// Takes a recognised loss off the exposure, with no cash moving.
    pub fn write_down(&mut self, inv: &Invocation, amount: i128) -> (r: Result<
        Receipt<()>,
        Fault<AdapterError>,
    >)
        ensures
            old(self).write_down_step(*final(self), *inv, amount, r),
            old(self).sound() ==> final(self).sound(),
    {
        match self.require_engine(inv) {
            Ok(_) => {},
            Err(f) => {
                return Err(f);
            },
        }
        if amount <= 0 {
            return Err(Fault::Error(AdapterError::InvalidAmount));
        }
        if amount > self.exposure {
            return Err(Fault::Error(AdapterError::WriteDownExceedsExposure));
        }
        self.exposure = self.exposure - amount;
        Ok(
            Receipt {
                value: (),
                effects: Effects::none().keep(Rent::Instance).event(
                    Event::PrivateCreditWrittenDown(WrittenDown { amount, exposure: self.exposure }),
                ),
            },
        )
    }

    /// Why `recover_surplus` is refused, given what USDC says the adapter
    /// holds.
    pub open spec fn recover_surplus_fault(
        self,
        inv: Invocation,
        caller: Address,
        held: Result<i128, InvokeError>,
    ) -> Option<Fault<AdapterError>> {
        if self.engine is None || self.role.admin is None {
            Some(Fault::Error(AdapterError::NotInitialized))
        } else if caller != self.engine->0 && caller != self.role.admin->0 {
            Some(Fault::Error(AdapterError::NotAuthorized))
        } else if !inv.signed(caller) {
            Some(Fault::Trap(Trap::Unauthorized))
        } else if self.usdc is None || self.vault is None {
            Some(Fault::Error(AdapterError::NotInitialized))
        } else if held is Err {
            Some(Fault::Trap(Trap::Callee(held->Err_0)))
        } else if !fits(held->Ok_0 - self.exposure) {
            Some(Fault::Trap(Trap::Overflow))
        } else if held->Ok_0 - self.exposure <= 0 {
            Some(Fault::Error(AdapterError::NothingToRecover))
        } else {
            None
        }
    }

    /// What `recover_surplus` answers, and what it asks for.
    pub open spec fn recover_surplus_step(
        self,
        inv: Invocation,
        caller: Address,
        held: Result<i128, InvokeError>,
        r: Result<Receipt<i128>, Fault<AdapterError>>,
    ) -> bool {
        match r {
            Ok(d) => {
                let surplus = (held->Ok_0 - self.exposure) as i128;
                &&& self.recover_surplus_fault(inv, caller, held) is None
                &&& d.gives(
                    surplus,
                    seq![
                        Call::Transfer {
                            token: self.usdc->0,
                            from: inv.contract,
                            to: self.vault->0,
                            amount: surplus,
                        },
                    ],
                    seq![
                        Event::PrivateCreditSurplusRecovered(
                            SurplusRecovered { vault: self.vault->0, amount: surplus },
                        ),
                    ],
                    seq![Rent::Instance],
                )
            },
            Err(f) => self.recover_surplus_fault(inv, caller, held) == Some(f),
        }
    }

    /// Sends what the adapter holds above its exposure to the vault it already
    /// names. The caller, the engine or the admin, chooses neither amount nor
    /// destination.
    pub fn recover_surplus(
        &self,
        inv: &Invocation,
        caller: Address,
        held: Result<i128, InvokeError>,
    ) -> (r: Result<Receipt<i128>, Fault<AdapterError>>)
        ensures
            self.recover_surplus_step(*inv, caller, held, r),
    {
        let (engine, admin): (Address, Address) = match (self.engine, self.role.admin) {
            (Some(e), Some(a)) => (e, a),
            _ => {
                return Err(Fault::Error(AdapterError::NotInitialized));
            },
        };
        if caller != engine && caller != admin {
            return Err(Fault::Error(AdapterError::NotAuthorized));
        }
        if !inv.authorized(caller) {
            return Err(Fault::Trap(Trap::Unauthorized));
        }
        let (usdc, vault): (Address, Address) = match (self.usdc, self.vault) {
            (Some(u), Some(v)) => (u, v),
            _ => {
                return Err(Fault::Error(AdapterError::NotInitialized));
            },
        };
        let balance: i128 = match held {
            Ok(z) => z,
            Err(e) => {
                return Err(Fault::Trap(Trap::Callee(e)));
            },
        };
        let surplus: i128 = match minus(balance, self.exposure) {
            Ok(z) => z,
            Err(t) => {
                return Err(Fault::Trap(t));
            },
        };
        if surplus <= 0 {
            return Err(Fault::Error(AdapterError::NothingToRecover));
        }
        Ok(
            Receipt {
                value: surplus,
                effects: Effects::none().call(
                    Call::Transfer { token: usdc, from: inv.contract, to: vault, amount: surplus },
                ).keep(Rent::Instance).event(
                    Event::PrivateCreditSurplusRecovered(SurplusRecovered { vault, amount: surplus }),
                ),
            },
        )
    }

    /// What `propose_admin` answers, and what it leaves behind.
    pub open spec fn propose_admin_step(
        self,
        after: PrivateCreditAdapter,
        inv: Invocation,
        admin: Address,
        new_admin: Address,
        r: Result<Receipt<()>, Fault<AdapterError>>,
    ) -> bool {
        match r {
            Ok(d) => {
                &&& self.role.require_refusal(inv, admin) is None
                &&& after == (PrivateCreditAdapter {
                    role: self.role.proposed(new_admin),
                    ..self
                })
                &&& d.gives(
                    (),
                    seq![],
                    seq![Event::PrivateCreditAdminProposed(AdminProposed { new_admin })],
                    seq![Rent::Instance],
                )
            },
            Err(f) => {
                &&& self.role.require_refusal(inv, admin) is Some
                &&& f == PrivateCreditAdapter::denial(self.role.require_refusal(inv, admin)->0)
                &&& after == self
            },
        }
    }

    /// Offers the admin role to another address. Replaces any earlier offer.
    pub fn propose_admin(&mut self, inv: &Invocation, admin: Address, new_admin: Address) -> (r:
        Result<Receipt<()>, Fault<AdapterError>>)
        ensures
            old(self).propose_admin_step(*final(self), *inv, admin, new_admin, r),
            old(self).sound() ==> final(self).sound(),
    {
        match self.role.require(inv, admin) {
            Ok(_) => {},
            Err(e) => {
                return Err(PrivateCreditAdapter::deny(e));
            },
        }
        self.role.pending = Some(new_admin);
        Ok(
            Receipt {
                value: (),
                effects: Effects::none().keep(Rent::Instance).event(
                    Event::PrivateCreditAdminProposed(AdminProposed { new_admin }),
                ),
            },
        )
    }

    /// What `accept_admin` answers, and what it leaves behind.
    pub open spec fn accept_admin_step(
        self,
        after: PrivateCreditAdapter,
        inv: Invocation,
        new_admin: Address,
        r: Result<Receipt<()>, Fault<AdapterError>>,
    ) -> bool {
        match r {
            Ok(d) => {
                &&& self.role.accept_refusal(inv, new_admin) is None
                &&& after == (PrivateCreditAdapter {
                    role: self.role.accepted(new_admin),
                    ..self
                })
                &&& d.gives(
                    (),
                    seq![],
                    seq![Event::PrivateCreditAdminChanged(AdminChanged { admin: new_admin })],
                    seq![Rent::Instance],
                )
            },
            Err(f) => {
                &&& self.role.accept_refusal(inv, new_admin) is Some
                &&& f == PrivateCreditAdapter::denial(self.role.accept_refusal(inv, new_admin)->0)
                &&& after == self
            },
        }
    }

    /// Takes the offered admin role over.
    pub fn accept_admin(&mut self, inv: &Invocation, new_admin: Address) -> (r: Result<
        Receipt<()>,
        Fault<AdapterError>,
    >)
        ensures
            old(self).accept_admin_step(*final(self), *inv, new_admin, r),
            old(self).sound() ==> final(self).sound(),
    {
        match self.role.require_pending(inv, new_admin) {
            Ok(_) => {},
            Err(e) => {
                return Err(PrivateCreditAdapter::deny(e));
            },
        }
        self.role.admin = Some(new_admin);
        self.role.pending = None;
        Ok(
            Receipt {
                value: (),
                effects: Effects::none().keep(Rent::Instance).event(
                    Event::PrivateCreditAdminChanged(AdminChanged { admin: new_admin }),
                ),
            },
        )
    }

    /// The address that has been offered the role and has not accepted yet.
    pub fn pending_admin(&self) -> (a: Option<Address>)
        ensures
            a == self.role.pending,
    {
        self.role.pending
    }

    // ---- views ----

    /// Capital deployed here.
    pub fn get_exposure(&self) -> (n: i128)
        ensures
            n == self.exposure,
    {
        self.exposure
    }

    /// What kind of pool this is.
    pub fn pool_kind() -> (s: Symbol)
        ensures
            s == Symbol::of(POOL_KIND),
    {
        Symbol::short(POOL_KIND)
    }

    /// The oracle feed this pool is priced from.
    pub fn oracle_feed() -> (s: Symbol)
        ensures
            s == Symbol::of(ORACLE_FEED),
    {
        Symbol::short(ORACLE_FEED)
    }

    /// The least and the most days a position takes to settle.
    pub fn settlement_window() -> (w: (u32, u32))
        ensures
            w == (MIN_SETTLEMENT_DAYS, MAX_SETTLEMENT_DAYS),
    {
        (MIN_SETTLEMENT_DAYS, MAX_SETTLEMENT_DAYS)
    }

    /// The engine this adapter takes instructions from.
    pub fn engine(&self) -> (r: Result<Address, AdapterError>)
        ensures
            r == (match self.engine {
                Some(a) => Ok::<Address, AdapterError>(a),
                None => Err(AdapterError::NotInitialized),
            }),
    {
        match self.engine {
            Some(a) => Ok(a),
            None => Err(AdapterError::NotInitialized),
        }
    }

    /// The vault this adapter repays.
    pub fn vault(&self) -> (r: Result<Address, AdapterError>)
        ensures
            r == (match self.vault {
                Some(a) => Ok::<Address, AdapterError>(a),
                None => Err(AdapterError::NotInitialized),
            }),
    {
        match self.vault {
            Some(a) => Ok(a),
            None => Err(AdapterError::NotInitialized),
        }
    }

    /// The token this adapter transfers with.
    pub fn usdc(&self) -> (r: Result<Address, AdapterError>)
        ensures
            r == (match self.usdc {
                Some(a) => Ok::<Address, AdapterError>(a),
                None => Err(AdapterError::NotInitialized),
            }),
    {
        match self.usdc {
            Some(a) => Ok(a),
            None => Err(AdapterError::NotInitialized),
        }
    }

    /// The admin.
    pub fn admin(&self) -> (r: Result<Address, AdapterError>)
        ensures
            r == (match self.role.admin {
                Some(a) => Ok::<Address, AdapterError>(a),
                None => Err(AdapterError::NotInitialized),
            }),
    {
        match self.role.admin {
            Some(a) => Ok(a),
            None => Err(AdapterError::NotInitialized),
        }
    }
}

/// No call of the engine or the admin leaves the adapter holding less than it
/// has booked: a repayment takes as much off the book as off the balance, a
/// write-down takes only off the book, capital that is booked has arrived, and
/// a sweep leaves exactly the book.
pub proof fn a_private_credit_position_stays_funded(
    a: PrivateCreditAdapter,
    after: PrivateCreditAdapter,
    inv: Invocation,
    caller: Address,
    amount: i128,
    held: i128,
)
    requires
        a.sound(),
        a.funded(held as int),
    ensures
        a.allocate_fault(inv, amount) is None && a.rebooked(after, a.exposure + amount)
            ==> after.funded(held + amount),
        a.deallocate_fault(inv, amount) is None && a.rebooked(after, a.exposure - amount)
            ==> after.funded(held - amount),
        a.write_down_fault(inv, amount) is None && a.rebooked(after, a.exposure - amount)
            ==> after.funded(held as int),
        a.recover_surplus_fault(inv, caller, Ok::<i128, InvokeError>(held)) is None ==> {
            let surplus = held - a.exposure;
            &&& surplus > 0
            &&& a.funded(held - surplus)
            &&& !a.funded(held - surplus - 1)
        },
{
}

/// Without its engine's authorization the adapter books, returns and writes
/// off nothing. There is no admin's way to any of it.
pub proof fn only_its_engine_moves_its_capital(a: PrivateCreditAdapter, inv: Invocation, amount: i128)
    requires
        a.engine is Some ==> !inv.signed(a.engine->0),
    ensures
        a.allocate_fault(inv, amount) is Some,
        a.deallocate_fault(inv, amount) is Some,
        a.write_down_fault(inv, amount) is Some,
{
}

/// An adapter that holds anything, booked or not, keeps its counterparties.
pub proof fn a_holding_adapter_keeps_its_counterparties(
    a: PrivateCreditAdapter,
    inv: Invocation,
    admin: Address,
    vault: Address,
    held: i128,
    governed: Result<Address, InvokeError>,
    custodied: Result<Address, InvokeError>,
)
    requires
        a.exposure != 0 || held != 0,
    ensures
        a.set_counterparties_fault(
            inv,
            admin,
            vault,
            Ok::<i128, InvokeError>(held),
            governed,
            custodied,
        ) is Some,
{
}

} // verus!
