//! agUSD, the synthetic dollar the vault mints against a deposit.
//!
//! A token that does nothing except keep balances and let exactly one address
//! create them. The minter can be corrected until the first mint and never
//! after: not even a supply burned back to nothing reopens it. Burning stays
//! with the holder.

use crate::address::Address;
use crate::host::{Effects, Event, Fault, Invocation, Receipt, Rent, Trap};
use crate::role::{Role, RoleRefusal};
use crate::token::{moved, AllowanceDataKey, AllowanceValue, Token, TokenMetadata};
use vstd::prelude::*;

verus! {

/// What the token refuses beyond what every token does.
#[derive(Clone, Copy, Debug, PartialEq, Eq, Structural)]
pub enum AgUsdCoreError {
    AlreadyInitialized,
    NotInitialized,
    /// Someone other than the minter tried to mint. The authorization check
    /// answers first, so nothing gives this code.
    NotMinter,
    /// Zero or negative mint amount.
    InvalidAmount,
    NotAdmin,
    /// The token has issued, so its minter is fixed.
    MinterFrozen,
    /// `accept_admin` with no handover in flight.
    NoPendingAdmin,
    /// `accept_admin` by an address that was not the one proposed.
    NotPendingAdmin,
}

impl AgUsdCoreError {
    /// The code the ledger reports.
    pub open spec fn number(self) -> u32 {
        match self {
            AgUsdCoreError::AlreadyInitialized => 200,
            AgUsdCoreError::NotInitialized => 201,
            AgUsdCoreError::NotMinter => 202,
            AgUsdCoreError::InvalidAmount => 203,
            AgUsdCoreError::NotAdmin => 204,
            AgUsdCoreError::MinterFrozen => 205,
            AgUsdCoreError::NoPendingAdmin => 206,
            AgUsdCoreError::NotPendingAdmin => 207,
        }
    }

    /// The code the ledger reports.
    pub fn code(self) -> (n: u32)
        ensures
            n == self.number(),
    {
        match self {
            AgUsdCoreError::AlreadyInitialized => 200,
            AgUsdCoreError::NotInitialized => 201,
            AgUsdCoreError::NotMinter => 202,
            AgUsdCoreError::InvalidAmount => 203,
            AgUsdCoreError::NotAdmin => 204,
            AgUsdCoreError::MinterFrozen => 205,
            AgUsdCoreError::NoPendingAdmin => 206,
            AgUsdCoreError::NotPendingAdmin => 207,
        }
    }
}

/// The minter was corrected, before the first mint.
#[derive(Clone, Copy, Debug, PartialEq, Eq, Structural)]
pub struct MinterSet {
    pub minter: Address,
}

/// A handover of the admin role was proposed.
#[derive(Clone, Copy, Debug, PartialEq, Eq, Structural)]
pub struct AdminProposed {
    pub new_admin: Address,
}

/// A proposed admin accepted the role.
#[derive(Clone, Copy, Debug, PartialEq, Eq, Structural)]
pub struct AdminChanged {
    pub admin: Address,
}

/// The storage of the token.
#[derive(Clone)]
pub struct AgUsdCore {
    pub role: Role,
    pub minter: Option<Address>,
    /// How many times the token has issued.
    pub mints: u64,
    pub token: Token,
}

impl AgUsdCore {
    /// The contract's refusal for a refusal on the role.
    pub open spec fn denial(e: RoleRefusal) -> Fault<AgUsdCoreError> {
        match e {
            RoleRefusal::Unset => Fault::Error(AgUsdCoreError::NotInitialized),
            RoleRefusal::NotAdmin => Fault::Error(AgUsdCoreError::NotAdmin),
            RoleRefusal::NoPending => Fault::Error(AgUsdCoreError::NoPendingAdmin),
            RoleRefusal::NotPending => Fault::Error(AgUsdCoreError::NotPendingAdmin),
            RoleRefusal::Unauthorized => Fault::Trap(Trap::Unauthorized),
        }
    }

    fn deny(e: RoleRefusal) -> (f: Fault<AgUsdCoreError>)
        ensures
            f == AgUsdCore::denial(e),
    {
        match e {
            RoleRefusal::Unset => Fault::Error(AgUsdCoreError::NotInitialized),
            RoleRefusal::NotAdmin => Fault::Error(AgUsdCoreError::NotAdmin),
            RoleRefusal::NoPending => Fault::Error(AgUsdCoreError::NoPendingAdmin),
            RoleRefusal::NotPending => Fault::Error(AgUsdCoreError::NotPendingAdmin),
            RoleRefusal::Unauthorized => Fault::Trap(Trap::Unauthorized),
        }
    }

    /// What every call keeps: sound books, and no supply that was never
    /// minted.
    pub open spec fn sound(self) -> bool {
        &&& self.token.sound()
        &&& self.mints == 0 ==> self.token.supply == 0
    }

    /// A token nobody has set up yet.
    pub fn empty() -> (t: AgUsdCore)
        ensures
            t.role == (Role { admin: None, pending: None }),
            t.minter is None,
            t.mints == 0,
            t.token.balances@ == Map::<Address, i128>::empty(),
            t.token.allowances@ == Map::<AllowanceDataKey, AllowanceValue>::empty(),
            t.token.supply == 0,
            t.token.metadata is None,
            t.sound(),
    {
        AgUsdCore { role: Role::vacant(), minter: None, mints: 0, token: Token::empty() }
    }

    /// Why `initialize` is refused.
    pub open spec fn initialize_fault(self, inv: Invocation, admin: Address) -> Option<
        Fault<AgUsdCoreError>,
    > {
        if self.minter is Some {
            Some(Fault::Error(AgUsdCoreError::AlreadyInitialized))
        } else if !inv.signed(admin) {
            Some(Fault::Trap(Trap::Unauthorized))
        } else {
            None
        }
    }

    /// What `initialize` answers, and what it leaves behind.
    pub open spec fn initialize_step(
        self,
        after: AgUsdCore,
        inv: Invocation,
        admin: Address,
        minter: Address,
        decimal: u32,
        name: String,
        symbol: String,
        r: Result<Receipt<()>, Fault<AgUsdCoreError>>,
    ) -> bool {
        match r {
            Ok(d) => {
                &&& self.initialize_fault(inv, admin) is None
                &&& after == (AgUsdCore {
                    role: Role { admin: Some(admin), ..self.role },
                    minter: Some(minter),
                    token: Token {
                        metadata: Some(TokenMetadata { decimal, name, symbol }),
                        ..self.token
                    },
                    ..self
                })
                &&& d.gives((), seq![], seq![], seq![Rent::Instance])
            },
            Err(f) => {
                &&& self.initialize_fault(inv, admin) == Some(f)
                &&& after == self
            },
        }
    }

    /// Records the admin, the minter and the metadata, once.
    pub fn initialize(
        &mut self,
        inv: &Invocation,
        admin: Address,
        minter: Address,
        decimal: u32,
        name: String,
        symbol: String,
    ) -> (r: Result<Receipt<()>, Fault<AgUsdCoreError>>)
        ensures
            old(self).initialize_step(*final(self), *inv, admin, minter, decimal, name, symbol, r),
            old(self).sound() ==> final(self).sound(),
    {
        if self.minter.is_some() {
            return Err(Fault::Error(AgUsdCoreError::AlreadyInitialized));
        }
        if !inv.authorized(admin) {
            return Err(Fault::Trap(Trap::Unauthorized));
        }
        self.role.admin = Some(admin);
        self.minter = Some(minter);
        self.token.set_metadata(decimal, name, symbol);
        Ok(Receipt { value: (), effects: Effects::none().keep(Rent::Instance) })
    }

    /// Why `set_minter` is refused.
    pub open spec fn set_minter_fault(self, inv: Invocation, admin: Address) -> Option<
        Fault<AgUsdCoreError>,
    > {
        if self.role.require_refusal(inv, admin) is Some {
            Some(AgUsdCore::denial(self.role.require_refusal(inv, admin)->0))
        } else if self.mints > 0 {
            Some(Fault::Error(AgUsdCoreError::MinterFrozen))
        } else {
            None
        }
    }

    /// What `set_minter` answers, and what it leaves behind.
    pub open spec fn set_minter_step(
        self,
        after: AgUsdCore,
        inv: Invocation,
        admin: Address,
        minter: Address,
        r: Result<Receipt<()>, Fault<AgUsdCoreError>>,
    ) -> bool {
        match r {
            Ok(d) => {
                &&& self.set_minter_fault(inv, admin) is None
                &&& after == (AgUsdCore { minter: Some(minter), ..self })
                &&& d.gives(
                    (),
                    seq![],
                    seq![Event::MinterSet(MinterSet { minter })],
                    seq![Rent::Instance],
                )
            },
            Err(f) => {
                &&& self.set_minter_fault(inv, admin) == Some(f)
                &&& after == self
            },
        }
    }

    /// Corrects the minter, before the token has issued anything.
    pub fn set_minter(&mut self, inv: &Invocation, admin: Address, minter: Address) -> (r: Result<
        Receipt<()>,
        Fault<AgUsdCoreError>,
    >)
        ensures
            old(self).set_minter_step(*final(self), *inv, admin, minter, r),
            old(self).sound() ==> final(self).sound(),
    {
        match self.role.require(inv, admin) {
            Ok(_) => {},
            Err(e) => {
                return Err(AgUsdCore::deny(e));
            },
        }
        if self.mints > 0 {
            return Err(Fault::Error(AgUsdCoreError::MinterFrozen));
        }
        self.minter = Some(minter);
        Ok(
            Receipt {
                value: (),
                effects: Effects::none().keep(Rent::Instance).event(
                    Event::MinterSet(MinterSet { minter }),
                ),
            },
        )
    }

    /// Why `mint` is refused.
    pub open spec fn mint_fault(self, inv: Invocation, to: Address, amount: i128) -> Option<
        Fault<AgUsdCoreError>,
    > {
        if self.minter is None {
            Some(Fault::Error(AgUsdCoreError::NotInitialized))
        } else if !inv.signed(self.minter->0) {
            Some(Fault::Trap(Trap::Unauthorized))
        } else if amount <= 0 {
            Some(Fault::Error(AgUsdCoreError::InvalidAmount))
        } else if self.token.mint_trap(to, amount) is Some || self.mints == u64::MAX {
            Some(Fault::Trap(Trap::Overflow))
        } else {
            None
        }
    }

    /// What `mint` answers, and what it leaves behind.
    pub open spec fn mint_step(
        self,
        after: AgUsdCore,
        inv: Invocation,
        to: Address,
        amount: i128,
        r: Result<Receipt<()>, Fault<AgUsdCoreError>>,
    ) -> bool {
        match r {
            Ok(d) => {
                &&& self.mint_fault(inv, to, amount) is None
                &&& after.token.balances@ == moved(
                    self.token.balances@,
                    to,
                    amount as int,
                )
                &&& after == (AgUsdCore {
                    mints: (self.mints + 1) as u64,
                    token: Token {
                        balances: after.token.balances,
                        supply: (self.token.supply + amount) as i128,
                        ..self.token
                    },
                    ..self
                })
                &&& d.gives(
                    (),
                    seq![],
                    seq![Event::Mint { to, amount }],
                    seq![Rent::Instance, Rent::Balance { of: to }],
                )
            },
            Err(f) => {
                &&& self.mint_fault(inv, to, amount) == Some(f)
                &&& after == self
            },
        }
    }

    /// Creates agUSD, with the stored minter's authorization and nobody
    /// else's.
    pub fn mint(&mut self, inv: &Invocation, to: Address, amount: i128) -> (r: Result<
        Receipt<()>,
        Fault<AgUsdCoreError>,
    >)
        ensures
            old(self).mint_step(*final(self), *inv, to, amount, r),
            old(self).sound() ==> final(self).sound(),
    {
        let minter: Address = match self.minter {
            Some(m) => m,
            None => {
                return Err(Fault::Error(AgUsdCoreError::NotInitialized));
            },
        };
        if !inv.authorized(minter) {
            return Err(Fault::Trap(Trap::Unauthorized));
        }
        if amount <= 0 {
            return Err(Fault::Error(AgUsdCoreError::InvalidAmount));
        }
        if self.mints == u64::MAX {
            return Err(Fault::Trap(Trap::Overflow));
        }
        match self.token.mint(to, amount) {
            Ok(d) => {
                self.mints = self.mints + 1;
                Ok(d)
            },
            Err(t) => Err(Fault::Trap(t)),
        }
    }

    /// What `propose_admin` answers, and what it leaves behind.
    pub open spec fn propose_admin_step(
        self,
        after: AgUsdCore,
        inv: Invocation,
        admin: Address,
        new_admin: Address,
        r: Result<Receipt<()>, Fault<AgUsdCoreError>>,
    ) -> bool {
        match r {
            Ok(d) => {
                &&& self.role.require_refusal(inv, admin) is None
                &&& after == (AgUsdCore {
                    role: self.role.proposed(new_admin),
                    ..self
                })
                &&& d.gives(
                    (),
                    seq![],
                    seq![Event::AgUsdCoreAdminProposed(AdminProposed { new_admin })],
                    seq![Rent::Instance],
                )
            },
            Err(f) => {
                &&& self.role.require_refusal(inv, admin) is Some
                &&& f == AgUsdCore::denial(self.role.require_refusal(inv, admin)->0)
                &&& after == self
            },
        }
    }

    /// Offers the admin role to another address. Replaces any earlier offer.
    pub fn propose_admin(&mut self, inv: &Invocation, admin: Address, new_admin: Address) -> (r:
        Result<Receipt<()>, Fault<AgUsdCoreError>>)
        ensures
            old(self).propose_admin_step(*final(self), *inv, admin, new_admin, r),
            old(self).sound() ==> final(self).sound(),
    {
        match self.role.require(inv, admin) {
            Ok(_) => {},
            Err(e) => {
                return Err(AgUsdCore::deny(e));
            },
        }
        self.role.pending = Some(new_admin);
        Ok(
            Receipt {
                value: (),
                effects: Effects::none().keep(Rent::Instance).event(
                    Event::AgUsdCoreAdminProposed(AdminProposed { new_admin }),
                ),
            },
        )
    }

    /// What `accept_admin` answers, and what it leaves behind.
    pub open spec fn accept_admin_step(
        self,
        after: AgUsdCore,
        inv: Invocation,
        new_admin: Address,
        r: Result<Receipt<()>, Fault<AgUsdCoreError>>,
    ) -> bool {
        match r {
            Ok(d) => {
                &&& self.role.accept_refusal(inv, new_admin) is None
                &&& after == (AgUsdCore {
                    role: self.role.accepted(new_admin),
                    ..self
                })
                &&& d.gives(
                    (),
                    seq![],
                    seq![Event::AgUsdCoreAdminChanged(AdminChanged { admin: new_admin })],
                    seq![Rent::Instance],
                )
            },
            Err(f) => {
                &&& self.role.accept_refusal(inv, new_admin) is Some
                &&& f == AgUsdCore::denial(self.role.accept_refusal(inv, new_admin)->0)
                &&& after == self
            },
        }
    }

    /// Takes the offered admin role over.
    pub fn accept_admin(&mut self, inv: &Invocation, new_admin: Address) -> (r: Result<
        Receipt<()>,
        Fault<AgUsdCoreError>,
    >)
        ensures
            old(self).accept_admin_step(*final(self), *inv, new_admin, r),
            old(self).sound() ==> final(self).sound(),
    {
        match self.role.require_pending(inv, new_admin) {
            Ok(_) => {},
            Err(e) => {
                return Err(AgUsdCore::deny(e));
            },
        }
        self.role.admin = Some(new_admin);
        self.role.pending = None;
        Ok(
            Receipt {
                value: (),
                effects: Effects::none().keep(Rent::Instance).event(
                    Event::AgUsdCoreAdminChanged(AdminChanged { admin: new_admin }),
                ),
            },
        )
    }

    /// The address that has been offered the role and has not accepted yet.
    pub fn pending_admin(&self) -> (a: Option<Address>)
        ensures
            a == self.role.pending,
    {
        self.role.pending
    }

    // ---- views ----

    /// How many times the token has issued. Burning does not lower it.
    pub fn mints(&self) -> (n: u64)
        ensures
            n == self.mints,
    {
        self.mints
    }

    /// The only address that can create supply.
    pub fn minter(&self) -> (r: Result<Address, AgUsdCoreError>)
        ensures
            r == (match self.minter {
                Some(a) => Ok::<Address, AgUsdCoreError>(a),
                None => Err(AgUsdCoreError::NotInitialized),
            }),
    {
        match self.minter {
            Some(a) => Ok(a),
            None => Err(AgUsdCoreError::NotInitialized),
        }
    }

    /// The admin, powerless over supply.
    pub fn admin(&self) -> (r: Result<Address, AgUsdCoreError>)
        ensures
            r == (match self.role.admin {
                Some(a) => Ok::<Address, AgUsdCoreError>(a),
                None => Err(AgUsdCoreError::NotInitialized),
            }),
    {
        match self.role.admin {
            Some(a) => Ok(a),
            None => Err(AgUsdCoreError::NotInitialized),
        }
    }

    // ---- the token itself ----

    /// What an address holds.
    pub fn balance(&self, id: Address) -> (n: i128)
        ensures
            n == self.token.holds(id),
    {
        self.token.balance(id)
    }

    /// Moves tokens, with the holder's authorization.
    pub fn transfer(
        &mut self,
        inv: &Invocation,
        from: Address,
        to: Address,
        amount: i128,
    ) -> (r: Result<Receipt<()>, Trap>)
        ensures
            old(self).token.transfer_step(final(self).token, *inv, from, to, amount, r),
            *final(self) == (AgUsdCore { token: final(self).token, ..*old(self) }),
            old(self).sound() ==> final(self).sound(),
    {
        self.token.transfer(inv, from, to, amount)
    }

    /// Moves tokens out of an allowance.
    pub fn transfer_from(
        &mut self,
        inv: &Invocation,
        spender: Address,
        from: Address,
        to: Address,
        amount: i128,
    ) -> (r: Result<Receipt<()>, Trap>)
        ensures
            old(self).token.transfer_from_step(final(self).token, *inv, spender, from, to, amount, r),
            *final(self) == (AgUsdCore { token: final(self).token, ..*old(self) }),
            old(self).sound() ==> final(self).sound(),
    {
        self.token.transfer_from(inv, spender, from, to, amount)
    }

    /// Grants an allowance.
    pub fn approve(
        &mut self,
        inv: &Invocation,
        from: Address,
        spender: Address,
        amount: i128,
        expiration_ledger: u32,
    ) -> (r: Result<Receipt<()>, Trap>)
        ensures
            old(self).token.approve_step(final(self).token, *inv, from, spender, amount, expiration_ledger, r),
            *final(self) == (AgUsdCore { token: final(self).token, ..*old(self) }),
            old(self).sound() ==> final(self).sound(),
    {
        self.token.approve(inv, from, spender, amount, expiration_ledger)
    }

    /// What `spender` may still spend of `from`'s balance.
    pub fn allowance(&self, inv: &Invocation, from: Address, spender: Address) -> (n: i128)
        ensures
            n == self.token.allowed(inv.sequence, from, spender),
    {
        self.token.allowance(inv, from, spender)
    }

    /// Destroys tokens, with the holder's authorization.
    pub fn burn(
        &mut self,
        inv: &Invocation,
        from: Address,
        amount: i128,
    ) -> (r: Result<Receipt<()>, Trap>)
        ensures
            old(self).token.burn_step(final(self).token, *inv, from, amount, r),
            *final(self) == (AgUsdCore { token: final(self).token, ..*old(self) }),
            old(self).sound() ==> final(self).sound(),
    {
        proof {
            if self.sound() {
                self.token.supply_covers_every_balance(from);
            }
        }
        self.token.burn(inv, from, amount)
    }

    /// Destroys tokens out of an allowance.
    pub fn burn_from(
        &mut self,
        inv: &Invocation,
        spender: Address,
        from: Address,
        amount: i128,
    ) -> (r: Result<Receipt<()>, Trap>)
        ensures
            old(self).token.burn_from_step(final(self).token, *inv, spender, from, amount, r),
            *final(self) == (AgUsdCore { token: final(self).token, ..*old(self) }),
            old(self).sound() ==> final(self).sound(),
    {
        proof {
            if self.sound() {
                self.token.supply_covers_every_balance(from);
            }
        }
        self.token.burn_from(inv, spender, from, amount)
    }

    /// The number of decimals.
    pub fn decimals(&self) -> (r: Result<u32, Trap>)
        ensures
            r == (match self.token.metadata {
                Some(m) => Ok::<u32, Trap>(m.decimal),
                None => Err(Trap::Absent),
            }),
    {
        self.token.decimals()
    }

    /// The name.
    pub fn name(&self) -> (r: Result<String, Trap>)
        ensures
            match r {
                Ok(name) => self.token.metadata is Some && name@ == self.token.metadata->0.name@,
                Err(t) => self.token.metadata is None && t == Trap::Absent,
            },
    {
        self.token.name()
    }

    /// The symbol.
    pub fn symbol(&self) -> (r: Result<String, Trap>)
        ensures
            match r {
                Ok(symbol) => {
                    &&& self.token.metadata is Some
                    &&& symbol@ == self.token.metadata->0.symbol@
                },
                Err(t) => self.token.metadata is None && t == Trap::Absent,
            },
    {
        self.token.symbol()
    }

    /// How many tokens there are.
    pub fn total_supply(&self) -> (n: i128)
        ensures
            n == self.token.supply,
    {
        self.token.total_supply()
    }
}

/// Once the token has issued, nobody can change its minter.
pub proof fn the_minter_is_frozen_by_the_first_mint(
    t: AgUsdCore,
    inv: Invocation,
    admin: Address,
)
    requires
        t.mints > 0,
    ensures
        t.set_minter_fault(inv, admin) is Some,
{
}

/// Supply is created only with the stored minter's authorization: whatever
/// else signed, the admin included, a mint without it is refused.
pub proof fn only_the_minter_creates_supply(
    t: AgUsdCore,
    inv: Invocation,
    to: Address,
    amount: i128,
)
    requires
        t.mint_fault(inv, to, amount) is None,
    ensures
        t.minter is Some,
        inv.signed(t.minter->0),
        amount > 0,
{
}

/// Supply is destroyed only with the holder's authorization, or with that of a
/// spender the holder granted an allowance to.
pub proof fn only_the_holder_or_its_spender_retires_supply(
    t: AgUsdCore,
    inv: Invocation,
    spender: Address,
    from: Address,
    amount: i128,
)
    ensures
        t.token.burn_trap(inv, from, amount) is None ==> inv.signed(from) && 0 <= amount
            <= t.token.holds(from),
        t.token.burn_from_trap(inv, spender, from, amount) is None ==> inv.signed(spender) && 0
            <= amount <= t.token.allowed(inv.sequence, from, spender),
{
}

} // verus!
