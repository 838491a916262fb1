//! A mock USDC with an open faucet, the base asset of a demonstration.

use crate::address::Address;
use crate::host::{Effects, Invocation, Receipt, Rent, Trap};
use crate::token::{AllowanceDataKey, AllowanceValue, Token, TokenMetadata};
use vstd::prelude::*;

verus! {

/// The most one faucet call gives: a hundred thousand at seven decimals.
pub const FAUCET_CAP: i128 = 1_000_000_000_000;

/// The storage of the mock.
#[derive(Clone)]
pub struct MockUsdc {
    pub admin: Option<Address>,
    pub token: Token,
}

impl MockUsdc {
    /// What every call keeps: sound books.
    pub open spec fn sound(self) -> bool {
        self.token.sound()
    }

    /// A token nobody has set up yet.
    pub fn empty() -> (m: MockUsdc)
        ensures
            m.admin is None,
            m.token.balances@ == Map::<Address, i128>::empty(),
            m.token.allowances@ == Map::<AllowanceDataKey, AllowanceValue>::empty(),
            m.token.supply == 0,
            m.token.metadata is None,
            m.sound(),
    {
        MockUsdc { admin: None, token: Token::empty() }
    }

    /// Records the admin and the metadata.
    pub fn initialize(&mut self, admin: Address, decimal: u32, name: String, symbol: String) -> (d:
        Receipt<()>)
        ensures
            *final(self) == (MockUsdc {
                admin: Some(admin),
                token: Token {
                    metadata: Some(TokenMetadata { decimal, name, symbol }),
                    ..old(self).token
                },
            }),
            d.gives((), seq![], seq![], seq![Rent::Instance]),
            old(self).sound() ==> final(self).sound(),
    {
        self.admin = Some(admin);
        self.token.set_metadata(decimal, name, symbol);
        Receipt { value: (), effects: Effects::none().keep(Rent::Instance) }
    }

    /// What `faucet` answers, and what it leaves behind.
    pub open spec fn faucet_step(
        self,
        after: MockUsdc,
        to: Address,
        amount: i128,
        r: Result<Receipt<()>, Trap>,
    ) -> bool {
        &&& 0 < amount <= FAUCET_CAP ==> self.token.mint_step(after.token, to, amount, r)
        &&& !(0 < amount <= FAUCET_CAP) ==> r == Err::<Receipt<()>, Trap>(Trap::BadArgument)
            && after.token == self.token
        &&& after == (MockUsdc { token: after.token, ..self })
    }

    /// Gives anyone up to [`FAUCET_CAP`].
    pub fn faucet(&mut self, to: Address, amount: i128) -> (r: Result<Receipt<()>, Trap>)
        ensures
            old(self).faucet_step(*final(self), to, amount, r),
            old(self).sound() ==> final(self).sound(),
    {
        if amount <= 0 || amount > FAUCET_CAP {
            return Err(Trap::BadArgument);
        }
        self.token.mint(to, amount)
    }

    /// Why `mint` is refused to its caller.
    pub open spec fn mint_denial(self, inv: Invocation) -> Option<Trap> {
        match self.admin {
            None => Some(Trap::Absent),
            Some(admin) => if !inv.signed(admin) {
                Some(Trap::Unauthorized)
            } else {
                None
            },
        }
    }

    /// What `mint` answers, and what it leaves behind.
    pub open spec fn mint_step(
        self,
        after: MockUsdc,
        inv: Invocation,
        to: Address,
        amount: i128,
        r: Result<Receipt<()>, Trap>,
    ) -> bool {
        &&& match self.mint_denial(inv) {
            None => self.token.mint_step(after.token, to, amount, r),
            Some(t) => r == Err::<Receipt<()>, Trap>(t) && after.token == self.token,
        }
        &&& after == (MockUsdc { token: after.token, ..self })
    }

    /// Mints without a cap, with the admin's authorization.
    pub fn mint(&mut self, inv: &Invocation, to: Address, amount: i128) -> (r: Result<
        Receipt<()>,
        Trap,
    >)
        ensures
            old(self).mint_step(*final(self), *inv, to, amount, r),
            old(self).sound() ==> final(self).sound(),
    {
        let admin: Address = match self.admin {
            Some(a) => a,
            None => {
                return Err(Trap::Absent);
            },
        };
        if !inv.authorized(admin) {
            return Err(Trap::Unauthorized);
        }
        self.token.mint(to, amount)
    }

    /// The admin.
    pub fn admin(&self) -> (r: Result<Address, Trap>)
        ensures
            r == (match self.admin {
                Some(a) => Ok::<Address, Trap>(a),
                None => Err(Trap::Absent),
            }),
    {
        match self.admin {
            Some(a) => Ok(a),
            None => Err(Trap::Absent),
        }
    }

    // ---- the token itself ----

    /// What an address holds.
    pub fn balance(&self, id: Address) -> (n: i128)
        ensures
            n == self.token.holds(id),
    {
        self.token.balance(id)
    }

    /// Moves tokens, with the holder's authorization.
    pub fn transfer(
        &mut self,
        inv: &Invocation,
        from: Address,
        to: Address,
        amount: i128,
    ) -> (r: Result<Receipt<()>, Trap>)
        ensures
            old(self).token.transfer_step(final(self).token, *inv, from, to, amount, r),
            *final(self) == (MockUsdc { token: final(self).token, ..*old(self) }),
            old(self).sound() ==> final(self).sound(),
    {
        self.token.transfer(inv, from, to, amount)
    }

    /// Moves tokens out of an allowance.
    pub fn transfer_from(
        &mut self,
        inv: &Invocation,
        spender: Address,
        from: Address,
        to: Address,
        amount: i128,
    ) -> (r: Result<Receipt<()>, Trap>)
        ensures
            old(self).token.transfer_from_step(final(self).token, *inv, spender, from, to, amount, r),
            *final(self) == (MockUsdc { token: final(self).token, ..*old(self) }),
            old(self).sound() ==> final(self).sound(),
    {
        self.token.transfer_from(inv, spender, from, to, amount)
    }

    /// Grants an allowance.
    pub fn approve(
        &mut self,
        inv: &Invocation,
        from: Address,
        spender: Address,
        amount: i128,
        expiration_ledger: u32,
    ) -> (r: Result<Receipt<()>, Trap>)
        ensures
            old(self).token.approve_step(final(self).token, *inv, from, spender, amount, expiration_ledger, r),
            *final(self) == (MockUsdc { token: final(self).token, ..*old(self) }),
            old(self).sound() ==> final(self).sound(),
    {
        self.token.approve(inv, from, spender, amount, expiration_ledger)
    }

    /// What `spender` may still spend of `from`'s balance.
    pub fn allowance(&self, inv: &Invocation, from: Address, spender: Address) -> (n: i128)
        ensures
            n == self.token.allowed(inv.sequence, from, spender),
    {
        self.token.allowance(inv, from, spender)
    }

    /// Destroys tokens, with the holder's authorization.
    pub fn burn(
        &mut self,
        inv: &Invocation,
        from: Address,
        amount: i128,
    ) -> (r: Result<Receipt<()>, Trap>)
        ensures
            old(self).token.burn_step(final(self).token, *inv, from, amount, r),
            *final(self) == (MockUsdc { token: final(self).token, ..*old(self) }),
            old(self).sound() ==> final(self).sound(),
    {
        self.token.burn(inv, from, amount)
    }

    /// Destroys tokens out of an allowance.
    pub fn burn_from(
        &mut self,
        inv: &Invocation,
        spender: Address,
        from: Address,
        amount: i128,
    ) -> (r: Result<Receipt<()>, Trap>)
        ensures
            old(self).token.burn_from_step(final(self).token, *inv, spender, from, amount, r),
            *final(self) == (MockUsdc { token: final(self).token, ..*old(self) }),
            old(self).sound() ==> final(self).sound(),
    {
        self.token.burn_from(inv, spender, from, amount)
    }

    /// The number of decimals.
    pub fn decimals(&self) -> (r: Result<u32, Trap>)
        ensures
            r == (match self.token.metadata {
                Some(m) => Ok::<u32, Trap>(m.decimal),
                None => Err(Trap::Absent),
            }),
    {
        self.token.decimals()
    }

    /// The name.
    pub fn name(&self) -> (r: Result<String, Trap>)
        ensures
            match r {
                Ok(name) => self.token.metadata is Some && name@ == self.token.metadata->0.name@,
                Err(t) => self.token.metadata is None && t == Trap::Absent,
            },
    {
        self.token.name()
    }

    /// The symbol.
    pub fn symbol(&self) -> (r: Result<String, Trap>)
        ensures
            match r {
                Ok(symbol) => {
                    &&& self.token.metadata is Some
                    &&& symbol@ == self.token.metadata->0.symbol@
                },
                Err(t) => self.token.metadata is None && t == Trap::Absent,
            },
    {
        self.token.symbol()
    }

    /// How many tokens there are.
    pub fn total_supply(&self) -> (n: i128)
        ensures
            n == self.token.supply,
    {
        self.token.total_supply()
    }
}

} // verus!
