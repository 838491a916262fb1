//! The fungible token (SEP-41) that every token contract of the protocol
//! embeds: balances, allowances, supply and metadata.

use crate::address::{Address, Key};
use crate::host::{brings, Call, Effects, Event, Invocation, Receipt, Rent, Trap};
use crate::math::{fits, minus, plus};
use crate::table::{lemma_total_bounds, lemma_total_insert, total, Table};
use vstd::prelude::*;

verus! {

/// Ledgers per day at five seconds each.
pub const DAY_LEDGERS: u32 = 17_280;

/// How far ahead an instance entry is kept alive.
pub const INSTANCE_BUMP: u32 = 518_400;

/// An instance entry with at least this long to live is left alone.
pub const INSTANCE_LIFETIME: u32 = 501_120;

/// How far ahead a balance is kept alive.
pub const PERSIST_BUMP: u32 = 518_400;

/// A balance with at least this long to live is left alone.
pub const PERSIST_LIFETIME: u32 = 501_120;

/// What a token refuses.
#[derive(Clone, Copy, Debug, PartialEq, Eq, Structural)]
pub enum TokenError {
    InsufficientBalance,
    InsufficientAllowance,
    NegativeAmount,
    AllowanceExpired,
}

impl TokenError {
    /// The code the ledger reports.
    pub open spec fn number(self) -> u32 {
        match self {
            TokenError::InsufficientBalance => 1,
            TokenError::InsufficientAllowance => 2,
            TokenError::NegativeAmount => 3,
            TokenError::AllowanceExpired => 4,
        }
    }

    /// The code the ledger reports.
    pub fn code(self) -> (n: u32)
        ensures
            n == self.number(),
    {
        match self {
            TokenError::InsufficientBalance => 1,
            TokenError::InsufficientAllowance => 2,
            TokenError::NegativeAmount => 3,
            TokenError::AllowanceExpired => 4,
        }
    }
}

/// Whose tokens, and who may spend them.
#[derive(Clone, Copy, Debug, PartialEq, Eq, Structural, Hash)]
pub struct AllowanceDataKey {
    pub from: Address,
    pub spender: Address,
}

impl Key for AllowanceDataKey {
    open spec fn rank(self) -> int {
        self.from.rank()
            * 0x2_00000000_00000000_00000000_00000000_00000000_00000000_00000000_00000000int
            + self.spender.rank()
    }

    proof fn rank_is_injective(self, other: Self) {
        self.from.rank_is_injective(other.from);
        self.spender.rank_is_injective(other.spender);
    }

    fn precedes(&self, other: &Self) -> (b: bool) {
        if self.from == other.from {
            self.spender.precedes(&other.spender)
        } else {
            proof {
                if self.from.rank() == other.from.rank() {
                    self.from.rank_is_injective(other.from);
                }
            }
            self.from.precedes(&other.from)
        }
    }
}

/// How much may be spent, and through which ledger.
#[derive(Clone, Copy, Debug, PartialEq, Eq, Structural)]
pub struct AllowanceValue {
    pub amount: i128,
    pub expiration_ledger: u32,
}

/// A token's name, symbol and number of decimals.
#[derive(Clone, Debug)]
pub struct TokenMetadata {
    pub decimal: u32,
    pub name: String,
    pub symbol: String,
}

/// The storage of a token.
#[derive(Clone)]
pub struct Token {
    pub balances: Table<Address, i128>,
    pub allowances: Table<AllowanceDataKey, AllowanceValue>,
    pub supply: i128,
    pub metadata: Option<TokenMetadata>,
}

/// What an address holds in a book of balances.
pub open spec fn held(balances: Map<Address, i128>, who: Address) -> int {
    if balances.dom().contains(who) {
        balances[who] as int
    } else {
        0
    }
}

/// A book of balances after one holder's balance moved by an amount.
pub open spec fn moved(balances: Map<Address, i128>, who: Address, by: int) -> Map<Address, i128> {
    balances.insert(who, (held(balances, who) + by) as i128)
}

/// The sum of a book of balances.
pub open spec fn circulating(balances: Map<Address, i128>) -> int {
    total(balances, |who: Address, amount: i128| amount as int)
}

/// Moving one balance moves the sum of all by as much, and touches nobody else.
proof fn lemma_moved(balances: Map<Address, i128>, who: Address, by: int)
    requires
        balances.dom().finite(),
        fits(held(balances, who) + by),
    ensures
        circulating(moved(balances, who, by)) == circulating(balances) + by,
        moved(balances, who, by).dom().finite(),
        forall|a: Address|
            #[trigger] held(moved(balances, who, by), a) == held(balances, a) + (if a == who {
                by
            } else {
                0
            }),
{
    lemma_total_insert(
        balances,
        |who: Address, amount: i128| amount as int,
        who,
        (held(balances, who) + by) as i128,
    );
}

impl Token {
    /// The balance of an address.
    pub open spec fn holds(self, who: Address) -> int {
        held(self.balances@, who)
    }

    /// What `spender` may spend of `from`'s balance at a ledger.
    pub open spec fn allowed(self, sequence: u32, from: Address, spender: Address) -> int {
        let key = AllowanceDataKey { from, spender };
        if self.allowances@.dom().contains(key) && self.allowances@[key].expiration_ledger
            >= sequence {
            self.allowances@[key].amount as int
        } else {
            0
        }
    }

    /// The ledger through which `spender`'s allowance runs, or ledger zero
    /// where none was ever recorded.
    pub open spec fn runs_through(self, from: Address, spender: Address) -> u32 {
        let key = AllowanceDataKey { from, spender };
        if self.allowances@.dom().contains(key) {
            self.allowances@[key].expiration_ledger
        } else {
            0
        }
    }

    /// The books balance: nobody holds less than nothing, and the supply is
    /// what all holders hold together.
    pub open spec fn sound(self) -> bool {
        &&& forall|a: Address| #[trigger] held(self.balances@, a) >= 0
        &&& self.supply == circulating(self.balances@)
    }

    /// Nobody holds more than there is.
    pub proof fn supply_covers_every_balance(self, who: Address)
        requires
            self.sound(),
        ensures
            0 <= self.holds(who) <= self.supply,
    {
        self.balances.finite();
        let f = |who: Address, amount: i128| amount as int;
        assert forall|a: Address| #[trigger] self.balances@.dom().contains(a) implies f(
            a,
            self.balances@[a],
        ) >= 0 by {
            assert(self.holds(a) >= 0);
        }
        lemma_total_bounds(self.balances@, f, who);
        assert(self.holds(who) >= 0);
    }

    /// Two holders together hold no more than there is.
    pub proof fn supply_covers_two_balances(self, one: Address, two: Address)
        requires
            self.sound(),
            one != two,
        ensures
            self.holds(one) + self.holds(two) <= self.supply,
    {
        self.balances.finite();
        let f = |who: Address, amount: i128| amount as int;
        let rest = self.balances@.remove(one);
        assert forall|a: Address| #[trigger] rest.dom().contains(a) implies f(a, rest[a]) >= 0 by {
            assert(self.holds(a) >= 0);
        }
        lemma_total_bounds(rest, f, two);
        crate::table::lemma_total_remove(self.balances@, f, one);
        assert(self.holds(one) >= 0 && self.holds(two) >= 0);
    }

    /// A payment: `amount` leaves one balance and joins another.
    pub open spec fn pays(self, after: Token, from: Address, to: Address, amount: i128) -> bool {
        &&& amount >= 0
        &&& self.move_trap(from, to, amount as int) is None
        &&& after.balances@ == moved(moved(self.balances@, from, -amount), to, amount as int)
        &&& after.supply == self.supply
    }

    /// An issue: `amount` tokens come into being on one balance.
    pub open spec fn issues(self, after: Token, to: Address, amount: i128) -> bool {
        &&& self.mint_trap(to, amount) is None
        &&& after.balances@ == moved(self.balances@, to, amount as int)
        &&& after.supply == self.supply + amount
    }

    /// A retirement: `amount` tokens of one balance cease to be.
    pub open spec fn retires(self, after: Token, from: Address, amount: i128) -> bool {
        &&& self.burn_unchecked_trap(from, amount) is None
        &&& after.balances@ == moved(self.balances@, from, -amount)
        &&& after.supply == self.supply - amount
    }

    /// Each way of moving tokens is a payment, an issue or a retirement.
    pub proof fn every_movement_is_one_of_three(
        self,
        after: Token,
        inv: Invocation,
        spender: Address,
        from: Address,
        to: Address,
        amount: i128,
        d: Receipt<()>,
    )
        ensures
            self.transfer_step(after, inv, from, to, amount, Ok(d)) ==> self.pays(
                after,
                from,
                to,
                amount,
            ),
            self.transfer_from_step(after, inv, spender, from, to, amount, Ok(d)) ==> self.pays(
                after,
                from,
                to,
                amount,
            ),
            self.mint_step(after, to, amount, Ok(d)) ==> self.issues(after, to, amount),
            self.burn_step(after, inv, from, amount, Ok(d)) ==> self.retires(after, from, amount),
            self.burn_unchecked_step(after, from, amount, Ok(d)) ==> self.retires(
                after,
                from,
                amount,
            ),
            self.burn_from_step(after, inv, spender, from, amount, Ok(d)) ==> self.retires(
                after,
                from,
                amount,
            ),
    {
    }

    /// A payment brings every holder what the call for it says, and keeps the
    /// books balanced.
    pub proof fn a_payment_brings_what_it_says(
        self,
        after: Token,
        from: Address,
        to: Address,
        amount: i128,
        token: Address,
    )
        requires
            self.sound(),
            self.pays(after, from, to, amount),
        ensures
            after.sound(),
            forall|a: Address| #[trigger]
                after.holds(a) == self.holds(a) + brings(
                    Call::Transfer { token, from, to, amount },
                    token,
                    a,
                ),
    {
        self.balances.finite();
        assert(held(self.balances@, from) >= 0);
        lemma_moved(self.balances@, from, -amount);
        lemma_moved(moved(self.balances@, from, -amount), to, amount as int);
        assert forall|a: Address| #[trigger] held(after.balances@, a) >= 0 by {
            assert(held(self.balances@, a) >= 0);
        }
    }

    /// An issue brings every holder what the call for it says, and keeps the
    /// books balanced.
    pub proof fn an_issue_brings_what_it_says(
        self,
        after: Token,
        to: Address,
        amount: i128,
        token: Address,
    )
        requires
            self.sound(),
            self.issues(after, to, amount),
        ensures
            after.sound(),
            forall|a: Address| #[trigger]
                after.holds(a) == self.holds(a) + brings(
                    Call::Mint { token, to, amount },
                    token,
                    a,
                ),
    {
        self.balances.finite();
        lemma_moved(self.balances@, to, amount as int);
        assert forall|a: Address| #[trigger] held(after.balances@, a) >= 0 by {
            assert(held(self.balances@, a) >= 0);
        }
    }

    /// A retirement takes from every holder what the call for it says, and
    /// keeps the books balanced.
    pub proof fn a_retirement_takes_what_it_says(
        self,
        after: Token,
        from: Address,
        amount: i128,
        token: Address,
    )
        requires
            self.sound(),
            self.retires(after, from, amount),
        ensures
            after.sound(),
            forall|a: Address| #[trigger]
                after.holds(a) == self.holds(a) + brings(
                    Call::Burn { token, from, amount },
                    token,
                    a,
                ),
    {
        self.balances.finite();
        assert(held(self.balances@, from) >= 0);
        lemma_moved(self.balances@, from, -amount);
        assert forall|a: Address| #[trigger] held(after.balances@, a) >= 0 by {
            assert(held(self.balances@, a) >= 0);
        }
    }

    /// A token nobody has set up yet.
    pub fn empty() -> (t: Token)
        ensures
            t.balances@ == Map::<Address, i128>::empty(),
            t.allowances@ == Map::<AllowanceDataKey, AllowanceValue>::empty(),
            t.supply == 0,
            t.metadata is None,
            t.sound(),
    {
        let t = Token {
            balances: Table::new(),
            allowances: Table::new(),
            supply: 0,
            metadata: None,
        };
        assert(t.balances@.dom() =~= Set::empty());
        t
    }

    // ---- metadata ----

    /// Records the metadata.
    pub fn set_metadata(&mut self, decimal: u32, name: String, symbol: String)
        ensures
            *final(self) == (Token {
                metadata: Some(TokenMetadata { decimal, name, symbol }),
                ..*old(self)
            }),
    {
        self.metadata = Some(TokenMetadata { decimal, name, symbol });
    }

    /// The metadata, once set.
    pub fn read_metadata(&self) -> (r: Result<&TokenMetadata, Trap>)
        ensures
            match r {
                Ok(m) => self.metadata == Some(*m),
                Err(t) => self.metadata is None && t == Trap::Absent,
            },
    {
        match &self.metadata {
            Some(m) => Ok(m),
            None => Err(Trap::Absent),
        }
    }

    /// The number of decimals.
    pub fn decimals(&self) -> (r: Result<u32, Trap>)
        ensures
            r == (match self.metadata {
                Some(m) => Ok::<u32, Trap>(m.decimal),
                None => Err(Trap::Absent),
            }),
    {
        match self.read_metadata() {
            Ok(m) => Ok(m.decimal),
            Err(t) => Err(t),
        }
    }

    /// The name.
    pub fn name(&self) -> (r: Result<String, Trap>)
        ensures
            match r {
                Ok(name) => self.metadata is Some && name@ == self.metadata->0.name@,
                Err(t) => self.metadata is None && t == Trap::Absent,
            },
    {
        match self.read_metadata() {
            Ok(m) => Ok(m.name.clone()),
            Err(t) => Err(t),
        }
    }

    /// The symbol.
    pub fn symbol(&self) -> (r: Result<String, Trap>)
        ensures
            match r {
                Ok(symbol) => self.metadata is Some && symbol@ == self.metadata->0.symbol@,
                Err(t) => self.metadata is None && t == Trap::Absent,
            },
    {
        match self.read_metadata() {
            Ok(m) => Ok(m.symbol.clone()),
            Err(t) => Err(t),
        }
    }

    /// How many tokens there are.
    pub fn total_supply(&self) -> (n: i128)
        ensures
            n == self.supply,
    {
        self.supply
    }

    // ---- balances ----

    /// What an address holds.
    pub fn balance(&self, who: Address) -> (n: i128)
        ensures
            n == self.holds(who),
    {
        match self.balances.get(who) {
            Some(b) => b,
            None => 0,
        }
    }

    /// Why `from` cannot part with `amount` to `to`.
    pub open spec fn move_trap(self, from: Address, to: Address, amount: int) -> Option<Trap> {
        if self.holds(from) < amount {
            Some(Trap::Token(TokenError::InsufficientBalance))
        } else if !fits(held(moved(self.balances@, from, -amount), to) + amount) {
            Some(Trap::Overflow)
        } else {
            None
        }
    }

    /// Moves `amount` from one balance to another.
    fn move_balance(&mut self, from: Address, to: Address, amount: i128) -> (r: Result<(), Trap>)
        requires
            amount >= 0,
        ensures
            match r {
                Ok(_) => {
                    &&& old(self).move_trap(from, to, amount as int) is None
                    &&& final(self).balances@ == moved(
                        moved(old(self).balances@, from, -amount),
                        to,
                        amount as int,
                    )
                    &&& *final(self) == (Token { balances: final(self).balances, ..*old(self) })
                },
                Err(t) => {
                    &&& old(self).move_trap(from, to, amount as int) == Some(t)
                    &&& *final(self) == *old(self)
                },
            },
            old(self).sound() ==> final(self).sound(),
    {
        let available: i128 = self.balance(from);
        if available < amount {
            return Err(Trap::Token(TokenError::InsufficientBalance));
        }
        let left: i128 = match minus(available, amount) {
            Ok(z) => z,
            Err(t) => {
                return Err(t);
            },
        };
        let before: i128 = if from == to {
            left
        } else {
            self.balance(to)
        };
        let after: i128 = match plus(before, amount) {
            Ok(z) => z,
            Err(t) => {
                return Err(t);
            },
        };
        self.balances.set(from, left);
        self.balances.set(to, after);
        proof {
            let b = old(self).balances@;
            old(self).balances.finite();
            lemma_moved(b, from, -amount);
            lemma_moved(moved(b, from, -amount), to, amount as int);
            assert(self.balances@ =~= moved(moved(b, from, -amount), to, amount as int));
            if old(self).sound() {
                assert forall|a: Address| #[trigger] held(self.balances@, a) >= 0 by {
                    assert(held(old(self).balances@, a) >= 0);
                }
            }
        }
        Ok(())
    }

    // ---- allowances ----

    /// What `spender` may still spend of `from`'s balance.
    pub fn allowance(&self, inv: &Invocation, from: Address, spender: Address) -> (n: i128)
        ensures
            n == self.allowed(inv.sequence, from, spender),
    {
        match self.allowances.get(AllowanceDataKey { from, spender }) {
            Some(v) => if v.expiration_ledger < inv.sequence {
                0
            } else {
                v.amount
            },
            None => 0,
        }
    }

    /// Why `approve` is refused.
    pub open spec fn approve_trap(
        inv: Invocation,
        from: Address,
        amount: i128,
        expiration_ledger: u32,
    ) -> Option<Trap> {
        if !inv.signed(from) {
            Some(Trap::Unauthorized)
        } else if amount < 0 {
            Some(Trap::Token(TokenError::NegativeAmount))
        } else if amount > 0 && expiration_ledger < inv.sequence {
            Some(Trap::Token(TokenError::AllowanceExpired))
        } else {
            None
        }
    }

    /// What approving an allowance does and answers.
    pub open spec fn approve_step(
        self,
        after: Token,
        inv: Invocation,
        from: Address,
        spender: Address,
        amount: i128,
        expiration_ledger: u32,
        r: Result<Receipt<()>, Trap>,
    ) -> bool {
        match r {
            Ok(d) => {
                &&& Token::approve_trap(inv, from, amount, expiration_ledger) is None
                &&& after.allowances@ == self.allowances@.insert(
                    AllowanceDataKey { from, spender },
                    AllowanceValue { amount, expiration_ledger },
                )
                &&& after == (Token { allowances: after.allowances, ..self })
                &&& d.gives(
                    (),
                    seq![],
                    seq![Event::Approve { from, spender, amount, expiration_ledger }],
                    if amount > 0 && expiration_ledger > inv.sequence {
                        seq![
                            Rent::Allowance {
                                from,
                                spender,
                                ledgers: (expiration_ledger - inv.sequence) as u32,
                            },
                        ]
                    } else {
                        seq![]
                    },
                )
            },
            Err(t) => {
                &&& Token::approve_trap(inv, from, amount, expiration_ledger) == Some(t)
                &&& after == self
            },
        }
    }

    /// Lets `spender` spend up to `amount` of `from`'s balance through a
    /// ledger.
    pub fn approve(
        &mut self,
        inv: &Invocation,
        from: Address,
        spender: Address,
        amount: i128,
        expiration_ledger: u32,
    ) -> (r: Result<Receipt<()>, Trap>)
        ensures
            old(self).approve_step(*final(self), *inv, from, spender, amount, expiration_ledger, r),
    {
        if !inv.authorized(from) {
            return Err(Trap::Unauthorized);
        }
        if amount < 0 {
            return Err(Trap::Token(TokenError::NegativeAmount));
        }
        if amount > 0 && expiration_ledger < inv.sequence {
            return Err(Trap::Token(TokenError::AllowanceExpired));
        }
        self.allowances.set(
            AllowanceDataKey { from, spender },
            AllowanceValue { amount, expiration_ledger },
        );
        let mut effects = Effects::none();
        if amount > 0 && expiration_ledger > inv.sequence {
            effects =
            effects.keep(
                Rent::Allowance { from, spender, ledgers: expiration_ledger - inv.sequence },
            );
        }
        effects = effects.event(Event::Approve { from, spender, amount, expiration_ledger });
        Ok(Receipt { value: (), effects })
    }

    /// The allowances after `spender` spent `amount` of what it was allowed.
    pub open spec fn allowances_less(
        self,
        sequence: u32,
        from: Address,
        spender: Address,
        amount: int,
    ) -> Map<AllowanceDataKey, AllowanceValue> {
        self.allowances@.insert(
            AllowanceDataKey { from, spender },
            AllowanceValue {
                amount: (self.allowed(sequence, from, spender) - amount) as i128,
                expiration_ledger: self.runs_through(from, spender),
            },
        )
    }

    /// Takes `amount` off an allowance that covers it.
    fn spend_allowance(&mut self, inv: &Invocation, from: Address, spender: Address, amount: i128)
        requires
            0 <= amount <= old(self).allowed(inv.sequence, from, spender),
        ensures
            final(self).allowances@ == old(self).allowances_less(
                inv.sequence,
                from,
                spender,
                amount as int,
            ),
            *final(self) == (Token { allowances: final(self).allowances, ..*old(self) }),
    {
        let current: i128 = self.allowance(inv, from, spender);
        let key = AllowanceDataKey { from, spender };
        let expiration_ledger: u32 = match self.allowances.get(key) {
            Some(v) => v.expiration_ledger,
            None => 0,
        };
        self.allowances.set(key, AllowanceValue { amount: current - amount, expiration_ledger });
    }

    // ---- movements ----

    /// Why `transfer` is refused.
    pub open spec fn transfer_trap(
        self,
        inv: Invocation,
        from: Address,
        to: Address,
        amount: i128,
    ) -> Option<Trap> {
        if !inv.signed(from) {
            Some(Trap::Unauthorized)
        } else if amount < 0 {
            Some(Trap::Token(TokenError::NegativeAmount))
        } else {
            self.move_trap(from, to, amount as int)
        }
    }

    /// What a transfer does and answers.
    pub open spec fn transfer_step(
        self,
        after: Token,
        inv: Invocation,
        from: Address,
        to: Address,
        amount: i128,
        r: Result<Receipt<()>, Trap>,
    ) -> bool {
        match r {
            Ok(d) => {
                &&& self.transfer_trap(inv, from, to, amount) is None
                &&& after.balances@ == moved(
                    moved(self.balances@, from, -amount),
                    to,
                    amount as int,
                )
                &&& after == (Token { balances: after.balances, ..self })
                &&& d.gives(
                    (),
                    seq![],
                    seq![Event::Transfer { from, to, amount }],
                    seq![Rent::Instance, Rent::Balance { of: from }, Rent::Balance { of: to }],
                )
            },
            Err(t) => {
                &&& self.transfer_trap(inv, from, to, amount) == Some(t)
                &&& after == self
            },
        }
    }

    /// Moves `amount` from one balance to another, with the holder's
    /// authorization.
    pub fn transfer(&mut self, inv: &Invocation, from: Address, to: Address, amount: i128) -> (r:
        Result<Receipt<()>, Trap>)
        ensures
            old(self).transfer_step(*final(self), *inv, from, to, amount, r),
            old(self).sound() ==> final(self).sound(),
    {
        if !inv.authorized(from) {
            return Err(Trap::Unauthorized);
        }
        if amount < 0 {
            return Err(Trap::Token(TokenError::NegativeAmount));
        }
        match self.move_balance(from, to, amount) {
            Ok(_) => {},
            Err(t) => {
                return Err(t);
            },
        }
        Ok(
            Receipt {
                value: (),
                effects: Effects::none().keep(Rent::Instance).keep(
                    Rent::Balance { of: from },
                ).keep(Rent::Balance { of: to }).event(Event::Transfer { from, to, amount }),
            },
        )
    }

    /// Why `transfer_from` is refused.
    pub open spec fn transfer_from_trap(
        self,
        inv: Invocation,
        spender: Address,
        from: Address,
        to: Address,
        amount: i128,
    ) -> Option<Trap> {
        if !inv.signed(spender) {
            Some(Trap::Unauthorized)
        } else if amount < 0 {
            Some(Trap::Token(TokenError::NegativeAmount))
        } else if self.allowed(inv.sequence, from, spender) < amount {
            Some(Trap::Token(TokenError::InsufficientAllowance))
        } else {
            self.move_trap(from, to, amount as int)
        }
    }

    /// What a transfer out of an allowance does and answers.
    pub open spec fn transfer_from_step(
        self,
        after: Token,
        inv: Invocation,
        spender: Address,
        from: Address,
        to: Address,
        amount: i128,
        r: Result<Receipt<()>, Trap>,
    ) -> bool {
        match r {
            Ok(d) => {
                &&& self.transfer_from_trap(inv, spender, from, to, amount) is None
                &&& after.balances@ == moved(
                    moved(self.balances@, from, -amount),
                    to,
                    amount as int,
                )
                &&& after.allowances@ == self.allowances_less(
                    inv.sequence,
                    from,
                    spender,
                    amount as int,
                )
                &&& after == (Token {
                    balances: after.balances,
                    allowances: after.allowances,
                    ..self
                })
                &&& d.gives(
                    (),
                    seq![],
                    seq![Event::Transfer { from, to, amount }],
                    seq![Rent::Instance, Rent::Balance { of: from }, Rent::Balance { of: to }],
                )
            },
            Err(t) => {
                &&& self.transfer_from_trap(inv, spender, from, to, amount) == Some(t)
                &&& after == self
            },
        }
    }

    /// Moves `amount` from one balance to another out of the spender's
    /// allowance.
    pub fn transfer_from(
        &mut self,
        inv: &Invocation,
        spender: Address,
        from: Address,
        to: Address,
        amount: i128,
    ) -> (r: Result<Receipt<()>, Trap>)
        ensures
            old(self).transfer_from_step(*final(self), *inv, spender, from, to, amount, r),
            old(self).sound() ==> final(self).sound(),
    {
        if !inv.authorized(spender) {
            return Err(Trap::Unauthorized);
        }
        if amount < 0 {
            return Err(Trap::Token(TokenError::NegativeAmount));
        }
        if self.allowance(inv, from, spender) < amount {
            return Err(Trap::Token(TokenError::InsufficientAllowance));
        }
        match self.move_balance(from, to, amount) {
            Ok(_) => {},
            Err(t) => {
                return Err(t);
            },
        }
        self.spend_allowance(inv, from, spender, amount);
        Ok(
            Receipt {
                value: (),
                effects: Effects::none().keep(Rent::Instance).keep(
                    Rent::Balance { of: from },
                ).keep(Rent::Balance { of: to }).event(Event::Transfer { from, to, amount }),
            },
        )
    }

    /// Why `burn_unchecked` is refused.
    pub open spec fn burn_unchecked_trap(self, from: Address, amount: i128) -> Option<Trap> {
        if amount < 0 {
            Some(Trap::Token(TokenError::NegativeAmount))
        } else if self.holds(from) < amount {
            Some(Trap::Token(TokenError::InsufficientBalance))
        } else if !fits(self.supply - amount) {
            Some(Trap::Overflow)
        } else {
            None
        }
    }

    /// What destroying part of a balance does and answers.
    pub open spec fn burn_unchecked_step(
        self,
        after: Token,
        from: Address,
        amount: i128,
        r: Result<Receipt<()>, Trap>,
    ) -> bool {
        match r {
            Ok(d) => {
                &&& self.burn_unchecked_trap(from, amount) is None
                &&& after.balances@ == moved(self.balances@, from, -amount)
                &&& after == (Token {
                    balances: after.balances,
                    supply: (self.supply - amount) as i128,
                    ..self
                })
                &&& d.gives(
                    (),
                    seq![],
                    seq![Event::Burn { from, amount }],
                    seq![Rent::Instance, Rent::Balance { of: from }],
                )
            },
            Err(t) => {
                &&& self.burn_unchecked_trap(from, amount) == Some(t)
                &&& after == self
            },
        }
    }

    /// Destroys `amount` of a balance. For callers in the same contract frame
    /// that have already authorized the enclosing call.
    pub fn burn_unchecked(&mut self, from: Address, amount: i128) -> (r: Result<
        Receipt<()>,
        Trap,
    >)
        ensures
            old(self).burn_unchecked_step(*final(self), from, amount, r),
            old(self).sound() ==> final(self).sound(),
    {
        if amount < 0 {
            return Err(Trap::Token(TokenError::NegativeAmount));
        }
        let available: i128 = self.balance(from);
        if available < amount {
            return Err(Trap::Token(TokenError::InsufficientBalance));
        }
        let supply: i128 = match minus(self.supply, amount) {
            Ok(z) => z,
            Err(t) => {
                return Err(t);
            },
        };
        self.balances.set(from, available - amount);
        self.supply = supply;
        proof {
            old(self).balances.finite();
            lemma_moved(old(self).balances@, from, -amount);
            if old(self).sound() {
                assert forall|a: Address| #[trigger] held(self.balances@, a) >= 0 by {
                    assert(held(old(self).balances@, a) >= 0);
                }
            }
        }
        Ok(
            Receipt {
                value: (),
                effects: Effects::none().keep(Rent::Instance).keep(
                    Rent::Balance { of: from },
                ).event(Event::Burn { from, amount }),
            },
        )
    }

    /// Why `burn` is refused.
    pub open spec fn burn_trap(self, inv: Invocation, from: Address, amount: i128) -> Option<Trap> {
        if !inv.signed(from) {
            Some(Trap::Unauthorized)
        } else {
            self.burn_unchecked_trap(from, amount)
        }
    }

    /// What a burn does and answers.
    pub open spec fn burn_step(
        self,
        after: Token,
        inv: Invocation,
        from: Address,
        amount: i128,
        r: Result<Receipt<()>, Trap>,
    ) -> bool {
        match r {
            Ok(d) => {
                &&& self.burn_trap(inv, from, amount) is None
                &&& after.balances@ == moved(self.balances@, from, -amount)
                &&& after == (Token {
                    balances: after.balances,
                    supply: (self.supply - amount) as i128,
                    ..self
                })
                &&& d.gives(
                    (),
                    seq![],
                    seq![Event::Burn { from, amount }],
                    seq![Rent::Instance, Rent::Balance { of: from }],
                )
            },
            Err(t) => {
                &&& self.burn_trap(inv, from, amount) == Some(t)
                &&& after == self
            },
        }
    }

    /// Destroys `amount` of a balance, with the holder's authorization.
    pub fn burn(&mut self, inv: &Invocation, from: Address, amount: i128) -> (r: Result<
        Receipt<()>,
        Trap,
    >)
        ensures
            old(self).burn_step(*final(self), *inv, from, amount, r),
            old(self).sound() ==> final(self).sound(),
    {
        if !inv.authorized(from) {
            return Err(Trap::Unauthorized);
        }
        self.burn_unchecked(from, amount)
    }

    /// Why `burn_from` is refused.
    pub open spec fn burn_from_trap(
        self,
        inv: Invocation,
        spender: Address,
        from: Address,
        amount: i128,
    ) -> Option<Trap> {
        if !inv.signed(spender) {
            Some(Trap::Unauthorized)
        } else if amount < 0 {
            Some(Trap::Token(TokenError::NegativeAmount))
        } else if self.allowed(inv.sequence, from, spender) < amount {
            Some(Trap::Token(TokenError::InsufficientAllowance))
        } else {
            self.burn_unchecked_trap(from, amount)
        }
    }

    /// What a burn out of an allowance does and answers.
    pub open spec fn burn_from_step(
        self,
        after: Token,
        inv: Invocation,
        spender: Address,
        from: Address,
        amount: i128,
        r: Result<Receipt<()>, Trap>,
    ) -> bool {
        match r {
            Ok(d) => {
                &&& self.burn_from_trap(inv, spender, from, amount) is None
                &&& after.balances@ == moved(self.balances@, from, -amount)
                &&& after.allowances@ == self.allowances_less(
                    inv.sequence,
                    from,
                    spender,
                    amount as int,
                )
                &&& after == (Token {
                    balances: after.balances,
                    allowances: after.allowances,
                    supply: (self.supply - amount) as i128,
                    ..self
                })
                &&& d.gives(
                    (),
                    seq![],
                    seq![Event::Burn { from, amount }],
                    seq![Rent::Instance, Rent::Balance { of: from }],
                )
            },
            Err(t) => {
                &&& self.burn_from_trap(inv, spender, from, amount) == Some(t)
                &&& after == self
            },
        }
    }

    /// Destroys `amount` of a balance out of the spender's allowance.
    pub fn burn_from(
        &mut self,
        inv: &Invocation,
        spender: Address,
        from: Address,
        amount: i128,
    ) -> (r: Result<Receipt<()>, Trap>)
        ensures
            old(self).burn_from_step(*final(self), *inv, spender, from, amount, r),
            old(self).sound() ==> final(self).sound(),
    {
        if !inv.authorized(spender) {
            return Err(Trap::Unauthorized);
        }
        if amount < 0 {
            return Err(Trap::Token(TokenError::NegativeAmount));
        }
        if self.allowance(inv, from, spender) < amount {
            return Err(Trap::Token(TokenError::InsufficientAllowance));
        }
        let d = match self.burn_unchecked(from, amount) {
            Ok(d) => d,
            Err(t) => {
                return Err(t);
            },
        };
        self.spend_allowance(inv, from, spender, amount);
        Ok(d)
    }

    /// Why `mint` is refused.
    pub open spec fn mint_trap(self, to: Address, amount: i128) -> Option<Trap> {
        if amount < 0 {
            Some(Trap::Token(TokenError::NegativeAmount))
        } else if !fits(self.holds(to) + amount) || !fits(self.supply + amount) {
            Some(Trap::Overflow)
        } else {
            None
        }
    }

    /// What a mint does and answers.
    pub open spec fn mint_step(
        self,
        after: Token,
        to: Address,
        amount: i128,
        r: Result<Receipt<()>, Trap>,
    ) -> bool {
        match r {
            Ok(d) => {
                &&& self.mint_trap(to, amount) is None
                &&& after.balances@ == moved(self.balances@, to, amount as int)
                &&& after == (Token {
                    balances: after.balances,
                    supply: (self.supply + amount) as i128,
                    ..self
                })
                &&& d.gives(
                    (),
                    seq![],
                    seq![Event::Mint { to, amount }],
                    seq![Rent::Instance, Rent::Balance { of: to }],
                )
            },
            Err(t) => {
                &&& self.mint_trap(to, amount) == Some(t)
                &&& after == self
            },
        }
    }

    /// Creates `amount` tokens. Who may is the embedding contract's business.
    pub fn mint(&mut self, to: Address, amount: i128) -> (r: Result<Receipt<()>, Trap>)
        ensures
            old(self).mint_step(*final(self), to, amount, r),
            old(self).sound() ==> final(self).sound(),
    {
        if amount < 0 {
            return Err(Trap::Token(TokenError::NegativeAmount));
        }
        let after: i128 = match plus(self.balance(to), amount) {
            Ok(z) => z,
            Err(t) => {
                return Err(t);
            },
        };
        let supply: i128 = match plus(self.supply, amount) {
            Ok(z) => z,
            Err(t) => {
                return Err(t);
            },
        };
        self.balances.set(to, after);
        self.supply = supply;
        proof {
            old(self).balances.finite();
            lemma_moved(old(self).balances@, to, amount as int);
            if old(self).sound() {
                assert forall|a: Address| #[trigger] held(self.balances@, a) >= 0 by {
                    assert(held(old(self).balances@, a) >= 0);
                }
            }
        }
        Ok(
            Receipt {
                value: (),
                effects: Effects::none().keep(Rent::Instance).keep(Rent::Balance { of: to }).event(
                    Event::Mint { to, amount },
                ),
            },
        )
    }
}

} // verus!
