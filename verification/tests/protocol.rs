#![allow(dead_code)]
//! The contracts together, on a small in-memory ledger.
//!
//! [`Env`] keeps the contracts' storage, runs the calls that their methods ask
//! for, and takes everything back where one of them fails.

use ausd_protocol::address::{Address, Symbol};
use ausd_protocol::agusd::{Action, AgUsd, AgUsdError, Quote, Reply, Stage, Target, MIN_ALLOC};
use ausd_protocol::agusd_core::{AgUsdCore, AgUsdCoreError};
use ausd_protocol::engine::{AllocationEngine, Caps, EngineError, Pool, Wiring};
use ausd_protocol::etherfuse;
use ausd_protocol::etherfuse::EtherfuseAdapter;
use ausd_protocol::host::{Call, Effects, Event, Fault, Invocation, InvokeError, Receipt, Rent, Trap};
use ausd_protocol::hostile::HostileEngine;
use ausd_protocol::mock_usdc::MockUsdc;
use ausd_protocol::oracle;
use ausd_protocol::oracle::{OracleAdapter, OracleError};
use ausd_protocol::private_credit;
use ausd_protocol::private_credit::PrivateCreditAdapter;
use ausd_protocol::staking::{Allocation, Pending, Staking, StakingError, ONE, PENDING_BUMP, PENDING_LIFETIME};
use ausd_protocol::table::Table;
use ausd_protocol::token::TokenError;
use ausd_protocol::vault::{Claim, ClaimStatus, Vault, VaultError, MIN_WITHDRAWAL};
use std::cell::RefCell;
use std::rc::Rc;

/// 1 USDC, or 1 agUSD, at seven decimals.
const USDC: i128 = 10_000_000;
const UNIT: i128 = 10_000_000;
const T0: u64 = 1_800_000_000;

/// A contract error that has a number.
trait Numbered: std::fmt::Debug {
    fn number(&self) -> u32;
}

impl Numbered for AgUsdCoreError {
    fn number(&self) -> u32 {
        self.code()
    }
}

impl Numbered for VaultError {
    fn number(&self) -> u32 {
        self.code()
    }
}

impl Numbered for EngineError {
    fn number(&self) -> u32 {
        self.code()
    }
}

impl Numbered for private_credit::AdapterError {
    fn number(&self) -> u32 {
        self.code()
    }
}

impl Numbered for etherfuse::AdapterError {
    fn number(&self) -> u32 {
        self.code()
    }
}

impl Numbered for OracleError {
    fn number(&self) -> u32 {
        self.code()
    }
}

impl Numbered for StakingError {
    fn number(&self) -> u32 {
        self.code()
    }
}

impl Numbered for AgUsdError {
    fn number(&self) -> u32 {
        self.code()
    }
}

/// A contract with no errors of its own.
#[derive(Clone, Copy, Debug, PartialEq, Eq)]
enum Plain {}

impl Numbered for Plain {
    fn number(&self) -> u32 {
        0
    }
}

/// What a failed call looks like to the contract that made it.
fn seen_from_outside<E: Numbered>(f: Fault<E>) -> InvokeError {
    match f {
        Fault::Error(e) => InvokeError::Contract(e.number()),
        Fault::Trap(Trap::Token(t)) => InvokeError::Contract(t.code()),
        Fault::Trap(Trap::Callee(e)) => e,
        Fault::Trap(_) => InvokeError::Abort,
    }
}

/// The answer of a call that was not supposed to fail.
fn expect<T, E: Numbered>(r: Result<T, Fault<E>>) -> T {
    match r {
        Ok(v) => v,
        Err(Fault::Error(e)) => panic!("#{} {:?}", e.number(), e),
        Err(Fault::Trap(t)) => panic!("{:?}", t),
    }
}

fn trapped<T, E>(r: Result<T, Trap>) -> Result<T, Fault<E>> {
    match r {
        Ok(v) => Ok(v),
        Err(t) => Err(Fault::Trap(t)),
    }
}

fn refused<T, E>(r: Result<T, E>) -> Result<T, Fault<E>> {
    match r {
        Ok(v) => Ok(v),
        Err(e) => Err(Fault::Error(e)),
    }
}

fn called<T, E>(r: Result<T, InvokeError>) -> Result<T, Fault<E>> {
    match r {
        Ok(v) => Ok(v),
        Err(e) => Err(Fault::Trap(Trap::Callee(e))),
    }
}

/// A vault that custodies USDC, enforces nothing, and remembers what it was
/// told.
#[derive(Clone, Debug)]
struct StubVault {
    admin: Address,
    usdc: Address,
    queued: i128,
    released: i128,
    repaid: i128,
    written: i128,
    recovered: i128,
}

/// A USDC that refuses to pay one address.
#[derive(Clone)]
struct Freezing {
    inner: MockUsdc,
    frozen: Option<Address>,
}

#[derive(Clone)]
enum Contract {
    Usdc(MockUsdc),
    Freezing(Freezing),
    AgUsdCore(AgUsdCore),
    Vault(Vault),
    Engine(AllocationEngine),
    Credit(PrivateCreditAdapter),
    Bond(EtherfuseAdapter),
    Oracle(OracleAdapter),
    Staking(Staking),
    AgUsd(AgUsd),
    Hostile(HostileEngine),
    StubVault(StubVault),
    StubEngine(Address),
}

/// Everything on the ledger.
#[derive(Clone)]
struct Ledger {
    contracts: Vec<(Address, Contract)>,
    everyone: Vec<Address>,
    /// Who signs: everybody, or these.
    signing: Option<Vec<Address>>,
    timestamp: u64,
    sequence: u32,
    /// What the last call recorded.
    events: Vec<Event>,
    /// Until which ledger an entry lives.
    lives: Vec<(Address, Rent, u32)>,
}

impl Ledger {
    fn fresh(&mut self, contract: bool) -> Address {
        let n = self.everyone.len() as u128 + 1;
        let a = if contract { Address::contract(0, n) } else { Address::account(0, n) };
        self.everyone.push(a);
        a
    }

    fn deploy(&mut self, c: Contract) -> Address {
        let a = self.fresh(true);
        self.contracts.push((a, c));
        a
    }

    fn at(&self, a: Address) -> Option<&Contract> {
        self.contracts.iter().find(|(b, _)| *b == a).map(|(_, c)| c)
    }

    fn put(&mut self, a: Address, c: Contract) {
        for slot in self.contracts.iter_mut() {
            if slot.0 == a {
                slot.1 = c;
                return;
            }
        }
        panic!("no contract to put back");
    }

    fn root(&self, contract: Address) -> Invocation {
        let signers = match &self.signing {
            None => self.everyone.clone(),
            Some(s) => s.clone(),
        };
        Invocation { contract, signers, timestamp: self.timestamp, sequence: self.sequence }
    }

    /// The call that a contract makes into another. A contract signs only for
    /// the calls it makes itself.
    fn inner(&self, by: &Invocation, callee: Address) -> Invocation {
        let mut inv = by.nested(callee);
        if self.signing.is_none() && by.signers == self.everyone {
            inv.signers = self.everyone.iter().filter(|a| !a.contract).copied().collect();
            inv.signers.push(by.contract);
        }
        inv
    }

    // What the contracts answer when one asks another.

    fn balance(&self, token: Address, who: Address) -> Result<i128, InvokeError> {
        match self.at(token) {
            Some(Contract::Usdc(c)) => Ok(c.balance(who)),
            Some(Contract::Freezing(c)) => Ok(c.inner.balance(who)),
            Some(Contract::AgUsdCore(c)) => Ok(c.balance(who)),
            Some(Contract::AgUsd(c)) => Ok(c.balance(who)),
            Some(Contract::Staking(c)) => Ok(c.balance(who)),
            _ => Err(InvokeError::Abort),
        }
    }

    fn decimals(&self, token: Address) -> Result<u32, InvokeError> {
        let d = match self.at(token) {
            Some(Contract::Usdc(c)) => c.decimals(),
            Some(Contract::Freezing(c)) => c.inner.decimals(),
            Some(Contract::AgUsdCore(c)) => c.decimals(),
            Some(Contract::AgUsd(c)) => c.decimals(),
            _ => return Err(InvokeError::Abort),
        };
        d.map_err(|_| InvokeError::Abort)
    }

    fn minter(&self, token: Address) -> Result<Address, InvokeError> {
        match self.at(token) {
            Some(Contract::AgUsdCore(c)) => c.minter().map_err(|e| InvokeError::Contract(e.code())),
            Some(Contract::Usdc(c)) => c.admin().map_err(|_| InvokeError::Abort),
            _ => Err(InvokeError::Abort),
        }
    }

    fn governed(&self, engine: Address) -> Result<Address, InvokeError> {
        match self.at(engine) {
            Some(Contract::Engine(c)) => c.vault().map_err(|e| InvokeError::Contract(e.code())),
            Some(Contract::Hostile(c)) => c.vault().map_err(|_| InvokeError::Abort),
            Some(Contract::StubEngine(v)) => Ok(*v),
            _ => Err(InvokeError::Abort),
        }
    }

    fn engine_booked(&self, engine: Address) -> Result<i128, InvokeError> {
        match self.at(engine) {
            Some(Contract::Engine(c)) => Ok(c.total_allocated()),
            Some(Contract::Hostile(c)) => Ok(c.total_allocated()),
            _ => Err(InvokeError::Abort),
        }
    }

    fn admin_of_vault(&self, vault: Address) -> Result<Address, InvokeError> {
        match self.at(vault) {
            Some(Contract::Vault(c)) => c.admin().map_err(|e| InvokeError::Contract(e.code())),
            Some(Contract::StubVault(c)) => Ok(c.admin),
            _ => Err(InvokeError::Abort),
        }
    }

    fn custodied(&self, vault: Address) -> Result<Address, InvokeError> {
        match self.at(vault) {
            Some(Contract::Vault(c)) => c.usdc().map_err(|e| InvokeError::Contract(e.code())),
            Some(Contract::StubVault(c)) => Ok(c.usdc),
            _ => Err(InvokeError::Abort),
        }
    }

    /// What USDC says a vault holds.
    fn cash(&self, vault: Address) -> i128 {
        match self.custodied(vault) {
            Ok(usdc) => self.balance(usdc, vault).unwrap_or(0),
            Err(_) => 0,
        }
    }

    fn free_reserves(&self, vault: Address) -> Result<i128, InvokeError> {
        match self.at(vault) {
            Some(Contract::Vault(c)) => c.free_reserves(self.cash(vault)).map_err(|_| InvokeError::Abort),
            Some(Contract::StubVault(c)) => Ok((self.cash(vault) - c.queued).max(0)),
            _ => Err(InvokeError::Abort),
        }
    }

    fn floor_base(&self, vault: Address) -> Result<i128, InvokeError> {
        match self.at(vault) {
            Some(Contract::Vault(c)) => c.floor_base(self.cash(vault)).map_err(seen_from_outside),
            Some(Contract::StubVault(c)) => {
                let deployed = c.released - c.repaid - c.written;
                let losses = (c.written - c.recovered).max(0);
                Ok((self.cash(vault) - c.queued).max(0) + deployed + losses)
            }
            _ => Err(InvokeError::Abort),
        }
    }

    fn wiring(&self, engine: Address, pool: Address) -> Wiring {
        let custodied = match self.governed(engine) {
            Ok(vault) => self.custodied(vault),
            Err(e) => Err(e),
        };
        let unknown = Err(InvokeError::Abort);
        match self.at(pool) {
            Some(Contract::Credit(c)) => Wiring {
                engine: c.engine().map_err(|e| InvokeError::Contract(e.code())),
                vault: c.vault().map_err(|e| InvokeError::Contract(e.code())),
                usdc: c.usdc().map_err(|e| InvokeError::Contract(e.code())),
                custodied,
            },
            Some(Contract::Bond(c)) => Wiring {
                engine: c.engine().map_err(|e| InvokeError::Contract(e.code())),
                vault: c.vault().map_err(|e| InvokeError::Contract(e.code())),
                usdc: c.usdc().map_err(|e| InvokeError::Contract(e.code())),
                custodied,
            },
            _ => Wiring { engine: unknown, vault: unknown, usdc: unknown, custodied },
        }
    }

    fn pool_exposure(&self, pool: Address) -> Result<i128, InvokeError> {
        match self.at(pool) {
            Some(Contract::Credit(c)) => Ok(c.get_exposure()),
            Some(Contract::Bond(c)) => Ok(c.get_exposure()),
            _ => Err(InvokeError::Abort),
        }
    }

    fn knows_feed(&self, oracle: Address, feed: Symbol) -> bool {
        match self.at(oracle) {
            Some(Contract::Oracle(c)) => c.get_feed(feed).is_ok(),
            _ => false,
        }
    }

    fn quote(&self, vault: Address, of: Address) -> Quote {
        match self.at(vault) {
            Some(Contract::Staking(c)) => {
                Quote { balance: c.balance(of), share_price: c.share_price().unwrap() }
            }
            _ => panic!("not a staking vault"),
        }
    }

    // Running calls.

    /// Records what a call that succeeded did, and makes the calls it asks for.
    fn finish<T>(&mut self, inv: &Invocation, d: Receipt<T>) -> Result<T, InvokeError> {
        let Receipt { value, effects } = d;
        self.carry_out(inv, effects)?;
        Ok(value)
    }

    fn carry_out(&mut self, inv: &Invocation, effects: Effects) -> Result<(), InvokeError> {
        for call in effects.calls {
            self.call(inv, call)?;
        }
        self.events.extend(effects.events);
        for rent in effects.rent {
            self.keep(inv.contract, rent);
        }
        Ok(())
    }

    /// Extends an entry's life where it has less than its threshold left.
    fn keep(&mut self, contract: Address, rent: Rent) {
        let (threshold, bump) = match rent {
            Rent::Pending { .. } => (PENDING_LIFETIME, PENDING_BUMP),
            _ => return,
        };
        let left = self.left(contract, rent);
        if left < threshold {
            self.lives.retain(|(c, r, _)| !(*c == contract && *r == rent));
            self.lives.push((contract, rent, self.sequence + bump));
        }
    }

    fn left(&self, contract: Address, rent: Rent) -> u32 {
        self.lives
            .iter()
            .find(|(c, r, _)| *c == contract && *r == rent)
            .map(|(_, _, until)| until.saturating_sub(self.sequence))
            .unwrap_or(0)
    }

    /// Makes one call, or leaves everything as it was.
    fn attempt(&mut self, inv: &Invocation, call: Call) -> bool {
        let before = self.clone();
        match self.call(inv, call) {
            Ok(_) => true,
            Err(_) => {
                *self = before;
                false
            }
        }
    }

    /// Makes one call on behalf of the contract that `by` is a call of.
    fn call(&mut self, by: &Invocation, call: Call) -> Result<i128, InvokeError> {
        match call {
            Call::Transfer { token, from, to, amount } => {
                let inv = self.inner(by, token);
                let r: Result<(), Fault<Plain>> = self.token_transfer(&inv, token, from, to, amount);
                r.map(|_| 0).map_err(seen_from_outside)
            }
            Call::Mint { token, to, amount } => {
                let inv = self.inner(by, token);
                match self.at(token) {
                    Some(Contract::AgUsdCore(_)) => {
                        self.issued_mint(&inv, token, to, amount).map(|_| 0).map_err(seen_from_outside)
                    }
                    _ => self.usdc_mint(&inv, token, to, amount).map(|_| 0).map_err(seen_from_outside),
                }
            }
            Call::Burn { token, from, amount } => {
                let inv = self.inner(by, token);
                let r: Result<(), Fault<Plain>> = self.token_burn(&inv, token, from, amount);
                r.map(|_| 0).map_err(seen_from_outside)
            }
            Call::SettleAllocation { vault, pool, amount } => {
                let inv = self.inner(by, vault);
                if let Some(Contract::StubVault(c)) = self.at(vault) {
                    let mut c = c.clone();
                    c.released += amount;
                    let usdc = c.usdc;
                    self.put(vault, Contract::StubVault(c));
                    return self.call(&inv, Call::Transfer { token: usdc, from: vault, to: pool, amount });
                }
                self.vault_settle_allocation(&inv, vault, pool, amount).map(|_| 0).map_err(seen_from_outside)
            }
            Call::RecordRepayment { vault, amount } => {
                let inv = self.inner(by, vault);
                if let Some(Contract::StubVault(c)) = self.at(vault) {
                    let mut c = c.clone();
                    c.repaid += amount;
                    self.put(vault, Contract::StubVault(c));
                    return Ok(0);
                }
                self.vault_record_repayment(&inv, vault, amount).map(|_| 0).map_err(seen_from_outside)
            }
            Call::RecordWritedown { vault, admin, amount } => {
                let inv = self.inner(by, vault);
                if let Some(Contract::StubVault(c)) = self.at(vault) {
                    let mut c = c.clone();
                    if c.admin != admin || !inv.authorized(admin) {
                        return Err(InvokeError::Abort);
                    }
                    c.written += amount;
                    self.put(vault, Contract::StubVault(c));
                    return Ok(0);
                }
                self.vault_record_writedown(&inv, vault, admin, amount).map(|_| 0).map_err(seen_from_outside)
            }
            Call::RecordRecovery { vault, admin, amount } => {
                let inv = self.inner(by, vault);
                if let Some(Contract::StubVault(c)) = self.at(vault) {
                    let mut c = c.clone();
                    if c.admin != admin || !inv.authorized(admin) {
                        return Err(InvokeError::Abort);
                    }
                    c.recovered += amount;
                    self.put(vault, Contract::StubVault(c));
                    return Ok(0);
                }
                self.vault_record_recovery(&inv, vault, admin, amount).map(|_| 0).map_err(seen_from_outside)
            }
            Call::Allocate { pool, amount } => {
                let inv = self.inner(by, pool);
                match self.at(pool) {
                    Some(Contract::Credit(_)) => {
                        self.credit_allocate(&inv, pool, amount).map(|_| 0).map_err(seen_from_outside)
                    }
                    _ => self.bond_allocate(&inv, pool, amount).map(|_| 0).map_err(seen_from_outside),
                }
            }
            Call::Deallocate { pool, amount } => {
                let inv = self.inner(by, pool);
                match self.at(pool) {
                    Some(Contract::Credit(_)) => {
                        self.credit_deallocate(&inv, pool, amount).map(|_| 0).map_err(seen_from_outside)
                    }
                    _ => self.bond_deallocate(&inv, pool, amount).map(|_| 0).map_err(seen_from_outside),
                }
            }
            Call::WriteDown { pool, amount } => {
                let inv = self.inner(by, pool);
                match self.at(pool) {
                    Some(Contract::Credit(_)) => {
                        self.credit_write_down(&inv, pool, amount).map(|_| 0).map_err(seen_from_outside)
                    }
                    _ => self.bond_write_down(&inv, pool, amount).map(|_| 0).map_err(seen_from_outside),
                }
            }
            Call::RecoverSurplus { pool, caller } => {
                let inv = self.inner(by, pool);
                match self.at(pool) {
                    Some(Contract::Credit(_)) => {
                        self.credit_recover_surplus(&inv, pool, caller).map_err(seen_from_outside)
                    }
                    _ => self.bond_recover_surplus(&inv, pool, caller).map_err(seen_from_outside),
                }
            }
            Call::Stake { vault, from, amount } => {
                let inv = self.inner(by, vault);
                self.staking_stake(&inv, vault, from, amount).map_err(seen_from_outside)
            }
            Call::RequestUnstake { vault, from, shares } => {
                let inv = self.inner(by, vault);
                self.staking_request_unstake(&inv, vault, from, shares).map_err(seen_from_outside)
            }
            Call::Claim { vault, from } => {
                let inv = self.inner(by, vault);
                self.staking_claim(&inv, vault, from).map_err(seen_from_outside)
            }
        }
    }

    fn token_transfer<E>(
        &mut self,
        inv: &Invocation,
        token: Address,
        from: Address,
        to: Address,
        amount: i128,
    ) -> Result<(), Fault<E>> {
        match self.at(token).cloned() {
            Some(Contract::Usdc(mut c)) => {
                let d = trapped(c.transfer(inv, from, to, amount))?;
                self.put(token, Contract::Usdc(c));
                called(self.finish(inv, d))
            }
            Some(Contract::Freezing(mut c)) => {
                if c.frozen == Some(to) {
                    return Err(Fault::Trap(Trap::BadArgument));
                }
                let d = trapped(c.inner.transfer(inv, from, to, amount))?;
                self.put(token, Contract::Freezing(c));
                called(self.finish(inv, d))
            }
            Some(Contract::AgUsdCore(mut c)) => {
                let d = trapped(c.transfer(inv, from, to, amount))?;
                self.put(token, Contract::AgUsdCore(c));
                called(self.finish(inv, d))
            }
            Some(Contract::AgUsd(mut c)) => {
                let d = trapped(c.transfer(inv, from, to, amount))?;
                self.put(token, Contract::AgUsd(c));
                called(self.finish(inv, d))
            }
            Some(Contract::Staking(mut c)) => {
                let d = trapped(c.transfer(inv, from, to, amount))?;
                self.put(token, Contract::Staking(c));
                called(self.finish(inv, d))
            }
            _ => Err(Fault::Trap(Trap::Absent)),
        }
    }

    fn token_burn<E>(
        &mut self,
        inv: &Invocation,
        token: Address,
        from: Address,
        amount: i128,
    ) -> Result<(), Fault<E>> {
        match self.at(token).cloned() {
            Some(Contract::Usdc(mut c)) => {
                let d = trapped(c.burn(inv, from, amount))?;
                self.put(token, Contract::Usdc(c));
                called(self.finish(inv, d))
            }
            Some(Contract::AgUsdCore(mut c)) => {
                let d = trapped(c.burn(inv, from, amount))?;
                self.put(token, Contract::AgUsdCore(c));
                called(self.finish(inv, d))
            }
            Some(Contract::AgUsd(mut c)) => {
                let d = trapped(c.burn(inv, from, amount))?;
                self.put(token, Contract::AgUsd(c));
                called(self.finish(inv, d))
            }
            _ => Err(Fault::Trap(Trap::Absent)),
        }
    }

    fn usdc(&self, me: Address) -> MockUsdc {
        match self.at(me) {
            Some(Contract::Usdc(c)) => c.clone(),
            _ => panic!("not such a contract"),
        }
    }

    fn usdc_initialize(&mut self, inv: &Invocation, me: Address, admin: Address, decimal: u32, name: &String, symbol: &String) -> Result<(), Fault<Plain>> {
        let mut c = self.usdc(me);
        let d = c.initialize(admin, decimal, name.clone(), symbol.clone());
        self.put(me, Contract::Usdc(c));
        called(self.finish(inv, d))
    }

    fn usdc_faucet(&mut self, inv: &Invocation, me: Address, to: Address, amount: i128) -> Result<(), Fault<Plain>> {
        let mut c = self.usdc(me);
        let d = trapped(c.faucet(to, amount))?;
        self.put(me, Contract::Usdc(c));
        called(self.finish(inv, d))
    }

    fn usdc_mint(&mut self, inv: &Invocation, me: Address, to: Address, amount: i128) -> Result<(), Fault<Plain>> {
        let mut c = self.usdc(me);
        let d = trapped(c.mint(inv, to, amount))?;
        self.put(me, Contract::Usdc(c));
        called(self.finish(inv, d))
    }

    fn usdc_transfer(&mut self, inv: &Invocation, me: Address, from: Address, to: Address, amount: i128) -> Result<(), Fault<Plain>> {
        self.token_transfer(inv, me, from, to, amount)
    }

    fn usdc_burn(&mut self, inv: &Invocation, me: Address, from: Address, amount: i128) -> Result<(), Fault<Plain>> {
        self.token_burn(inv, me, from, amount)
    }

    fn usdc_approve(&mut self, inv: &Invocation, me: Address, from: Address, spender: Address, amount: i128, expiration_ledger: u32) -> Result<(), Fault<Plain>> {
        let mut c = self.usdc(me);
        let d = trapped(c.approve(inv, from, spender, amount, expiration_ledger))?;
        self.put(me, Contract::Usdc(c));
        called(self.finish(inv, d))
    }

    fn usdc_transfer_from(&mut self, inv: &Invocation, me: Address, spender: Address, from: Address, to: Address, amount: i128) -> Result<(), Fault<Plain>> {
        let mut c = self.usdc(me);
        let d = trapped(c.transfer_from(inv, spender, from, to, amount))?;
        self.put(me, Contract::Usdc(c));
        called(self.finish(inv, d))
    }

    fn usdc_burn_from(&mut self, inv: &Invocation, me: Address, spender: Address, from: Address, amount: i128) -> Result<(), Fault<Plain>> {
        let mut c = self.usdc(me);
        let d = trapped(c.burn_from(inv, spender, from, amount))?;
        self.put(me, Contract::Usdc(c));
        called(self.finish(inv, d))
    }

    fn issued(&self, me: Address) -> AgUsdCore {
        match self.at(me) {
            Some(Contract::AgUsdCore(c)) => c.clone(),
            _ => panic!("not such a contract"),
        }
    }

    fn issued_initialize(&mut self, inv: &Invocation, me: Address, admin: Address, minter: Address, decimal: u32, name: &String, symbol: &String) -> Result<(), Fault<AgUsdCoreError>> {
        let mut c = self.issued(me);
        let d = c.initialize(inv, admin, minter, decimal, name.clone(), symbol.clone())?;
        self.put(me, Contract::AgUsdCore(c));
        called(self.finish(inv, d))
    }

    fn issued_set_minter(&mut self, inv: &Invocation, me: Address, admin: Address, minter: Address) -> Result<(), Fault<AgUsdCoreError>> {
        let mut c = self.issued(me);
        let d = c.set_minter(inv, admin, minter)?;
        self.put(me, Contract::AgUsdCore(c));
        called(self.finish(inv, d))
    }

    fn issued_mint(&mut self, inv: &Invocation, me: Address, to: Address, amount: i128) -> Result<(), Fault<AgUsdCoreError>> {
        let mut c = self.issued(me);
        let d = c.mint(inv, to, amount)?;
        self.put(me, Contract::AgUsdCore(c));
        called(self.finish(inv, d))
    }

    fn issued_propose_admin(&mut self, inv: &Invocation, me: Address, admin: Address, new_admin: Address) -> Result<(), Fault<AgUsdCoreError>> {
        let mut c = self.issued(me);
        let d = c.propose_admin(inv, admin, new_admin)?;
        self.put(me, Contract::AgUsdCore(c));
        called(self.finish(inv, d))
    }

    fn issued_accept_admin(&mut self, inv: &Invocation, me: Address, new_admin: Address) -> Result<(), Fault<AgUsdCoreError>> {
        let mut c = self.issued(me);
        let d = c.accept_admin(inv, new_admin)?;
        self.put(me, Contract::AgUsdCore(c));
        called(self.finish(inv, d))
    }

    fn issued_transfer(&mut self, inv: &Invocation, me: Address, from: Address, to: Address, amount: i128) -> Result<(), Fault<AgUsdCoreError>> {
        self.token_transfer(inv, me, from, to, amount)
    }

    fn issued_burn(&mut self, inv: &Invocation, me: Address, from: Address, amount: i128) -> Result<(), Fault<AgUsdCoreError>> {
        self.token_burn(inv, me, from, amount)
    }

    fn issued_approve(&mut self, inv: &Invocation, me: Address, from: Address, spender: Address, amount: i128, expiration_ledger: u32) -> Result<(), Fault<AgUsdCoreError>> {
        let mut c = self.issued(me);
        let d = trapped(c.approve(inv, from, spender, amount, expiration_ledger))?;
        self.put(me, Contract::AgUsdCore(c));
        called(self.finish(inv, d))
    }

    fn issued_transfer_from(&mut self, inv: &Invocation, me: Address, spender: Address, from: Address, to: Address, amount: i128) -> Result<(), Fault<AgUsdCoreError>> {
        let mut c = self.issued(me);
        let d = trapped(c.transfer_from(inv, spender, from, to, amount))?;
        self.put(me, Contract::AgUsdCore(c));
        called(self.finish(inv, d))
    }

    fn issued_burn_from(&mut self, inv: &Invocation, me: Address, spender: Address, from: Address, amount: i128) -> Result<(), Fault<AgUsdCoreError>> {
        let mut c = self.issued(me);
        let d = trapped(c.burn_from(inv, spender, from, amount))?;
        self.put(me, Contract::AgUsdCore(c));
        called(self.finish(inv, d))
    }

    fn vault(&self, me: Address) -> Vault {
        match self.at(me) {
            Some(Contract::Vault(c)) => c.clone(),
            _ => panic!("not such a contract"),
        }
    }

    fn vault_set_reserve_floor(&mut self, inv: &Invocation, me: Address, admin: Address, floor_bps: u32) -> Result<(), Fault<VaultError>> {
        let mut c = self.vault(me);
        let d = c.set_reserve_floor(inv, admin, floor_bps)?;
        self.put(me, Contract::Vault(c));
        called(self.finish(inv, d))
    }

    fn vault_set_oracle(&mut self, inv: &Invocation, me: Address, admin: Address, oracle: Address, feed_id: Symbol) -> Result<(), Fault<VaultError>> {
        let mut c = self.vault(me);
        let d = c.set_oracle(inv, admin, oracle, feed_id, self.knows_feed(oracle, feed_id))?;
        self.put(me, Contract::Vault(c));
        called(self.finish(inv, d))
    }

    fn vault_set_agusd(&mut self, inv: &Invocation, me: Address, admin: Address, agusd_token: Address) -> Result<(), Fault<VaultError>> {
        let mut c = self.vault(me);
        let usdc_decimals = match c.usdc() {
            Ok(u) => self.decimals(u),
            Err(_) => Err(InvokeError::Abort),
        };
        let d = c.set_agusd(inv, admin, agusd_token, self.minter(agusd_token), self.decimals(agusd_token), usdc_decimals)?;
        self.put(me, Contract::Vault(c));
        called(self.finish(inv, d))
    }

    fn vault_set_engine(&mut self, inv: &Invocation, me: Address, admin: Address, allocation_engine: Address) -> Result<(), Fault<VaultError>> {
        let mut c = self.vault(me);
        let d = c.set_engine(inv, admin, allocation_engine, self.governed(allocation_engine), self.engine_booked(allocation_engine))?;
        self.put(me, Contract::Vault(c));
        called(self.finish(inv, d))
    }

    fn vault_set_paused(&mut self, inv: &Invocation, me: Address, admin: Address, paused: bool) -> Result<(), Fault<VaultError>> {
        let mut c = self.vault(me);
        let d = c.set_paused(inv, admin, paused)?;
        self.put(me, Contract::Vault(c));
        called(self.finish(inv, d))
    }

    fn vault_deposit(&mut self, inv: &Invocation, me: Address, from: Address, amount: i128) -> Result<i128, Fault<VaultError>> {
        let mut c = self.vault(me);
        let d = c.deposit(inv, from, amount)?;
        self.put(me, Contract::Vault(c));
        called(self.finish(inv, d))
    }

    fn vault_request_withdrawal(&mut self, inv: &Invocation, me: Address, from: Address, amount: i128) -> Result<u64, Fault<VaultError>> {
        let mut c = self.vault(me);
        let d = c.request_withdrawal(inv, from, amount)?;
        self.put(me, Contract::Vault(c));
        called(self.finish(inv, d))
    }

    fn vault_claim_withdrawal(&mut self, inv: &Invocation, me: Address, from: Address, claim_id: u64) -> Result<(), Fault<VaultError>> {
        let mut c = self.vault(me);
        let held = self.cash(me);
        let pay = c.collectable(inv, from, claim_id, held)?;
        let delivered = self.attempt(inv, pay);
        let d = c.claim_withdrawal(inv, from, claim_id, held, delivered)?;
        self.put(me, Contract::Vault(c));
        called(self.finish(inv, d))
    }

    fn vault_settle_withdrawal(&mut self, inv: &Invocation, me: Address) -> Result<u64, Fault<VaultError>> {
        let mut c = self.vault(me);
        let held = self.cash(me);
        let pay = c.next_due(inv, held)?;
        let delivered = self.attempt(inv, pay);
        let d = c.settle_withdrawal(inv, held, delivered)?;
        self.put(me, Contract::Vault(c));
        called(self.finish(inv, d))
    }

    fn vault_settle_allocation(&mut self, inv: &Invocation, me: Address, pool: Address, amount: i128) -> Result<(), Fault<VaultError>> {
        let mut c = self.vault(me);
        let d = c.settle_allocation(inv, pool, amount, self.cash(me))?;
        self.put(me, Contract::Vault(c));
        called(self.finish(inv, d))
    }

    fn vault_record_repayment(&mut self, inv: &Invocation, me: Address, amount: i128) -> Result<(), Fault<VaultError>> {
        let mut c = self.vault(me);
        let d = c.record_repayment(inv, amount, self.cash(me))?;
        self.put(me, Contract::Vault(c));
        called(self.finish(inv, d))
    }

    fn vault_record_writedown(&mut self, inv: &Invocation, me: Address, admin: Address, amount: i128) -> Result<(), Fault<VaultError>> {
        let mut c = self.vault(me);
        let d = c.record_writedown(inv, admin, amount)?;
        self.put(me, Contract::Vault(c));
        called(self.finish(inv, d))
    }

    fn vault_record_recovery(&mut self, inv: &Invocation, me: Address, admin: Address, amount: i128) -> Result<(), Fault<VaultError>> {
        let mut c = self.vault(me);
        let d = c.record_recovery(inv, admin, amount, self.cash(me))?;
        self.put(me, Contract::Vault(c));
        called(self.finish(inv, d))
    }

    fn vault_propose_admin(&mut self, inv: &Invocation, me: Address, admin: Address, new_admin: Address) -> Result<(), Fault<VaultError>> {
        let mut c = self.vault(me);
        let d = c.propose_admin(inv, admin, new_admin)?;
        self.put(me, Contract::Vault(c));
        called(self.finish(inv, d))
    }

    fn vault_accept_admin(&mut self, inv: &Invocation, me: Address, new_admin: Address) -> Result<(), Fault<VaultError>> {
        let mut c = self.vault(me);
        let d = c.accept_admin(inv, new_admin)?;
        self.put(me, Contract::Vault(c));
        called(self.finish(inv, d))
    }

    fn engine(&self, me: Address) -> AllocationEngine {
        match self.at(me) {
            Some(Contract::Engine(c)) => c.clone(),
            _ => panic!("not such a contract"),
        }
    }

    fn engine_set_vault(&mut self, inv: &Invocation, me: Address, admin: Address, vault: Address) -> Result<(), Fault<EngineError>> {
        let mut c = self.engine(me);
        let d = c.set_vault(inv, admin, vault, self.admin_of_vault(vault))?;
        self.put(me, Contract::Engine(c));
        called(self.finish(inv, d))
    }

    fn engine_register_pool(&mut self, inv: &Invocation, me: Address, admin: Address, pool_id: Address, originator: Symbol, jurisdiction: Symbol, cap_bps: u32) -> Result<(), Fault<EngineError>> {
        let mut c = self.engine(me);
        let d = c.register_pool(inv, admin, pool_id, originator, jurisdiction, cap_bps, self.wiring(me, pool_id))?;
        self.put(me, Contract::Engine(c));
        called(self.finish(inv, d))
    }

    fn engine_set_pool_cap(&mut self, inv: &Invocation, me: Address, admin: Address, pool_id: Address, cap_bps: u32) -> Result<(), Fault<EngineError>> {
        let mut c = self.engine(me);
        let d = c.set_pool_cap(inv, admin, pool_id, cap_bps)?;
        self.put(me, Contract::Engine(c));
        called(self.finish(inv, d))
    }

    fn engine_unregister_pool(&mut self, inv: &Invocation, me: Address, admin: Address, pool_id: Address) -> Result<(), Fault<EngineError>> {
        let mut c = self.engine(me);
        let d = c.unregister_pool(inv, admin, pool_id, self.pool_exposure(pool_id))?;
        self.put(me, Contract::Engine(c));
        called(self.finish(inv, d))
    }

    fn engine_set_caps(&mut self, inv: &Invocation, me: Address, admin: Address, pool_bps: u32, originator_bps: u32, jurisdiction_bps: u32) -> Result<(), Fault<EngineError>> {
        let mut c = self.engine(me);
        let d = c.set_caps(inv, admin, pool_bps, originator_bps, jurisdiction_bps)?;
        self.put(me, Contract::Engine(c));
        called(self.finish(inv, d))
    }

    fn engine_set_reserve_floor(&mut self, inv: &Invocation, me: Address, admin: Address, floor_bps: u32) -> Result<(), Fault<EngineError>> {
        let mut c = self.engine(me);
        let d = c.set_reserve_floor(inv, admin, floor_bps)?;
        self.put(me, Contract::Engine(c));
        called(self.finish(inv, d))
    }

    fn engine_allocate(&mut self, inv: &Invocation, me: Address, admin: Address, pool_id: Address, amount: i128) -> Result<(), Fault<EngineError>> {
        let mut c = self.engine(me);
        let (free, base) = match c.vault() {
            Ok(v) => (self.free_reserves(v), self.floor_base(v)),
            Err(_) => (Err(InvokeError::Abort), Err(InvokeError::Abort)),
        };
        let d = c.allocate(inv, admin, pool_id, amount, self.wiring(me, pool_id), free, base)?;
        self.put(me, Contract::Engine(c));
        called(self.finish(inv, d))
    }

    fn engine_deallocate(&mut self, inv: &Invocation, me: Address, pool_id: Address, amount: i128) -> Result<(), Fault<EngineError>> {
        let mut c = self.engine(me);
        let d = c.deallocate(inv, pool_id, amount, self.wiring(me, pool_id))?;
        self.put(me, Contract::Engine(c));
        called(self.finish(inv, d))
    }

    fn engine_write_down(&mut self, inv: &Invocation, me: Address, admin: Address, pool_id: Address, amount: i128, reason: Symbol) -> Result<(), Fault<EngineError>> {
        let mut c = self.engine(me);
        let vault_admin = match c.vault() {
            Ok(v) => self.admin_of_vault(v),
            Err(_) => Err(InvokeError::Abort),
        };
        let d = c.write_down(inv, admin, pool_id, amount, reason, vault_admin)?;
        self.put(me, Contract::Engine(c));
        called(self.finish(inv, d))
    }

    fn engine_recover(&mut self, inv: &Invocation, me: Address, admin: Address, pool_id: Address) -> Result<i128, Fault<EngineError>> {
        let mut c = self.engine(me);
        let vault_admin = match c.vault() {
            Ok(v) => self.admin_of_vault(v),
            Err(_) => Err(InvokeError::Abort),
        };
        let wiring = self.wiring(me, pool_id);
        let sweep = c.recoverable(inv, admin, pool_id, vault_admin, wiring)?;
        let swept = self.call(inv, sweep);
        let d = c.recover(inv, admin, pool_id, vault_admin, wiring, swept)?;
        self.put(me, Contract::Engine(c));
        called(self.finish(inv, d))
    }

    fn engine_book_recovery(&mut self, inv: &Invocation, me: Address, admin: Address, pool_id: Address, amount: i128) -> Result<(), Fault<EngineError>> {
        let mut c = self.engine(me);
        let vault_admin = match c.vault() {
            Ok(v) => self.admin_of_vault(v),
            Err(_) => Err(InvokeError::Abort),
        };
        let d = c.book_recovery(inv, admin, pool_id, amount, vault_admin)?;
        self.put(me, Contract::Engine(c));
        called(self.finish(inv, d))
    }

    fn engine_propose_admin(&mut self, inv: &Invocation, me: Address, admin: Address, new_admin: Address) -> Result<(), Fault<EngineError>> {
        let mut c = self.engine(me);
        let d = c.propose_admin(inv, admin, new_admin)?;
        self.put(me, Contract::Engine(c));
        called(self.finish(inv, d))
    }

    fn engine_accept_admin(&mut self, inv: &Invocation, me: Address, new_admin: Address) -> Result<(), Fault<EngineError>> {
        let mut c = self.engine(me);
        let d = c.accept_admin(inv, new_admin)?;
        self.put(me, Contract::Engine(c));
        called(self.finish(inv, d))
    }

    fn credit(&self, me: Address) -> PrivateCreditAdapter {
        match self.at(me) {
            Some(Contract::Credit(c)) => c.clone(),
            _ => panic!("not such a contract"),
        }
    }

    fn credit_set_counterparties(&mut self, inv: &Invocation, me: Address, admin: Address, engine: Address, vault: Address) -> Result<(), Fault<private_credit::AdapterError>> {
        let mut c = self.credit(me);
        let held = match c.usdc() {
            Ok(u) => self.balance(u, me),
            Err(_) => Err(InvokeError::Abort),
        };
        let d = c.set_counterparties(inv, admin, engine, vault, held, self.governed(engine), self.custodied(vault))?;
        self.put(me, Contract::Credit(c));
        called(self.finish(inv, d))
    }

    fn credit_allocate(&mut self, inv: &Invocation, me: Address, amount: i128) -> Result<(), Fault<private_credit::AdapterError>> {
        let mut c = self.credit(me);
        let d = c.allocate(inv, amount)?;
        self.put(me, Contract::Credit(c));
        called(self.finish(inv, d))
    }

    fn credit_deallocate(&mut self, inv: &Invocation, me: Address, amount: i128) -> Result<(), Fault<private_credit::AdapterError>> {
        let mut c = self.credit(me);
        let d = c.deallocate(inv, amount)?;
        self.put(me, Contract::Credit(c));
        called(self.finish(inv, d))
    }

    fn credit_write_down(&mut self, inv: &Invocation, me: Address, amount: i128) -> Result<(), Fault<private_credit::AdapterError>> {
        let mut c = self.credit(me);
        let d = c.write_down(inv, amount)?;
        self.put(me, Contract::Credit(c));
        called(self.finish(inv, d))
    }

    fn credit_recover_surplus(&mut self, inv: &Invocation, me: Address, caller: Address) -> Result<i128, Fault<private_credit::AdapterError>> {
        let c = self.credit(me);
        let held = match c.usdc() {
            Ok(u) => self.balance(u, me),
            Err(_) => Err(InvokeError::Abort),
        };
        let d = c.recover_surplus(inv, caller, held)?;
        called(self.finish(inv, d))
    }

    fn credit_propose_admin(&mut self, inv: &Invocation, me: Address, admin: Address, new_admin: Address) -> Result<(), Fault<private_credit::AdapterError>> {
        let mut c = self.credit(me);
        let d = c.propose_admin(inv, admin, new_admin)?;
        self.put(me, Contract::Credit(c));
        called(self.finish(inv, d))
    }

    fn credit_accept_admin(&mut self, inv: &Invocation, me: Address, new_admin: Address) -> Result<(), Fault<private_credit::AdapterError>> {
        let mut c = self.credit(me);
        let d = c.accept_admin(inv, new_admin)?;
        self.put(me, Contract::Credit(c));
        called(self.finish(inv, d))
    }

    fn bond(&self, me: Address) -> EtherfuseAdapter {
        match self.at(me) {
            Some(Contract::Bond(c)) => c.clone(),
            _ => panic!("not such a contract"),
        }
    }

    fn bond_initialize(&mut self, inv: &Invocation, me: Address, admin: Address, engine: Address, vault: Address, usdc: Address) -> Result<(), Fault<etherfuse::AdapterError>> {
        let mut c = self.bond(me);
        let d = c.initialize(inv, admin, engine, vault, usdc)?;
        self.put(me, Contract::Bond(c));
        called(self.finish(inv, d))
    }

    fn bond_set_counterparties(&mut self, inv: &Invocation, me: Address, admin: Address, engine: Address, vault: Address) -> Result<(), Fault<etherfuse::AdapterError>> {
        let mut c = self.bond(me);
        let held = match c.usdc() {
            Ok(u) => self.balance(u, me),
            Err(_) => Err(InvokeError::Abort),
        };
        let d = c.set_counterparties(inv, admin, engine, vault, held, self.governed(engine))?;
        self.put(me, Contract::Bond(c));
        called(self.finish(inv, d))
    }

    fn bond_allocate(&mut self, inv: &Invocation, me: Address, amount: i128) -> Result<(), Fault<etherfuse::AdapterError>> {
        let mut c = self.bond(me);
        let d = c.allocate(inv, amount)?;
        self.put(me, Contract::Bond(c));
        called(self.finish(inv, d))
    }

    fn bond_deallocate(&mut self, inv: &Invocation, me: Address, amount: i128) -> Result<(), Fault<etherfuse::AdapterError>> {
        let mut c = self.bond(me);
        let d = c.deallocate(inv, amount)?;
        self.put(me, Contract::Bond(c));
        called(self.finish(inv, d))
    }

    fn bond_write_down(&mut self, inv: &Invocation, me: Address, amount: i128) -> Result<(), Fault<etherfuse::AdapterError>> {
        let mut c = self.bond(me);
        let d = c.write_down(inv, amount)?;
        self.put(me, Contract::Bond(c));
        called(self.finish(inv, d))
    }

    fn bond_recover_surplus(&mut self, inv: &Invocation, me: Address, caller: Address) -> Result<i128, Fault<etherfuse::AdapterError>> {
        let c = self.bond(me);
        let held = match c.usdc() {
            Ok(u) => self.balance(u, me),
            Err(_) => Err(InvokeError::Abort),
        };
        let d = c.recover_surplus(inv, caller, held)?;
        called(self.finish(inv, d))
    }

    fn bond_propose_admin(&mut self, inv: &Invocation, me: Address, admin: Address, new_admin: Address) -> Result<(), Fault<etherfuse::AdapterError>> {
        let mut c = self.bond(me);
        let d = c.propose_admin(inv, admin, new_admin)?;
        self.put(me, Contract::Bond(c));
        called(self.finish(inv, d))
    }

    fn bond_accept_admin(&mut self, inv: &Invocation, me: Address, new_admin: Address) -> Result<(), Fault<etherfuse::AdapterError>> {
        let mut c = self.bond(me);
        let d = c.accept_admin(inv, new_admin)?;
        self.put(me, Contract::Bond(c));
        called(self.finish(inv, d))
    }

    fn oracle(&self, me: Address) -> OracleAdapter {
        match self.at(me) {
            Some(Contract::Oracle(c)) => c.clone(),
            _ => panic!("not such a contract"),
        }
    }

    fn oracle_add_reporter(&mut self, inv: &Invocation, me: Address, admin: Address, reporter: Address) -> Result<(), Fault<OracleError>> {
        let mut c = self.oracle(me);
        let d = c.add_reporter(inv, admin, reporter)?;
        self.put(me, Contract::Oracle(c));
        called(self.finish(inv, d))
    }

    fn oracle_register_feed(&mut self, inv: &Invocation, me: Address, admin: Address, feed_id: Symbol, staleness_secs: u64, deviation_bps: u32, min_nav: i128, max_nav: i128, min_interval_secs: u64) -> Result<(), Fault<OracleError>> {
        let mut c = self.oracle(me);
        let d = c.register_feed(inv, admin, feed_id, staleness_secs, deviation_bps, min_nav, max_nav, min_interval_secs)?;
        self.put(me, Contract::Oracle(c));
        called(self.finish(inv, d))
    }

    fn oracle_push_nav(&mut self, inv: &Invocation, me: Address, reporter: Address, feed_id: Symbol, nav: i128, timestamp: u64) -> Result<(), Fault<OracleError>> {
        let mut c = self.oracle(me);
        let d = c.push_nav(inv, reporter, feed_id, nav, timestamp)?;
        self.put(me, Contract::Oracle(c));
        called(self.finish(inv, d))
    }

    fn staking(&self, me: Address) -> Staking {
        match self.at(me) {
            Some(Contract::Staking(c)) => c.clone(),
            _ => panic!("not such a contract"),
        }
    }

    fn staking_set_agusd(&mut self, inv: &Invocation, me: Address, admin: Address, agusd: Address) -> Result<(), Fault<StakingError>> {
        let mut c = self.staking(me);
        let holding = match c.agusd() {
            Ok(a) => self.balance(a, me),
            Err(_) => Err(InvokeError::Abort),
        };
        let d = c.set_agusd(inv, admin, agusd, holding)?;
        self.put(me, Contract::Staking(c));
        called(self.finish(inv, d))
    }

    fn staking_stake(&mut self, inv: &Invocation, me: Address, from: Address, amount: i128) -> Result<i128, Fault<StakingError>> {
        let mut c = self.staking(me);
        let d = c.stake(inv, from, amount)?;
        self.put(me, Contract::Staking(c));
        called(self.finish(inv, d))
    }

    fn staking_request_unstake(&mut self, inv: &Invocation, me: Address, from: Address, shares: i128) -> Result<i128, Fault<StakingError>> {
        let mut c = self.staking(me);
        let d = c.request_unstake(inv, from, shares)?;
        self.put(me, Contract::Staking(c));
        called(self.finish(inv, d))
    }

    fn staking_bump_pending(&mut self, inv: &Invocation, me: Address, addr: Address) -> Result<(), Fault<StakingError>> {
        let c = self.staking(me);
        let d = c.bump_pending(addr)?;
        called(self.finish(inv, d))
    }

    fn staking_claim(&mut self, inv: &Invocation, me: Address, from: Address) -> Result<i128, Fault<StakingError>> {
        let mut c = self.staking(me);
        let d = c.claim(inv, from)?;
        self.put(me, Contract::Staking(c));
        called(self.finish(inv, d))
    }

    fn staking_distribute_yield(&mut self, inv: &Invocation, me: Address, amount: i128) -> Result<(), Fault<StakingError>> {
        let mut c = self.staking(me);
        let d = c.distribute_yield(inv, amount)?;
        self.put(me, Contract::Staking(c));
        called(self.finish(inv, d))
    }

    fn staking_set_allocations(&mut self, inv: &Invocation, me: Address, allocations: &Vec<Allocation>) -> Result<(), Fault<StakingError>> {
        let mut c = self.staking(me);
        let d = trapped(c.set_allocations(inv, allocations.clone()))?;
        self.put(me, Contract::Staking(c));
        called(self.finish(inv, d))
    }

    fn staking_propose_admin(&mut self, inv: &Invocation, me: Address, admin: Address, new_admin: Address) -> Result<(), Fault<StakingError>> {
        let mut c = self.staking(me);
        let d = c.propose_admin(inv, admin, new_admin)?;
        self.put(me, Contract::Staking(c));
        called(self.finish(inv, d))
    }

    fn staking_accept_admin(&mut self, inv: &Invocation, me: Address, new_admin: Address) -> Result<(), Fault<StakingError>> {
        let mut c = self.staking(me);
        let d = c.accept_admin(inv, new_admin)?;
        self.put(me, Contract::Staking(c));
        called(self.finish(inv, d))
    }

    fn staking_transfer(&mut self, inv: &Invocation, me: Address, from: Address, to: Address, amount: i128) -> Result<(), Fault<StakingError>> {
        self.token_transfer(inv, me, from, to, amount)
    }

    fn staking_approve(&mut self, inv: &Invocation, me: Address, from: Address, spender: Address, amount: i128, expiration_ledger: u32) -> Result<(), Fault<StakingError>> {
        let mut c = self.staking(me);
        let d = trapped(c.approve(inv, from, spender, amount, expiration_ledger))?;
        self.put(me, Contract::Staking(c));
        called(self.finish(inv, d))
    }

    fn staking_transfer_from(&mut self, inv: &Invocation, me: Address, spender: Address, from: Address, to: Address, amount: i128) -> Result<(), Fault<StakingError>> {
        let mut c = self.staking(me);
        let d = trapped(c.transfer_from(inv, spender, from, to, amount))?;
        self.put(me, Contract::Staking(c));
        called(self.finish(inv, d))
    }

    fn agusd(&self, me: Address) -> AgUsd {
        match self.at(me) {
            Some(Contract::AgUsd(c)) => c.clone(),
            _ => panic!("not such a contract"),
        }
    }

    fn agusd_initialize(&mut self, inv: &Invocation, me: Address, admin: Address, usdc: Address, treasury: Address, buffer_bps: u32, decimal: u32, name: &String, symbol: &String) -> Result<(), Fault<AgUsdError>> {
        let mut c = self.agusd(me);
        let d = c.initialize(admin, usdc, treasury, buffer_bps, decimal, name.clone(), symbol.clone());
        self.put(me, Contract::AgUsd(c));
        called(self.finish(inv, d))
    }

    fn agusd_set_targets(&mut self, inv: &Invocation, me: Address, targets: &Vec<Target>) -> Result<(), Fault<AgUsdError>> {
        let mut c = self.agusd(me);
        let d = trapped(c.set_targets(inv, targets.clone()))?;
        self.put(me, Contract::AgUsd(c));
        called(self.finish(inv, d))
    }

    fn agusd_set_buffer_bps(&mut self, inv: &Invocation, me: Address, buffer_bps: u32) -> Result<(), Fault<AgUsdError>> {
        let mut c = self.agusd(me);
        let d = trapped(c.set_buffer_bps(inv, buffer_bps))?;
        self.put(me, Contract::AgUsd(c));
        called(self.finish(inv, d))
    }

    fn agusd_deposit(&mut self, inv: &Invocation, me: Address, from: Address, amount: i128) -> Result<(), Fault<AgUsdError>> {
        let mut c = self.agusd(me);
        let d = trapped(c.deposit(inv, from, amount))?;
        self.put(me, Contract::AgUsd(c));
        let begun = called(self.finish(inv, d))?;
        self.agusd_settle(inv, me, begun)
    }

    fn agusd_redeem(&mut self, inv: &Invocation, me: Address, from: Address, amount: i128) -> Result<(), Fault<AgUsdError>> {
        let mut c = self.agusd(me);
        let held = self.agusd_held(me);
        let d = c.redeem(inv, from, amount, held)?;
        self.put(me, Contract::AgUsd(c));
        let begun = called(self.finish(inv, d))?;
        self.agusd_settle(inv, me, begun)
    }

    fn agusd_rebalance(&mut self, inv: &Invocation, me: Address) -> Result<(), Fault<AgUsdError>> {
        let d = self.agusd(me).rebalance();
        let begun = called(self.finish(inv, d))?;
        self.agusd_settle(inv, me, begun)
    }

    fn agusd_settle(&mut self, inv: &Invocation, me: Address, begun: Stage) -> Result<(), Fault<AgUsdError>> {
        let c = self.agusd(me);
        let mut stage = begun;
        loop {
            let reply = match c.next_action(inv, &stage) {
                Action::Attempt(call) => {
                    self.attempt(inv, call);
                    Reply::Called
                }
                Action::Make(call) => {
                    called(self.call(inv, call))?;
                    Reply::Called
                }
                Action::AskReserve => Reply::Reserve(self.agusd_held(me)),
                Action::AskQuote { vault } => Reply::Quoted(self.quote(vault, me)),
                Action::Finish => return Ok(()),
            };
            stage = trapped(c.advance(inv, stage, reply))?;
        }
    }

    fn agusd_sweep(&mut self, inv: &Invocation, me: Address, amount: i128) -> Result<(), Fault<AgUsdError>> {
        let c = self.agusd(me);
        let d = trapped(c.sweep(inv, amount))?;
        called(self.finish(inv, d))
    }

    fn agusd_refund_reserve(&mut self, inv: &Invocation, me: Address, from: Address, amount: i128) -> Result<(), Fault<AgUsdError>> {
        let c = self.agusd(me);
        let d = trapped(c.refund_reserve(inv, from, amount))?;
        called(self.finish(inv, d))
    }

    fn agusd_deallocate(&mut self, inv: &Invocation, me: Address, vault: Address, shares: i128) -> Result<(), Fault<AgUsdError>> {
        let c = self.agusd(me);
        let d = trapped(c.deallocate(inv, vault, shares))?;
        called(self.finish(inv, d))
    }

    fn agusd_claim_alloc(&mut self, inv: &Invocation, me: Address, vault: Address) -> Result<(), Fault<AgUsdError>> {
        let c = self.agusd(me);
        let d = trapped(c.claim_alloc(inv, vault))?;
        called(self.finish(inv, d))
    }

    fn agusd_held(&self, me: Address) -> Result<i128, InvokeError> {
        match self.agusd(me).usdc() {
            Ok(u) => self.balance(u, me),
            Err(_) => Err(InvokeError::Abort),
        }
    }

    fn agusd_transfer(&mut self, inv: &Invocation, me: Address, from: Address, to: Address, amount: i128) -> Result<(), Fault<AgUsdError>> {
        self.token_transfer(inv, me, from, to, amount)
    }

    fn agusd_burn(&mut self, inv: &Invocation, me: Address, from: Address, amount: i128) -> Result<(), Fault<AgUsdError>> {
        self.token_burn(inv, me, from, amount)
    }

    fn agusd_approve(&mut self, inv: &Invocation, me: Address, from: Address, spender: Address, amount: i128, expiration_ledger: u32) -> Result<(), Fault<AgUsdError>> {
        let mut c = self.agusd(me);
        let d = trapped(c.approve(inv, from, spender, amount, expiration_ledger))?;
        self.put(me, Contract::AgUsd(c));
        called(self.finish(inv, d))
    }

    fn agusd_transfer_from(&mut self, inv: &Invocation, me: Address, spender: Address, from: Address, to: Address, amount: i128) -> Result<(), Fault<AgUsdError>> {
        let mut c = self.agusd(me);
        let d = trapped(c.transfer_from(inv, spender, from, to, amount))?;
        self.put(me, Contract::AgUsd(c));
        called(self.finish(inv, d))
    }

    fn agusd_burn_from(&mut self, inv: &Invocation, me: Address, spender: Address, from: Address, amount: i128) -> Result<(), Fault<AgUsdError>> {
        let mut c = self.agusd(me);
        let d = trapped(c.burn_from(inv, spender, from, amount))?;
        self.put(me, Contract::AgUsd(c));
        called(self.finish(inv, d))
    }

    fn hostile(&self, me: Address) -> HostileEngine {
        match self.at(me) {
            Some(Contract::Hostile(c)) => c.clone(),
            _ => panic!("not such a contract"),
        }
    }

    fn hostile_initialize(&mut self, inv: &Invocation, me: Address, vault: Address) -> Result<(), Fault<Plain>> {
        let mut c = self.hostile(me);
        c.initialize(vault);
        self.put(me, Contract::Hostile(c));
        let _ = inv;
        Ok(())
    }

    fn hostile_steal(&mut self, inv: &Invocation, me: Address, to: Address, amount: i128) -> Result<bool, Fault<Plain>> {
        let c = self.hostile(me);
        let target = trapped(c.vault())?;
        let mut v = self.vault(target);
        let held = self.cash(target);
        let d = trapped(c.steal(inv, to, amount, &mut v, held))?;
        self.put(target, Contract::Vault(v));
        called(self.finish(&inv.nested(target), d))
    }

    fn hostile_erase_the_book(&mut self, inv: &Invocation, me: Address, admin: Address, amount: i128) -> Result<bool, Fault<Plain>> {
        let c = self.hostile(me);
        let target = trapped(c.vault())?;
        let mut v = self.vault(target);
        let d = trapped(c.erase_the_book(inv, admin, amount, &mut v))?;
        self.put(target, Contract::Vault(v));
        called(self.finish(inv, d))
    }

    fn hostile_fake_a_repayment(&mut self, inv: &Invocation, me: Address, amount: i128) -> Result<bool, Fault<Plain>> {
        let c = self.hostile(me);
        let target = trapped(c.vault())?;
        let mut v = self.vault(target);
        let held = self.cash(target);
        let d = trapped(c.fake_a_repayment(inv, amount, &mut v, held))?;
        self.put(target, Contract::Vault(v));
        called(self.finish(inv, d))
    }
}

/// The ledger, as the tests drive it.
#[derive(Clone)]
struct Env(Rc<RefCell<Ledger>>);

impl Default for Env {
    fn default() -> Env {
        Env(Rc::new(RefCell::new(Ledger {
            contracts: Vec::new(),
            everyone: Vec::new(),
            signing: Some(Vec::new()),
            timestamp: 0,
            sequence: 0,
            events: Vec::new(),
            lives: Vec::new(),
        })))
    }
}

impl Env {
    /// Everybody signs everything.
    fn mock_all_auths(&self) {
        self.0.borrow_mut().signing = None;
    }

    /// Only these sign.
    fn mock_auths(&self, signers: &[Address]) {
        self.0.borrow_mut().signing = Some(signers.to_vec());
    }

    fn set_timestamp(&self, timestamp: u64) {
        self.0.borrow_mut().timestamp = timestamp;
    }

    fn sequence(&self) -> u32 {
        self.0.borrow().sequence
    }

    fn advance_sequence(&self, by: u32) {
        self.0.borrow_mut().sequence += by;
    }

    /// What the last call recorded.
    fn events(&self) -> Vec<Event> {
        self.0.borrow().events.clone()
    }

    fn ttl(&self, contract: &Address, rent: Rent) -> u32 {
        self.0.borrow().left(*contract, rent)
    }

    /// One transaction: all of it, or nothing.
    fn run<T, E>(
        &self,
        me: Address,
        f: impl FnOnce(&mut Ledger, &Invocation, Address) -> Result<T, Fault<E>>,
    ) -> Result<T, Fault<E>> {
        let mut l = self.0.borrow_mut();
        l.events.clear();
        let before = l.clone();
        let inv = l.root(me);
        match f(&mut l, &inv, me) {
            Ok(v) => Ok(v),
            Err(e) => {
                *l = before;
                Err(e)
            }
        }
    }

    fn deploy(&self, c: Contract) -> Address {
        self.0.borrow_mut().deploy(c)
    }

    fn register_usdc(&self) -> Address {
        self.deploy(Contract::Usdc(MockUsdc::empty()))
    }

    fn register_vault(&self, admin: Address, usdc: Address) -> Address {
        let id = self.deploy(Contract::Vault(Vault::empty()));
        expect(self.run(id, |l, inv, me| {
            let mut c = l.vault(me);
            let d = c.__constructor(inv, admin, usdc, l.balance(usdc, me))?;
            l.put(me, Contract::Vault(c));
            called(l.finish(inv, d))
        }));
        id
    }

    fn register_core(&self, admin: Address, minter: Address, decimal: u32, name: String, symbol: String) -> Address {
        let id = self.deploy(Contract::AgUsdCore(AgUsdCore::empty()));
        AgUsdCoreClient::new(self, &id).initialize(&admin, &minter, &decimal, &name, &symbol);
        id
    }

    fn register_engine(&self, admin: Address, vault: Address) -> Address {
        let id = self.deploy(Contract::Engine(AllocationEngine::empty()));
        expect(self.run(id, |l, inv, me| {
            let mut c = l.engine(me);
            let d = c.__constructor(inv, admin, vault, l.admin_of_vault(vault))?;
            l.put(me, Contract::Engine(c));
            called(l.finish(inv, d))
        }));
        id
    }

    fn register_credit(&self, admin: Address, engine: Address, vault: Address, usdc: Address) -> Address {
        let id = self.deploy(Contract::Credit(PrivateCreditAdapter::empty()));
        expect(self.run(id, |l, inv, me| {
            let mut c = l.credit(me);
            let d = c.__constructor(inv, admin, engine, vault, usdc, l.governed(engine), l.custodied(vault))?;
            l.put(me, Contract::Credit(c));
            called(l.finish(inv, d))
        }));
        id
    }

    fn register_bond(&self, admin: Address, engine: Address, vault: Address, usdc: Address) -> Address {
        let id = self.deploy(Contract::Bond(EtherfuseAdapter::empty()));
        EtherfuseAdapterClient::new(self, &id).initialize(&admin, &engine, &vault, &usdc);
        id
    }

    fn register_oracle(&self, admin: Address) -> Address {
        let id = self.deploy(Contract::Oracle(OracleAdapter::empty()));
        expect(self.run(id, |l, inv, me| {
            let mut c = l.oracle(me);
            let d = c.__constructor(inv, admin)?;
            l.put(me, Contract::Oracle(c));
            called(l.finish(inv, d))
        }));
        id
    }

    fn register_staking(
        &self,
        admin: Address,
        agusd: Address,
        cooldown: u64,
        decimal: u32,
        name: String,
        symbol: String,
    ) -> Address {
        let id = self.deploy(Contract::Staking(Staking::empty()));
        expect(self.run(id, |l, inv, me| {
            let mut c = l.staking(me);
            let d = c.__constructor(inv, admin, agusd, cooldown, decimal, name, symbol)?;
            l.put(me, Contract::Staking(c));
            called(l.finish(inv, d))
        }));
        id
    }

    fn register_agusd(&self) -> Address {
        self.deploy(Contract::AgUsd(AgUsd::empty()))
    }

    fn register_hostile(&self) -> Address {
        self.deploy(Contract::Hostile(HostileEngine::empty()))
    }

    /// A vault that enforces nothing.
    fn stub_vault(&self, admin: Address, usdc: Address) -> Address {
        self.deploy(Contract::StubVault(StubVault {
            admin,
            usdc,
            queued: 0,
            released: 0,
            repaid: 0,
            written: 0,
            recovered: 0,
        }))
    }

    /// An engine that only says which vault it governs.
    fn stub_engine(&self, vault: Address) -> Address {
        self.deploy(Contract::StubEngine(vault))
    }

    fn stub(&self, vault: &Address) -> StubVault {
        match self.0.borrow().at(*vault) {
            Some(Contract::StubVault(c)) => c.clone(),
            _ => panic!("not a stub"),
        }
    }

    fn set_queued(&self, vault: &Address, queued: i128) {
        let mut c = self.stub(vault);
        c.queued = queued;
        self.0.borrow_mut().put(*vault, Contract::StubVault(c));
    }
}

/// A new account.
fn account(e: &Env) -> Address {
    e.0.borrow_mut().fresh(false)
}

/// A symbol of at most sixteen characters.
fn sym(text: &str) -> Symbol {
    let mut packed: u128 = 0;
    for (i, b) in text.bytes().enumerate() {
        packed |= (b as u128) << (120 - 8 * i);
    }
    Symbol::short(packed)
}

#[derive(Clone)]
struct MockUsdcClient {
    e: Env,
    address: Address,
}

impl MockUsdcClient {
    fn new(e: &Env, address: &Address) -> MockUsdcClient {
        MockUsdcClient { e: e.clone(), address: *address }
    }

    fn try_initialize(&self, admin: &Address, decimal: &u32, name: &String, symbol: &String) -> Result<(), Fault<Plain>> {
        self.e.run(self.address, |l, inv, me| l.usdc_initialize(inv, me, *admin, *decimal, name, symbol))
    }

    fn initialize(&self, admin: &Address, decimal: &u32, name: &String, symbol: &String) {
        expect(self.try_initialize(admin, decimal, name, symbol))
    }

    fn try_faucet(&self, to: &Address, amount: &i128) -> Result<(), Fault<Plain>> {
        self.e.run(self.address, |l, inv, me| l.usdc_faucet(inv, me, *to, *amount))
    }

    fn faucet(&self, to: &Address, amount: &i128) {
        expect(self.try_faucet(to, amount))
    }

    fn try_mint(&self, to: &Address, amount: &i128) -> Result<(), Fault<Plain>> {
        self.e.run(self.address, |l, inv, me| l.usdc_mint(inv, me, *to, *amount))
    }

    fn mint(&self, to: &Address, amount: &i128) {
        expect(self.try_mint(to, amount))
    }

    fn try_transfer(&self, from: &Address, to: &Address, amount: &i128) -> Result<(), Fault<Plain>> {
        self.e.run(self.address, |l, inv, me| l.usdc_transfer(inv, me, *from, *to, *amount))
    }

    fn transfer(&self, from: &Address, to: &Address, amount: &i128) {
        expect(self.try_transfer(from, to, amount))
    }

    fn try_burn(&self, from: &Address, amount: &i128) -> Result<(), Fault<Plain>> {
        self.e.run(self.address, |l, inv, me| l.usdc_burn(inv, me, *from, *amount))
    }

    fn burn(&self, from: &Address, amount: &i128) {
        expect(self.try_burn(from, amount))
    }

    fn try_approve(&self, from: &Address, spender: &Address, amount: &i128, expiration_ledger: &u32) -> Result<(), Fault<Plain>> {
        self.e.run(self.address, |l, inv, me| l.usdc_approve(inv, me, *from, *spender, *amount, *expiration_ledger))
    }

    fn approve(&self, from: &Address, spender: &Address, amount: &i128, expiration_ledger: &u32) {
        expect(self.try_approve(from, spender, amount, expiration_ledger))
    }

    fn try_transfer_from(&self, spender: &Address, from: &Address, to: &Address, amount: &i128) -> Result<(), Fault<Plain>> {
        self.e.run(self.address, |l, inv, me| l.usdc_transfer_from(inv, me, *spender, *from, *to, *amount))
    }

    fn transfer_from(&self, spender: &Address, from: &Address, to: &Address, amount: &i128) {
        expect(self.try_transfer_from(spender, from, to, amount))
    }

    fn try_burn_from(&self, spender: &Address, from: &Address, amount: &i128) -> Result<(), Fault<Plain>> {
        self.e.run(self.address, |l, inv, me| l.usdc_burn_from(inv, me, *spender, *from, *amount))
    }

    fn burn_from(&self, spender: &Address, from: &Address, amount: &i128) {
        expect(self.try_burn_from(spender, from, amount))
    }

    fn balance(&self, id: &Address) -> i128 {
        let l = self.e.0.borrow();
        let c = l.usdc(self.address);
        c.balance(*id)
    }

    fn allowance(&self, from: &Address, spender: &Address) -> i128 {
        let l = self.e.0.borrow();
        let c = l.usdc(self.address);
        c.allowance(&l.root(self.address), *from, *spender)
    }

    fn decimals(&self) -> u32 {
        let l = self.e.0.borrow();
        let c = l.usdc(self.address);
        c.decimals().unwrap()
    }

    fn name(&self) -> String {
        let l = self.e.0.borrow();
        let c = l.usdc(self.address);
        c.name().unwrap()
    }

    fn symbol(&self) -> String {
        let l = self.e.0.borrow();
        let c = l.usdc(self.address);
        c.symbol().unwrap()
    }

    fn total_supply(&self) -> i128 {
        let l = self.e.0.borrow();
        let c = l.usdc(self.address);
        c.total_supply()
    }
}

#[derive(Clone)]
struct AgUsdCoreClient {
    e: Env,
    address: Address,
}

impl AgUsdCoreClient {
    fn new(e: &Env, address: &Address) -> AgUsdCoreClient {
        AgUsdCoreClient { e: e.clone(), address: *address }
    }

    fn try_initialize(&self, admin: &Address, minter: &Address, decimal: &u32, name: &String, symbol: &String) -> Result<(), Fault<AgUsdCoreError>> {
        self.e.run(self.address, |l, inv, me| l.issued_initialize(inv, me, *admin, *minter, *decimal, name, symbol))
    }

    fn initialize(&self, admin: &Address, minter: &Address, decimal: &u32, name: &String, symbol: &String) {
        expect(self.try_initialize(admin, minter, decimal, name, symbol))
    }

    fn try_set_minter(&self, admin: &Address, minter: &Address) -> Result<(), Fault<AgUsdCoreError>> {
        self.e.run(self.address, |l, inv, me| l.issued_set_minter(inv, me, *admin, *minter))
    }

    fn set_minter(&self, admin: &Address, minter: &Address) {
        expect(self.try_set_minter(admin, minter))
    }

    fn try_mint(&self, to: &Address, amount: &i128) -> Result<(), Fault<AgUsdCoreError>> {
        self.e.run(self.address, |l, inv, me| l.issued_mint(inv, me, *to, *amount))
    }

    fn mint(&self, to: &Address, amount: &i128) {
        expect(self.try_mint(to, amount))
    }

    fn try_propose_admin(&self, admin: &Address, new_admin: &Address) -> Result<(), Fault<AgUsdCoreError>> {
        self.e.run(self.address, |l, inv, me| l.issued_propose_admin(inv, me, *admin, *new_admin))
    }

    fn propose_admin(&self, admin: &Address, new_admin: &Address) {
        expect(self.try_propose_admin(admin, new_admin))
    }

    fn try_accept_admin(&self, new_admin: &Address) -> Result<(), Fault<AgUsdCoreError>> {
        self.e.run(self.address, |l, inv, me| l.issued_accept_admin(inv, me, *new_admin))
    }

    fn accept_admin(&self, new_admin: &Address) {
        expect(self.try_accept_admin(new_admin))
    }

    fn pending_admin(&self) -> Option<Address> {
        let l = self.e.0.borrow();
        let c = l.issued(self.address);
        c.pending_admin()
    }

    fn try_transfer(&self, from: &Address, to: &Address, amount: &i128) -> Result<(), Fault<AgUsdCoreError>> {
        self.e.run(self.address, |l, inv, me| l.issued_transfer(inv, me, *from, *to, *amount))
    }

    fn transfer(&self, from: &Address, to: &Address, amount: &i128) {
        expect(self.try_transfer(from, to, amount))
    }

    fn try_burn(&self, from: &Address, amount: &i128) -> Result<(), Fault<AgUsdCoreError>> {
        self.e.run(self.address, |l, inv, me| l.issued_burn(inv, me, *from, *amount))
    }

    fn burn(&self, from: &Address, amount: &i128) {
        expect(self.try_burn(from, amount))
    }

    fn try_approve(&self, from: &Address, spender: &Address, amount: &i128, expiration_ledger: &u32) -> Result<(), Fault<AgUsdCoreError>> {
        self.e.run(self.address, |l, inv, me| l.issued_approve(inv, me, *from, *spender, *amount, *expiration_ledger))
    }

    fn approve(&self, from: &Address, spender: &Address, amount: &i128, expiration_ledger: &u32) {
        expect(self.try_approve(from, spender, amount, expiration_ledger))
    }

    fn try_transfer_from(&self, spender: &Address, from: &Address, to: &Address, amount: &i128) -> Result<(), Fault<AgUsdCoreError>> {
        self.e.run(self.address, |l, inv, me| l.issued_transfer_from(inv, me, *spender, *from, *to, *amount))
    }

    fn transfer_from(&self, spender: &Address, from: &Address, to: &Address, amount: &i128) {
        expect(self.try_transfer_from(spender, from, to, amount))
    }

    fn try_burn_from(&self, spender: &Address, from: &Address, amount: &i128) -> Result<(), Fault<AgUsdCoreError>> {
        self.e.run(self.address, |l, inv, me| l.issued_burn_from(inv, me, *spender, *from, *amount))
    }

    fn burn_from(&self, spender: &Address, from: &Address, amount: &i128) {
        expect(self.try_burn_from(spender, from, amount))
    }

    fn balance(&self, id: &Address) -> i128 {
        let l = self.e.0.borrow();
        let c = l.issued(self.address);
        c.balance(*id)
    }

    fn allowance(&self, from: &Address, spender: &Address) -> i128 {
        let l = self.e.0.borrow();
        let c = l.issued(self.address);
        c.allowance(&l.root(self.address), *from, *spender)
    }

    fn decimals(&self) -> u32 {
        let l = self.e.0.borrow();
        let c = l.issued(self.address);
        c.decimals().unwrap()
    }

    fn name(&self) -> String {
        let l = self.e.0.borrow();
        let c = l.issued(self.address);
        c.name().unwrap()
    }

    fn symbol(&self) -> String {
        let l = self.e.0.borrow();
        let c = l.issued(self.address);
        c.symbol().unwrap()
    }

    fn total_supply(&self) -> i128 {
        let l = self.e.0.borrow();
        let c = l.issued(self.address);
        c.total_supply()
    }

    fn mints(&self) -> u64 {
        let l = self.e.0.borrow();
        let c = l.issued(self.address);
        c.mints()
    }

    fn minter(&self) -> Address {
        let l = self.e.0.borrow();
        let c = l.issued(self.address);
        c.minter().unwrap()
    }

    fn admin(&self) -> Address {
        let l = self.e.0.borrow();
        let c = l.issued(self.address);
        c.admin().unwrap()
    }
}

#[derive(Clone)]
struct VaultClient {
    e: Env,
    address: Address,
}

impl VaultClient {
    fn new(e: &Env, address: &Address) -> VaultClient {
        VaultClient { e: e.clone(), address: *address }
    }

    fn try_set_reserve_floor(&self, admin: &Address, floor_bps: &u32) -> Result<(), Fault<VaultError>> {
        self.e.run(self.address, |l, inv, me| l.vault_set_reserve_floor(inv, me, *admin, *floor_bps))
    }

    fn set_reserve_floor(&self, admin: &Address, floor_bps: &u32) {
        expect(self.try_set_reserve_floor(admin, floor_bps))
    }

    fn try_set_oracle(&self, admin: &Address, oracle: &Address, feed_id: &Symbol) -> Result<(), Fault<VaultError>> {
        self.e.run(self.address, |l, inv, me| l.vault_set_oracle(inv, me, *admin, *oracle, *feed_id))
    }

    fn set_oracle(&self, admin: &Address, oracle: &Address, feed_id: &Symbol) {
        expect(self.try_set_oracle(admin, oracle, feed_id))
    }

    fn try_set_agusd(&self, admin: &Address, agusd_token: &Address) -> Result<(), Fault<VaultError>> {
        self.e.run(self.address, |l, inv, me| l.vault_set_agusd(inv, me, *admin, *agusd_token))
    }

    fn set_agusd(&self, admin: &Address, agusd_token: &Address) {
        expect(self.try_set_agusd(admin, agusd_token))
    }

    fn try_set_engine(&self, admin: &Address, allocation_engine: &Address) -> Result<(), Fault<VaultError>> {
        self.e.run(self.address, |l, inv, me| l.vault_set_engine(inv, me, *admin, *allocation_engine))
    }

    fn set_engine(&self, admin: &Address, allocation_engine: &Address) {
        expect(self.try_set_engine(admin, allocation_engine))
    }

    fn try_set_paused(&self, admin: &Address, paused: &bool) -> Result<(), Fault<VaultError>> {
        self.e.run(self.address, |l, inv, me| l.vault_set_paused(inv, me, *admin, *paused))
    }

    fn set_paused(&self, admin: &Address, paused: &bool) {
        expect(self.try_set_paused(admin, paused))
    }

    fn try_deposit(&self, from: &Address, amount: &i128) -> Result<i128, Fault<VaultError>> {
        self.e.run(self.address, |l, inv, me| l.vault_deposit(inv, me, *from, *amount))
    }

    fn deposit(&self, from: &Address, amount: &i128) -> i128 {
        expect(self.try_deposit(from, amount))
    }

    fn try_request_withdrawal(&self, from: &Address, amount: &i128) -> Result<u64, Fault<VaultError>> {
        self.e.run(self.address, |l, inv, me| l.vault_request_withdrawal(inv, me, *from, *amount))
    }

    fn request_withdrawal(&self, from: &Address, amount: &i128) -> u64 {
        expect(self.try_request_withdrawal(from, amount))
    }

    fn try_claim_withdrawal(&self, from: &Address, claim_id: &u64) -> Result<(), Fault<VaultError>> {
        self.e.run(self.address, |l, inv, me| l.vault_claim_withdrawal(inv, me, *from, *claim_id))
    }

    fn claim_withdrawal(&self, from: &Address, claim_id: &u64) {
        expect(self.try_claim_withdrawal(from, claim_id))
    }

    fn try_settle_withdrawal(&self) -> Result<u64, Fault<VaultError>> {
        self.e.run(self.address, |l, inv, me| l.vault_settle_withdrawal(inv, me))
    }

    fn settle_withdrawal(&self) -> u64 {
        expect(self.try_settle_withdrawal())
    }

    fn try_settle_allocation(&self, pool: &Address, amount: &i128) -> Result<(), Fault<VaultError>> {
        self.e.run(self.address, |l, inv, me| l.vault_settle_allocation(inv, me, *pool, *amount))
    }

    fn settle_allocation(&self, pool: &Address, amount: &i128) {
        expect(self.try_settle_allocation(pool, amount))
    }

    fn try_record_repayment(&self, amount: &i128) -> Result<(), Fault<VaultError>> {
        self.e.run(self.address, |l, inv, me| l.vault_record_repayment(inv, me, *amount))
    }

    fn record_repayment(&self, amount: &i128) {
        expect(self.try_record_repayment(amount))
    }

    fn try_record_writedown(&self, admin: &Address, amount: &i128) -> Result<(), Fault<VaultError>> {
        self.e.run(self.address, |l, inv, me| l.vault_record_writedown(inv, me, *admin, *amount))
    }

    fn record_writedown(&self, admin: &Address, amount: &i128) {
        expect(self.try_record_writedown(admin, amount))
    }

    fn try_record_recovery(&self, admin: &Address, amount: &i128) -> Result<(), Fault<VaultError>> {
        self.e.run(self.address, |l, inv, me| l.vault_record_recovery(inv, me, *admin, *amount))
    }

    fn record_recovery(&self, admin: &Address, amount: &i128) {
        expect(self.try_record_recovery(admin, amount))
    }

    fn try_propose_admin(&self, admin: &Address, new_admin: &Address) -> Result<(), Fault<VaultError>> {
        self.e.run(self.address, |l, inv, me| l.vault_propose_admin(inv, me, *admin, *new_admin))
    }

    fn propose_admin(&self, admin: &Address, new_admin: &Address) {
        expect(self.try_propose_admin(admin, new_admin))
    }

    fn try_accept_admin(&self, new_admin: &Address) -> Result<(), Fault<VaultError>> {
        self.e.run(self.address, |l, inv, me| l.vault_accept_admin(inv, me, *new_admin))
    }

    fn accept_admin(&self, new_admin: &Address) {
        expect(self.try_accept_admin(new_admin))
    }

    fn pending_admin(&self) -> Option<Address> {
        let l = self.e.0.borrow();
        let c = l.vault(self.address);
        c.pending_admin()
    }

    fn try_get_claim(&self, claim_id: &u64) -> Result<Claim, Fault<VaultError>> {
        let l = self.e.0.borrow();
        let c = l.vault(self.address);
        refused(c.get_claim(*claim_id))
    }

    fn get_claim(&self, claim_id: &u64) -> Claim {
        expect(self.try_get_claim(claim_id))
    }

    fn try_claim_status(&self, claim_id: &u64) -> Result<ClaimStatus, Fault<VaultError>> {
        let l = self.e.0.borrow();
        let c = l.vault(self.address);
        refused(c.claim_status(*claim_id, l.cash(self.address)))
    }

    fn claim_status(&self, claim_id: &u64) -> ClaimStatus {
        expect(self.try_claim_status(claim_id))
    }

    fn try_get_nav(&self) -> Result<i128, Fault<VaultError>> {
        let l = self.e.0.borrow();
        let c = l.vault(self.address);
        let reading = match (c.oracle(), c.oracle_feed()) {
            (Ok(o), Ok(f)) => l.oracle(o).get_nav(&l.root(o), f).map_err(|e| InvokeError::Contract(e.code())),
            _ => Err(InvokeError::Abort),
        };
        c.get_nav(reading)
    }

    fn get_nav(&self) -> i128 {
        expect(self.try_get_nav())
    }

    fn idle_reserves(&self) -> i128 {
        let l = self.e.0.borrow();
        let c = l.vault(self.address);
        c.idle_reserves(l.cash(self.address))
    }

    fn outstanding_liabilities(&self) -> i128 {
        let l = self.e.0.borrow();
        let c = l.vault(self.address);
        c.outstanding_liabilities()
    }

    fn free_reserves(&self) -> i128 {
        let l = self.e.0.borrow();
        let c = l.vault(self.address);
        c.free_reserves(l.cash(self.address)).unwrap()
    }

    fn deployed_capital(&self) -> i128 {
        let l = self.e.0.borrow();
        let c = l.vault(self.address);
        c.deployed_capital()
    }

    fn booked_reserves(&self) -> i128 {
        let l = self.e.0.borrow();
        let c = l.vault(self.address);
        c.booked_reserves()
    }

    fn reserve_floor_bps(&self) -> u32 {
        let l = self.e.0.borrow();
        let c = l.vault(self.address);
        c.reserve_floor_bps()
    }

    fn get_total_assets(&self) -> i128 {
        let l = self.e.0.borrow();
        let c = l.vault(self.address);
        expect(c.get_total_assets(l.cash(self.address)))
    }

    fn get_net_assets(&self) -> i128 {
        let l = self.e.0.borrow();
        let c = l.vault(self.address);
        expect(c.get_net_assets(l.cash(self.address)))
    }

    fn recognised_losses(&self) -> i128 {
        let l = self.e.0.borrow();
        let c = l.vault(self.address);
        c.recognised_losses()
    }

    fn floor_base(&self) -> i128 {
        let l = self.e.0.borrow();
        let c = l.vault(self.address);
        expect(c.floor_base(l.cash(self.address)))
    }

    fn queue_head(&self) -> u64 {
        let l = self.e.0.borrow();
        let c = l.vault(self.address);
        c.queue_head()
    }

    fn queue_tail(&self) -> u64 {
        let l = self.e.0.borrow();
        let c = l.vault(self.address);
        c.queue_tail()
    }

    fn queue_length(&self) -> u64 {
        let l = self.e.0.borrow();
        let c = l.vault(self.address);
        c.queue_length().unwrap()
    }

    fn deposits(&self) -> u64 {
        let l = self.e.0.borrow();
        let c = l.vault(self.address);
        c.deposits()
    }

    fn paused(&self) -> bool {
        let l = self.e.0.borrow();
        let c = l.vault(self.address);
        c.paused()
    }

    fn admin(&self) -> Address {
        let l = self.e.0.borrow();
        let c = l.vault(self.address);
        c.admin().unwrap()
    }

    fn agusd(&self) -> Address {
        let l = self.e.0.borrow();
        let c = l.vault(self.address);
        c.agusd().unwrap()
    }

    fn allocation_engine(&self) -> Address {
        let l = self.e.0.borrow();
        let c = l.vault(self.address);
        c.allocation_engine().unwrap()
    }

    fn is_deferred(&self, claim_id: &u64) -> bool {
        let l = self.e.0.borrow();
        let c = l.vault(self.address);
        c.is_deferred(*claim_id)
    }
}

#[derive(Clone)]
struct AllocationEngineClient {
    e: Env,
    address: Address,
}

impl AllocationEngineClient {
    fn new(e: &Env, address: &Address) -> AllocationEngineClient {
        AllocationEngineClient { e: e.clone(), address: *address }
    }

    fn try_set_vault(&self, admin: &Address, vault: &Address) -> Result<(), Fault<EngineError>> {
        self.e.run(self.address, |l, inv, me| l.engine_set_vault(inv, me, *admin, *vault))
    }

    fn set_vault(&self, admin: &Address, vault: &Address) {
        expect(self.try_set_vault(admin, vault))
    }

    fn try_register_pool(&self, admin: &Address, pool_id: &Address, originator: &Symbol, jurisdiction: &Symbol, cap_bps: &u32) -> Result<(), Fault<EngineError>> {
        self.e.run(self.address, |l, inv, me| l.engine_register_pool(inv, me, *admin, *pool_id, *originator, *jurisdiction, *cap_bps))
    }

    fn register_pool(&self, admin: &Address, pool_id: &Address, originator: &Symbol, jurisdiction: &Symbol, cap_bps: &u32) {
        expect(self.try_register_pool(admin, pool_id, originator, jurisdiction, cap_bps))
    }

    fn try_set_pool_cap(&self, admin: &Address, pool_id: &Address, cap_bps: &u32) -> Result<(), Fault<EngineError>> {
        self.e.run(self.address, |l, inv, me| l.engine_set_pool_cap(inv, me, *admin, *pool_id, *cap_bps))
    }

    fn set_pool_cap(&self, admin: &Address, pool_id: &Address, cap_bps: &u32) {
        expect(self.try_set_pool_cap(admin, pool_id, cap_bps))
    }

    fn try_unregister_pool(&self, admin: &Address, pool_id: &Address) -> Result<(), Fault<EngineError>> {
        self.e.run(self.address, |l, inv, me| l.engine_unregister_pool(inv, me, *admin, *pool_id))
    }

    fn unregister_pool(&self, admin: &Address, pool_id: &Address) {
        expect(self.try_unregister_pool(admin, pool_id))
    }

    fn try_set_caps(&self, admin: &Address, pool_bps: &u32, originator_bps: &u32, jurisdiction_bps: &u32) -> Result<(), Fault<EngineError>> {
        self.e.run(self.address, |l, inv, me| l.engine_set_caps(inv, me, *admin, *pool_bps, *originator_bps, *jurisdiction_bps))
    }

    fn set_caps(&self, admin: &Address, pool_bps: &u32, originator_bps: &u32, jurisdiction_bps: &u32) {
        expect(self.try_set_caps(admin, pool_bps, originator_bps, jurisdiction_bps))
    }

    fn try_set_reserve_floor(&self, admin: &Address, floor_bps: &u32) -> Result<(), Fault<EngineError>> {
        self.e.run(self.address, |l, inv, me| l.engine_set_reserve_floor(inv, me, *admin, *floor_bps))
    }

    fn set_reserve_floor(&self, admin: &Address, floor_bps: &u32) {
        expect(self.try_set_reserve_floor(admin, floor_bps))
    }

    fn try_allocate(&self, admin: &Address, pool_id: &Address, amount: &i128) -> Result<(), Fault<EngineError>> {
        self.e.run(self.address, |l, inv, me| l.engine_allocate(inv, me, *admin, *pool_id, *amount))
    }

    fn allocate(&self, admin: &Address, pool_id: &Address, amount: &i128) {
        expect(self.try_allocate(admin, pool_id, amount))
    }

    fn try_deallocate(&self, pool_id: &Address, amount: &i128) -> Result<(), Fault<EngineError>> {
        self.e.run(self.address, |l, inv, me| l.engine_deallocate(inv, me, *pool_id, *amount))
    }

    fn deallocate(&self, pool_id: &Address, amount: &i128) {
        expect(self.try_deallocate(pool_id, amount))
    }

    fn try_write_down(&self, admin: &Address, pool_id: &Address, amount: &i128, reason: &Symbol) -> Result<(), Fault<EngineError>> {
        self.e.run(self.address, |l, inv, me| l.engine_write_down(inv, me, *admin, *pool_id, *amount, *reason))
    }

    fn write_down(&self, admin: &Address, pool_id: &Address, amount: &i128, reason: &Symbol) {
        expect(self.try_write_down(admin, pool_id, amount, reason))
    }

    fn try_recover(&self, admin: &Address, pool_id: &Address) -> Result<i128, Fault<EngineError>> {
        self.e.run(self.address, |l, inv, me| l.engine_recover(inv, me, *admin, *pool_id))
    }

    fn recover(&self, admin: &Address, pool_id: &Address) -> i128 {
        expect(self.try_recover(admin, pool_id))
    }

    fn try_book_recovery(&self, admin: &Address, pool_id: &Address, amount: &i128) -> Result<(), Fault<EngineError>> {
        self.e.run(self.address, |l, inv, me| l.engine_book_recovery(inv, me, *admin, *pool_id, *amount))
    }

    fn book_recovery(&self, admin: &Address, pool_id: &Address, amount: &i128) {
        expect(self.try_book_recovery(admin, pool_id, amount))
    }

    fn try_propose_admin(&self, admin: &Address, new_admin: &Address) -> Result<(), Fault<EngineError>> {
        self.e.run(self.address, |l, inv, me| l.engine_propose_admin(inv, me, *admin, *new_admin))
    }

    fn propose_admin(&self, admin: &Address, new_admin: &Address) {
        expect(self.try_propose_admin(admin, new_admin))
    }

    fn try_accept_admin(&self, new_admin: &Address) -> Result<(), Fault<EngineError>> {
        self.e.run(self.address, |l, inv, me| l.engine_accept_admin(inv, me, *new_admin))
    }

    fn accept_admin(&self, new_admin: &Address) {
        expect(self.try_accept_admin(new_admin))
    }

    fn pending_admin(&self) -> Option<Address> {
        let l = self.e.0.borrow();
        let c = l.engine(self.address);
        c.pending_admin()
    }

    fn written_off(&self) -> i128 {
        let l = self.e.0.borrow();
        let c = l.engine(self.address);
        c.written_off()
    }

    fn total_allocated(&self) -> i128 {
        let l = self.e.0.borrow();
        let c = l.engine(self.address);
        c.total_allocated()
    }

    fn caps(&self) -> Caps {
        let l = self.e.0.borrow();
        let c = l.engine(self.address);
        c.caps()
    }

    fn reserve_floor_bps(&self) -> u32 {
        let l = self.e.0.borrow();
        let c = l.engine(self.address);
        c.reserve_floor_bps()
    }

    fn pools(&self) -> Vec<Address> {
        let l = self.e.0.borrow();
        let c = l.engine(self.address);
        c.pools()
    }

    fn vault(&self) -> Address {
        let l = self.e.0.borrow();
        let c = l.engine(self.address);
        c.vault().unwrap()
    }

    fn admin(&self) -> Address {
        let l = self.e.0.borrow();
        let c = l.engine(self.address);
        c.admin().unwrap()
    }

    fn get_exposures(&self) -> Table<Address, i128> {
        let l = self.e.0.borrow();
        let c = l.engine(self.address);
        c.get_exposures()
    }

    fn get_reserve_ratio(&self) -> u32 {
        let l = self.e.0.borrow();
        let c = l.engine(self.address);
        let v = c.vault().unwrap();
        expect(c.get_reserve_ratio(l.free_reserves(v), l.floor_base(v)))
    }

    fn floor_base(&self) -> i128 {
        let l = self.e.0.borrow();
        let c = l.engine(self.address);
        let v = c.vault().unwrap();
        expect(c.floor_base(l.floor_base(v)))
    }

    fn vault_admin(&self) -> Address {
        let l = self.e.0.borrow();
        let c = l.engine(self.address);
        let v = c.vault().unwrap();
        expect(c.vault_admin(l.admin_of_vault(v)))
    }

    fn admin_aligned(&self) -> bool {
        let l = self.e.0.borrow();
        let c = l.engine(self.address);
        let v = c.vault().unwrap();
        c.admin_aligned(l.admin_of_vault(v))
    }

    fn written_off_pool(&self, pool_id: &Address) -> i128 {
        let l = self.e.0.borrow();
        let c = l.engine(self.address);
        c.written_off_pool(*pool_id)
    }

    fn charged_exposure(&self, pool_id: &Address) -> i128 {
        let l = self.e.0.borrow();
        let c = l.engine(self.address);
        c.charged_exposure(*pool_id).unwrap()
    }

    fn get_exposure(&self, pool_id: &Address) -> i128 {
        let l = self.e.0.borrow();
        let c = l.engine(self.address);
        c.get_exposure(*pool_id)
    }

    fn try_get_pool(&self, pool_id: &Address) -> Result<Pool, Fault<EngineError>> {
        let l = self.e.0.borrow();
        let c = l.engine(self.address);
        refused(c.get_pool(*pool_id))
    }

    fn get_pool(&self, pool_id: &Address) -> Pool {
        expect(self.try_get_pool(pool_id))
    }
}

#[derive(Clone)]
struct PrivateCreditAdapterClient {
    e: Env,
    address: Address,
}

impl PrivateCreditAdapterClient {
    fn new(e: &Env, address: &Address) -> PrivateCreditAdapterClient {
        PrivateCreditAdapterClient { e: e.clone(), address: *address }
    }

    fn try_set_counterparties(&self, admin: &Address, engine: &Address, vault: &Address) -> Result<(), Fault<private_credit::AdapterError>> {
        self.e.run(self.address, |l, inv, me| l.credit_set_counterparties(inv, me, *admin, *engine, *vault))
    }

    fn set_counterparties(&self, admin: &Address, engine: &Address, vault: &Address) {
        expect(self.try_set_counterparties(admin, engine, vault))
    }

    fn try_allocate(&self, amount: &i128) -> Result<(), Fault<private_credit::AdapterError>> {
        self.e.run(self.address, |l, inv, me| l.credit_allocate(inv, me, *amount))
    }

    fn allocate(&self, amount: &i128) {
        expect(self.try_allocate(amount))
    }

    fn try_deallocate(&self, amount: &i128) -> Result<(), Fault<private_credit::AdapterError>> {
        self.e.run(self.address, |l, inv, me| l.credit_deallocate(inv, me, *amount))
    }

    fn deallocate(&self, amount: &i128) {
        expect(self.try_deallocate(amount))
    }

    fn try_write_down(&self, amount: &i128) -> Result<(), Fault<private_credit::AdapterError>> {
        self.e.run(self.address, |l, inv, me| l.credit_write_down(inv, me, *amount))
    }

    fn write_down(&self, amount: &i128) {
        expect(self.try_write_down(amount))
    }

    fn try_recover_surplus(&self, caller: &Address) -> Result<i128, Fault<private_credit::AdapterError>> {
        self.e.run(self.address, |l, inv, me| l.credit_recover_surplus(inv, me, *caller))
    }

    fn recover_surplus(&self, caller: &Address) -> i128 {
        expect(self.try_recover_surplus(caller))
    }

    fn try_propose_admin(&self, admin: &Address, new_admin: &Address) -> Result<(), Fault<private_credit::AdapterError>> {
        self.e.run(self.address, |l, inv, me| l.credit_propose_admin(inv, me, *admin, *new_admin))
    }

    fn propose_admin(&self, admin: &Address, new_admin: &Address) {
        expect(self.try_propose_admin(admin, new_admin))
    }

    fn try_accept_admin(&self, new_admin: &Address) -> Result<(), Fault<private_credit::AdapterError>> {
        self.e.run(self.address, |l, inv, me| l.credit_accept_admin(inv, me, *new_admin))
    }

    fn accept_admin(&self, new_admin: &Address) {
        expect(self.try_accept_admin(new_admin))
    }

    fn pending_admin(&self) -> Option<Address> {
        let l = self.e.0.borrow();
        let c = l.credit(self.address);
        c.pending_admin()
    }

    fn get_exposure(&self) -> i128 {
        let l = self.e.0.borrow();
        let c = l.credit(self.address);
        c.get_exposure()
    }

    fn engine(&self) -> Address {
        let l = self.e.0.borrow();
        let c = l.credit(self.address);
        c.engine().unwrap()
    }

    fn vault(&self) -> Address {
        let l = self.e.0.borrow();
        let c = l.credit(self.address);
        c.vault().unwrap()
    }

    fn admin(&self) -> Address {
        let l = self.e.0.borrow();
        let c = l.credit(self.address);
        c.admin().unwrap()
    }

    fn pool_kind(&self) -> Symbol {
        PrivateCreditAdapter::pool_kind()
    }

    fn oracle_feed(&self) -> Symbol {
        PrivateCreditAdapter::oracle_feed()
    }

    fn settlement_window(&self) -> (u32, u32) {
        PrivateCreditAdapter::settlement_window()
    }
}

#[derive(Clone)]
struct EtherfuseAdapterClient {
    e: Env,
    address: Address,
}

impl EtherfuseAdapterClient {
    fn new(e: &Env, address: &Address) -> EtherfuseAdapterClient {
        EtherfuseAdapterClient { e: e.clone(), address: *address }
    }

    fn try_initialize(&self, admin: &Address, engine: &Address, vault: &Address, usdc: &Address) -> Result<(), Fault<etherfuse::AdapterError>> {
        self.e.run(self.address, |l, inv, me| l.bond_initialize(inv, me, *admin, *engine, *vault, *usdc))
    }

    fn initialize(&self, admin: &Address, engine: &Address, vault: &Address, usdc: &Address) {
        expect(self.try_initialize(admin, engine, vault, usdc))
    }

    fn try_set_counterparties(&self, admin: &Address, engine: &Address, vault: &Address) -> Result<(), Fault<etherfuse::AdapterError>> {
        self.e.run(self.address, |l, inv, me| l.bond_set_counterparties(inv, me, *admin, *engine, *vault))
    }

    fn set_counterparties(&self, admin: &Address, engine: &Address, vault: &Address) {
        expect(self.try_set_counterparties(admin, engine, vault))
    }

    fn try_allocate(&self, amount: &i128) -> Result<(), Fault<etherfuse::AdapterError>> {
        self.e.run(self.address, |l, inv, me| l.bond_allocate(inv, me, *amount))
    }

    fn allocate(&self, amount: &i128) {
        expect(self.try_allocate(amount))
    }

    fn try_deallocate(&self, amount: &i128) -> Result<(), Fault<etherfuse::AdapterError>> {
        self.e.run(self.address, |l, inv, me| l.bond_deallocate(inv, me, *amount))
    }

    fn deallocate(&self, amount: &i128) {
        expect(self.try_deallocate(amount))
    }

    fn try_write_down(&self, amount: &i128) -> Result<(), Fault<etherfuse::AdapterError>> {
        self.e.run(self.address, |l, inv, me| l.bond_write_down(inv, me, *amount))
    }

    fn write_down(&self, amount: &i128) {
        expect(self.try_write_down(amount))
    }

    fn try_recover_surplus(&self, caller: &Address) -> Result<i128, Fault<etherfuse::AdapterError>> {
        self.e.run(self.address, |l, inv, me| l.bond_recover_surplus(inv, me, *caller))
    }

    fn recover_surplus(&self, caller: &Address) -> i128 {
        expect(self.try_recover_surplus(caller))
    }

    fn try_propose_admin(&self, admin: &Address, new_admin: &Address) -> Result<(), Fault<etherfuse::AdapterError>> {
        self.e.run(self.address, |l, inv, me| l.bond_propose_admin(inv, me, *admin, *new_admin))
    }

    fn propose_admin(&self, admin: &Address, new_admin: &Address) {
        expect(self.try_propose_admin(admin, new_admin))
    }

    fn try_accept_admin(&self, new_admin: &Address) -> Result<(), Fault<etherfuse::AdapterError>> {
        self.e.run(self.address, |l, inv, me| l.bond_accept_admin(inv, me, *new_admin))
    }

    fn accept_admin(&self, new_admin: &Address) {
        expect(self.try_accept_admin(new_admin))
    }

    fn pending_admin(&self) -> Option<Address> {
        let l = self.e.0.borrow();
        let c = l.bond(self.address);
        c.pending_admin()
    }

    fn get_exposure(&self) -> i128 {
        let l = self.e.0.borrow();
        let c = l.bond(self.address);
        c.get_exposure()
    }

    fn engine(&self) -> Address {
        let l = self.e.0.borrow();
        let c = l.bond(self.address);
        c.engine().unwrap()
    }

    fn vault(&self) -> Address {
        let l = self.e.0.borrow();
        let c = l.bond(self.address);
        c.vault().unwrap()
    }

    fn admin(&self) -> Address {
        let l = self.e.0.borrow();
        let c = l.bond(self.address);
        c.admin().unwrap()
    }

    fn pool_kind(&self) -> Symbol {
        EtherfuseAdapter::pool_kind()
    }

    fn oracle_feed(&self) -> Symbol {
        EtherfuseAdapter::oracle_feed()
    }

    fn settlement_days(&self) -> u32 {
        EtherfuseAdapter::settlement_days()
    }
}

#[derive(Clone)]
struct OracleAdapterClient {
    e: Env,
    address: Address,
}

impl OracleAdapterClient {
    fn new(e: &Env, address: &Address) -> OracleAdapterClient {
        OracleAdapterClient { e: e.clone(), address: *address }
    }

    fn try_add_reporter(&self, admin: &Address, reporter: &Address) -> Result<(), Fault<OracleError>> {
        self.e.run(self.address, |l, inv, me| l.oracle_add_reporter(inv, me, *admin, *reporter))
    }

    fn add_reporter(&self, admin: &Address, reporter: &Address) {
        expect(self.try_add_reporter(admin, reporter))
    }

    fn try_register_feed(&self, admin: &Address, feed_id: &Symbol, staleness_secs: &u64, deviation_bps: &u32, min_nav: &i128, max_nav: &i128, min_interval_secs: &u64) -> Result<(), Fault<OracleError>> {
        self.e.run(self.address, |l, inv, me| l.oracle_register_feed(inv, me, *admin, *feed_id, *staleness_secs, *deviation_bps, *min_nav, *max_nav, *min_interval_secs))
    }

    fn register_feed(&self, admin: &Address, feed_id: &Symbol, staleness_secs: &u64, deviation_bps: &u32, min_nav: &i128, max_nav: &i128, min_interval_secs: &u64) {
        expect(self.try_register_feed(admin, feed_id, staleness_secs, deviation_bps, min_nav, max_nav, min_interval_secs))
    }

    fn try_push_nav(&self, reporter: &Address, feed_id: &Symbol, nav: &i128, timestamp: &u64) -> Result<(), Fault<OracleError>> {
        self.e.run(self.address, |l, inv, me| l.oracle_push_nav(inv, me, *reporter, *feed_id, *nav, *timestamp))
    }

    fn push_nav(&self, reporter: &Address, feed_id: &Symbol, nav: &i128, timestamp: &u64) {
        expect(self.try_push_nav(reporter, feed_id, nav, timestamp))
    }
}

#[derive(Clone)]
struct StakingClient {
    e: Env,
    address: Address,
}

impl StakingClient {
    fn new(e: &Env, address: &Address) -> StakingClient {
        StakingClient { e: e.clone(), address: *address }
    }

    fn try_set_agusd(&self, admin: &Address, agusd: &Address) -> Result<(), Fault<StakingError>> {
        self.e.run(self.address, |l, inv, me| l.staking_set_agusd(inv, me, *admin, *agusd))
    }

    fn set_agusd(&self, admin: &Address, agusd: &Address) {
        expect(self.try_set_agusd(admin, agusd))
    }

    fn try_stake(&self, from: &Address, amount: &i128) -> Result<i128, Fault<StakingError>> {
        self.e.run(self.address, |l, inv, me| l.staking_stake(inv, me, *from, *amount))
    }

    fn stake(&self, from: &Address, amount: &i128) -> i128 {
        expect(self.try_stake(from, amount))
    }

    fn try_request_unstake(&self, from: &Address, shares: &i128) -> Result<i128, Fault<StakingError>> {
        self.e.run(self.address, |l, inv, me| l.staking_request_unstake(inv, me, *from, *shares))
    }

    fn request_unstake(&self, from: &Address, shares: &i128) -> i128 {
        expect(self.try_request_unstake(from, shares))
    }

    fn try_bump_pending(&self, addr: &Address) -> Result<(), Fault<StakingError>> {
        self.e.run(self.address, |l, inv, me| l.staking_bump_pending(inv, me, *addr))
    }

    fn bump_pending(&self, addr: &Address) {
        expect(self.try_bump_pending(addr))
    }

    fn try_claim(&self, from: &Address) -> Result<i128, Fault<StakingError>> {
        self.e.run(self.address, |l, inv, me| l.staking_claim(inv, me, *from))
    }

    fn claim(&self, from: &Address) -> i128 {
        expect(self.try_claim(from))
    }

    fn try_distribute_yield(&self, amount: &i128) -> Result<(), Fault<StakingError>> {
        self.e.run(self.address, |l, inv, me| l.staking_distribute_yield(inv, me, *amount))
    }

    fn distribute_yield(&self, amount: &i128) {
        expect(self.try_distribute_yield(amount))
    }

    fn try_set_allocations(&self, allocations: &Vec<Allocation>) -> Result<(), Fault<StakingError>> {
        self.e.run(self.address, |l, inv, me| l.staking_set_allocations(inv, me, allocations))
    }

    fn set_allocations(&self, allocations: &Vec<Allocation>) {
        expect(self.try_set_allocations(allocations))
    }

    fn try_propose_admin(&self, admin: &Address, new_admin: &Address) -> Result<(), Fault<StakingError>> {
        self.e.run(self.address, |l, inv, me| l.staking_propose_admin(inv, me, *admin, *new_admin))
    }

    fn propose_admin(&self, admin: &Address, new_admin: &Address) {
        expect(self.try_propose_admin(admin, new_admin))
    }

    fn try_accept_admin(&self, new_admin: &Address) -> Result<(), Fault<StakingError>> {
        self.e.run(self.address, |l, inv, me| l.staking_accept_admin(inv, me, *new_admin))
    }

    fn accept_admin(&self, new_admin: &Address) {
        expect(self.try_accept_admin(new_admin))
    }

    fn pending_admin(&self) -> Option<Address> {
        let l = self.e.0.borrow();
        let c = l.staking(self.address);
        c.pending_admin()
    }

    fn nav(&self) -> i128 {
        let l = self.e.0.borrow();
        let c = l.staking(self.address);
        c.nav()
    }

    fn total_shares(&self) -> i128 {
        let l = self.e.0.borrow();
        let c = l.staking(self.address);
        c.total_shares()
    }

    fn exchange_rate(&self) -> i128 {
        let l = self.e.0.borrow();
        let c = l.staking(self.address);
        c.exchange_rate().unwrap()
    }

    fn share_price(&self) -> i128 {
        let l = self.e.0.borrow();
        let c = l.staking(self.address);
        c.share_price().unwrap()
    }

    fn allocations(&self) -> Vec<Allocation> {
        let l = self.e.0.borrow();
        let c = l.staking(self.address);
        c.allocations().clone()
    }

    fn agusd(&self) -> Address {
        let l = self.e.0.borrow();
        let c = l.staking(self.address);
        c.agusd().unwrap()
    }

    fn admin(&self) -> Address {
        let l = self.e.0.borrow();
        let c = l.staking(self.address);
        c.admin().unwrap()
    }

    fn stakes(&self) -> u64 {
        let l = self.e.0.borrow();
        let c = l.staking(self.address);
        c.stakes()
    }

    fn pending(&self, addr: &Address) -> Pending {
        let l = self.e.0.borrow();
        let c = l.staking(self.address);
        c.pending(*addr)
    }

    fn try_transfer(&self, from: &Address, to: &Address, amount: &i128) -> Result<(), Fault<StakingError>> {
        self.e.run(self.address, |l, inv, me| l.staking_transfer(inv, me, *from, *to, *amount))
    }

    fn transfer(&self, from: &Address, to: &Address, amount: &i128) {
        expect(self.try_transfer(from, to, amount))
    }

    fn try_approve(&self, from: &Address, spender: &Address, amount: &i128, expiration_ledger: &u32) -> Result<(), Fault<StakingError>> {
        self.e.run(self.address, |l, inv, me| l.staking_approve(inv, me, *from, *spender, *amount, *expiration_ledger))
    }

    fn approve(&self, from: &Address, spender: &Address, amount: &i128, expiration_ledger: &u32) {
        expect(self.try_approve(from, spender, amount, expiration_ledger))
    }

    fn try_transfer_from(&self, spender: &Address, from: &Address, to: &Address, amount: &i128) -> Result<(), Fault<StakingError>> {
        self.e.run(self.address, |l, inv, me| l.staking_transfer_from(inv, me, *spender, *from, *to, *amount))
    }

    fn transfer_from(&self, spender: &Address, from: &Address, to: &Address, amount: &i128) {
        expect(self.try_transfer_from(spender, from, to, amount))
    }

    fn balance(&self, id: &Address) -> i128 {
        let l = self.e.0.borrow();
        let c = l.staking(self.address);
        c.balance(*id)
    }

    fn allowance(&self, from: &Address, spender: &Address) -> i128 {
        let l = self.e.0.borrow();
        let c = l.staking(self.address);
        c.allowance(&l.root(self.address), *from, *spender)
    }

    fn decimals(&self) -> u32 {
        let l = self.e.0.borrow();
        let c = l.staking(self.address);
        c.decimals().unwrap()
    }

    fn name(&self) -> String {
        let l = self.e.0.borrow();
        let c = l.staking(self.address);
        c.name().unwrap()
    }

    fn symbol(&self) -> String {
        let l = self.e.0.borrow();
        let c = l.staking(self.address);
        c.symbol().unwrap()
    }

    fn total_supply(&self) -> i128 {
        let l = self.e.0.borrow();
        let c = l.staking(self.address);
        c.total_supply()
    }
}

#[derive(Clone)]
struct AgUsdClient {
    e: Env,
    address: Address,
}

impl AgUsdClient {
    fn new(e: &Env, address: &Address) -> AgUsdClient {
        AgUsdClient { e: e.clone(), address: *address }
    }

    fn try_initialize(&self, admin: &Address, usdc: &Address, treasury: &Address, buffer_bps: &u32, decimal: &u32, name: &String, symbol: &String) -> Result<(), Fault<AgUsdError>> {
        self.e.run(self.address, |l, inv, me| l.agusd_initialize(inv, me, *admin, *usdc, *treasury, *buffer_bps, *decimal, name, symbol))
    }

    fn initialize(&self, admin: &Address, usdc: &Address, treasury: &Address, buffer_bps: &u32, decimal: &u32, name: &String, symbol: &String) {
        expect(self.try_initialize(admin, usdc, treasury, buffer_bps, decimal, name, symbol))
    }

    fn try_set_targets(&self, targets: &Vec<Target>) -> Result<(), Fault<AgUsdError>> {
        self.e.run(self.address, |l, inv, me| l.agusd_set_targets(inv, me, targets))
    }

    fn set_targets(&self, targets: &Vec<Target>) {
        expect(self.try_set_targets(targets))
    }

    fn try_set_buffer_bps(&self, buffer_bps: &u32) -> Result<(), Fault<AgUsdError>> {
        self.e.run(self.address, |l, inv, me| l.agusd_set_buffer_bps(inv, me, *buffer_bps))
    }

    fn set_buffer_bps(&self, buffer_bps: &u32) {
        expect(self.try_set_buffer_bps(buffer_bps))
    }

    fn try_deposit(&self, from: &Address, amount: &i128) -> Result<(), Fault<AgUsdError>> {
        self.e.run(self.address, |l, inv, me| l.agusd_deposit(inv, me, *from, *amount))
    }

    fn deposit(&self, from: &Address, amount: &i128) {
        expect(self.try_deposit(from, amount))
    }

    fn try_redeem(&self, from: &Address, amount: &i128) -> Result<(), Fault<AgUsdError>> {
        self.e.run(self.address, |l, inv, me| l.agusd_redeem(inv, me, *from, *amount))
    }

    fn redeem(&self, from: &Address, amount: &i128) {
        expect(self.try_redeem(from, amount))
    }

    fn try_rebalance(&self) -> Result<(), Fault<AgUsdError>> {
        self.e.run(self.address, |l, inv, me| l.agusd_rebalance(inv, me))
    }

    fn rebalance(&self) {
        expect(self.try_rebalance())
    }

    fn try_sweep(&self, amount: &i128) -> Result<(), Fault<AgUsdError>> {
        self.e.run(self.address, |l, inv, me| l.agusd_sweep(inv, me, *amount))
    }

    fn sweep(&self, amount: &i128) {
        expect(self.try_sweep(amount))
    }

    fn try_refund_reserve(&self, from: &Address, amount: &i128) -> Result<(), Fault<AgUsdError>> {
        self.e.run(self.address, |l, inv, me| l.agusd_refund_reserve(inv, me, *from, *amount))
    }

    fn refund_reserve(&self, from: &Address, amount: &i128) {
        expect(self.try_refund_reserve(from, amount))
    }

    fn try_deallocate(&self, vault: &Address, shares: &i128) -> Result<(), Fault<AgUsdError>> {
        self.e.run(self.address, |l, inv, me| l.agusd_deallocate(inv, me, *vault, *shares))
    }

    fn deallocate(&self, vault: &Address, shares: &i128) {
        expect(self.try_deallocate(vault, shares))
    }

    fn try_claim_alloc(&self, vault: &Address) -> Result<(), Fault<AgUsdError>> {
        self.e.run(self.address, |l, inv, me| l.agusd_claim_alloc(inv, me, *vault))
    }

    fn claim_alloc(&self, vault: &Address) {
        expect(self.try_claim_alloc(vault))
    }

    fn reserve(&self) -> i128 {
        let l = self.e.0.borrow();
        let c = l.agusd(self.address);
        c.reserve(l.agusd_held(self.address)).unwrap()
    }

    fn deployed(&self) -> i128 {
        let l = self.e.0.borrow();
        let c = l.agusd(self.address);
        let quotes = c.targets().iter().map(|t| l.quote(t.vault, self.address)).collect();
        AgUsd::deployed(&quotes).unwrap()
    }

    fn try_transfer(&self, from: &Address, to: &Address, amount: &i128) -> Result<(), Fault<AgUsdError>> {
        self.e.run(self.address, |l, inv, me| l.agusd_transfer(inv, me, *from, *to, *amount))
    }

    fn transfer(&self, from: &Address, to: &Address, amount: &i128) {
        expect(self.try_transfer(from, to, amount))
    }

    fn try_burn(&self, from: &Address, amount: &i128) -> Result<(), Fault<AgUsdError>> {
        self.e.run(self.address, |l, inv, me| l.agusd_burn(inv, me, *from, *amount))
    }

    fn burn(&self, from: &Address, amount: &i128) {
        expect(self.try_burn(from, amount))
    }

    fn try_approve(&self, from: &Address, spender: &Address, amount: &i128, expiration_ledger: &u32) -> Result<(), Fault<AgUsdError>> {
        self.e.run(self.address, |l, inv, me| l.agusd_approve(inv, me, *from, *spender, *amount, *expiration_ledger))
    }

    fn approve(&self, from: &Address, spender: &Address, amount: &i128, expiration_ledger: &u32) {
        expect(self.try_approve(from, spender, amount, expiration_ledger))
    }

    fn try_transfer_from(&self, spender: &Address, from: &Address, to: &Address, amount: &i128) -> Result<(), Fault<AgUsdError>> {
        self.e.run(self.address, |l, inv, me| l.agusd_transfer_from(inv, me, *spender, *from, *to, *amount))
    }

    fn transfer_from(&self, spender: &Address, from: &Address, to: &Address, amount: &i128) {
        expect(self.try_transfer_from(spender, from, to, amount))
    }

    fn try_burn_from(&self, spender: &Address, from: &Address, amount: &i128) -> Result<(), Fault<AgUsdError>> {
        self.e.run(self.address, |l, inv, me| l.agusd_burn_from(inv, me, *spender, *from, *amount))
    }

    fn burn_from(&self, spender: &Address, from: &Address, amount: &i128) {
        expect(self.try_burn_from(spender, from, amount))
    }

    fn balance(&self, id: &Address) -> i128 {
        let l = self.e.0.borrow();
        let c = l.agusd(self.address);
        c.balance(*id)
    }

    fn allowance(&self, from: &Address, spender: &Address) -> i128 {
        let l = self.e.0.borrow();
        let c = l.agusd(self.address);
        c.allowance(&l.root(self.address), *from, *spender)
    }

    fn decimals(&self) -> u32 {
        let l = self.e.0.borrow();
        let c = l.agusd(self.address);
        c.decimals().unwrap()
    }

    fn name(&self) -> String {
        let l = self.e.0.borrow();
        let c = l.agusd(self.address);
        c.name().unwrap()
    }

    fn symbol(&self) -> String {
        let l = self.e.0.borrow();
        let c = l.agusd(self.address);
        c.symbol().unwrap()
    }

    fn total_supply(&self) -> i128 {
        let l = self.e.0.borrow();
        let c = l.agusd(self.address);
        c.total_supply()
    }
}

#[derive(Clone)]
struct HostileEngineClient {
    e: Env,
    address: Address,
}

impl HostileEngineClient {
    fn new(e: &Env, address: &Address) -> HostileEngineClient {
        HostileEngineClient { e: e.clone(), address: *address }
    }

    fn try_initialize(&self, vault: &Address) -> Result<(), Fault<Plain>> {
        self.e.run(self.address, |l, inv, me| l.hostile_initialize(inv, me, *vault))
    }

    fn initialize(&self, vault: &Address) {
        expect(self.try_initialize(vault))
    }

    fn try_steal(&self, to: &Address, amount: &i128) -> Result<bool, Fault<Plain>> {
        self.e.run(self.address, |l, inv, me| l.hostile_steal(inv, me, *to, *amount))
    }

    fn steal(&self, to: &Address, amount: &i128) -> bool {
        expect(self.try_steal(to, amount))
    }

    fn try_erase_the_book(&self, admin: &Address, amount: &i128) -> Result<bool, Fault<Plain>> {
        self.e.run(self.address, |l, inv, me| l.hostile_erase_the_book(inv, me, *admin, *amount))
    }

    fn erase_the_book(&self, admin: &Address, amount: &i128) -> bool {
        expect(self.try_erase_the_book(admin, amount))
    }

    fn try_fake_a_repayment(&self, amount: &i128) -> Result<bool, Fault<Plain>> {
        self.e.run(self.address, |l, inv, me| l.hostile_fake_a_repayment(inv, me, *amount))
    }

    fn fake_a_repayment(&self, amount: &i128) -> bool {
        expect(self.try_fake_a_repayment(amount))
    }
}

// ---- the stand-in for USDC ----

fn faucet_setup(e: &Env) -> MockUsdcClient {
    let admin = account(e);
    let id = e.register_usdc();
    let c = MockUsdcClient::new(e, &id);
    c.initialize(
        &admin,
        &7u32,
        &"USD Coin".to_string(),
        &"USDC".to_string(),
    );
    c
}

#[test]
fn faucet_mints_capped() {
    let e = Env::default();
    e.mock_all_auths();
    let c = faucet_setup(&e);
    let user = account(&e);
    c.faucet(&user, &1_000_0000000);
    assert_eq!(c.balance(&user), 1_000_0000000);
    assert_eq!(c.total_supply(), 1_000_0000000);
}

#[test]
#[should_panic]
fn faucet_rejects_over_cap() {
    let e = Env::default();
    e.mock_all_auths();
    let c = faucet_setup(&e);
    let user = account(&e);
    c.faucet(&user, &1_000_000_0000000);
}

#[test]
fn transfer_works() {
    let e = Env::default();
    e.mock_all_auths();
    let c = faucet_setup(&e);
    let a = account(&e);
    let b = account(&e);
    c.faucet(&a, &500_0000000);
    c.transfer(&a, &b, &200_0000000);
    assert_eq!(c.balance(&a), 300_0000000);
    assert_eq!(c.balance(&b), 200_0000000);
}

// ---- agUSD ----

struct CoreFix {
    e: Env,
    token: AgUsdCoreClient,
    admin: Address,
    minter: Address,
}

fn core_setup() -> CoreFix {
    let e = Env::default();
    e.mock_all_auths();
    let admin = account(&e);
    let minter = account(&e);

    let id = e.register_core(admin, minter, 7u32, "Agama USD".to_string(), "agUSD".to_string());
    let token = AgUsdCoreClient::new(&e, &id);

    CoreFix {
        e,
        token,
        admin,
        minter,
    }
}

#[test]
fn the_constructor_records_the_minter_and_the_metadata() {
    let f = core_setup();
    assert_eq!(f.token.minter(), f.minter);
    assert_eq!(f.token.admin(), f.admin);
    assert_eq!(f.token.decimals(), 7);
    assert_eq!(f.token.name(), "Agama USD".to_string());
    assert_eq!(f.token.symbol(), "agUSD".to_string());
    assert_eq!(f.token.total_supply(), 0);
}

#[test]
fn the_minter_creates_supply() {
    let f = core_setup();
    let alice = account(&f.e);

    f.token.mint(&alice, &(400 * UNIT));
    assert_eq!(f.token.balance(&alice), 400 * UNIT);
    assert_eq!(f.token.total_supply(), 400 * UNIT);

    f.token.mint(&alice, &(100 * UNIT));
    assert_eq!(f.token.total_supply(), 500 * UNIT);
}

#[test]
fn nobody_but_the_minter_creates_supply() {
    let f = core_setup();
    let attacker = account(&f.e);

    f.e.mock_auths(&[]);
    assert!(f.token.try_mint(&attacker, &(100 * UNIT)).is_err());
    f.e.mock_auths(&[f.admin]);
    assert!(f.token.try_mint(&attacker, &(100 * UNIT)).is_err());
    assert_eq!(f.token.total_supply(), 0);
    assert_eq!(f.token.balance(&attacker), 0);
}

#[test]
fn the_minter_is_correctable_until_the_first_mint_and_frozen_after() {
    let f = core_setup();
    assert_eq!(f.token.mints(), 0);
    let replacement = account(&f.e);
    let stranger = account(&f.e);

    assert_eq!(
        f.token.try_set_minter(&stranger, &replacement),
        Err(Fault::Error(AgUsdCoreError::NotAdmin))
    );

    f.token.set_minter(&f.admin, &replacement);
    assert_eq!(f.token.minter(), replacement);

    let alice = account(&f.e);
    f.e.mock_auths(&[f.minter]);
    assert!(f.token.try_mint(&alice, &(100 * UNIT)).is_err());
    assert_eq!(f.token.total_supply(), 0);

    f.e.mock_all_auths();
    f.token.mint(&alice, &(100 * UNIT));
    assert_eq!(f.token.mints(), 1);
    assert_eq!(
        f.token.try_set_minter(&f.admin, &f.admin),
        Err(Fault::Error(AgUsdCoreError::MinterFrozen))
    );
    assert_eq!(f.token.minter(), replacement);

    f.token.burn(&alice, &(100 * UNIT));
    assert_eq!(f.token.total_supply(), 0);
    assert_eq!(
        f.token.try_set_minter(&f.admin, &f.admin),
        Err(Fault::Error(AgUsdCoreError::MinterFrozen))
    );
}

#[test]
fn minting_zero_or_a_negative_amount_is_rejected() {
    let f = core_setup();
    let alice = account(&f.e);

    assert_eq!(
        f.token.try_mint(&alice, &0),
        Err(Fault::Error(AgUsdCoreError::InvalidAmount))
    );
    assert_eq!(
        f.token.try_mint(&alice, &(-100 * UNIT)),
        Err(Fault::Error(AgUsdCoreError::InvalidAmount))
    );
    assert_eq!(f.token.total_supply(), 0);
}

#[test]
fn the_sep41_surface_moves_balances_and_supply() {
    let f = core_setup();
    let alice = account(&f.e);
    let bob = account(&f.e);
    f.token.mint(&alice, &(400 * UNIT));

    f.token.transfer(&alice, &bob, &(100 * UNIT));
    assert_eq!(f.token.balance(&alice), 300 * UNIT);
    assert_eq!(f.token.balance(&bob), 100 * UNIT);
    assert_eq!(f.token.total_supply(), 400 * UNIT);

    f.token
        .approve(&alice, &bob, &(50 * UNIT), &(f.e.sequence() + 100));
    assert_eq!(f.token.allowance(&alice, &bob), 50 * UNIT);
    f.token.transfer_from(&bob, &alice, &bob, &(50 * UNIT));
    assert_eq!(f.token.balance(&bob), 150 * UNIT);
    assert_eq!(f.token.allowance(&alice, &bob), 0);
}

#[test]
fn holders_can_burn_and_supply_falls() {
    let f = core_setup();
    let alice = account(&f.e);
    let bob = account(&f.e);
    f.token.mint(&alice, &(400 * UNIT));

    f.token.burn(&alice, &(100 * UNIT));
    assert_eq!(f.token.balance(&alice), 300 * UNIT);
    assert_eq!(f.token.total_supply(), 300 * UNIT);

    f.token
        .approve(&alice, &bob, &(50 * UNIT), &(f.e.sequence() + 100));
    f.token.burn_from(&bob, &alice, &(50 * UNIT));
    assert_eq!(f.token.balance(&alice), 250 * UNIT);
    assert_eq!(f.token.total_supply(), 250 * UNIT);
}

#[test]
fn the_vault_mints_on_deposit_and_burns_on_a_withdrawal_request() {
    let e = Env::default();
    e.mock_all_auths();
    let admin = account(&e);
    let alice = account(&e);

    let usdc_id = e.register_usdc();
    let usdc = MockUsdcClient::new(&e, &usdc_id);
    usdc.initialize(
        &admin,
        &7u32,
        &"USD Coin".to_string(),
        &"USDC".to_string(),
    );

    let vault_id = e.register_vault(admin, usdc_id);
    let vault = VaultClient::new(&e, &vault_id);

    let agusd_id = e.register_core(admin, vault_id, 7u32, "Agama USD".to_string(), "agUSD".to_string());
    let agusd = AgUsdCoreClient::new(&e, &agusd_id);
    vault.set_agusd(&admin, &agusd_id);

    usdc.faucet(&alice, &(1_000 * UNIT));
    assert_eq!(vault.deposit(&alice, &(400 * UNIT)), 400 * UNIT);
    assert_eq!(agusd.balance(&alice), 400 * UNIT);
    assert_eq!(agusd.total_supply(), 400 * UNIT);
    assert_eq!(usdc.balance(&alice), 600 * UNIT);
    assert_eq!(vault.idle_reserves(), 400 * UNIT);

    let claim_id = vault.request_withdrawal(&alice, &(100 * UNIT));
    assert_eq!(agusd.balance(&alice), 300 * UNIT);
    assert_eq!(agusd.total_supply(), 300 * UNIT);

    vault.claim_withdrawal(&alice, &claim_id);
    assert_eq!(usdc.balance(&alice), 700 * UNIT);
    assert_eq!(agusd.total_supply(), vault.idle_reserves());
}

#[test]
fn a_stranger_cannot_mint_the_vaults_token() {
    let e = Env::default();
    e.mock_all_auths();
    let admin = account(&e);
    let usdc_id = e.register_usdc();
    MockUsdcClient::new(&e, &usdc_id).initialize(
        &admin,
        &7u32,
        &"USD Coin".to_string(),
        &"USDC".to_string(),
    );
    let vault_id = e.register_vault(admin, usdc_id);
    let mallory = account(&e);

    let agusd_id = e.register_core(admin, vault_id, 7u32, "Agama USD".to_string(), "agUSD".to_string());
    let agusd = AgUsdCoreClient::new(&e, &agusd_id);
    e.mock_auths(&[mallory]);
    assert!(agusd.try_mint(&mallory, &(100 * UNIT)).is_err());
    assert_eq!(agusd.total_supply(), 0);
}

#[test]
fn the_admin_role_moves_only_to_an_address_that_signs_for_it_on_agusd() {
    let f = core_setup();
    let successor = account(&f.e);
    let mallory = account(&f.e);
    assert_eq!(f.token.pending_admin(), None);

    assert_eq!(
        f.token.try_propose_admin(&mallory, &mallory),
        Err(Fault::Error(AgUsdCoreError::NotAdmin))
    );

    f.token.propose_admin(&f.admin, &successor);
    assert_eq!(f.token.pending_admin(), Some(successor.clone()));
    assert_eq!(f.token.admin(), f.admin);

    assert_eq!(
        f.token.try_accept_admin(&mallory),
        Err(Fault::Error(AgUsdCoreError::NotPendingAdmin))
    );
    f.e.mock_auths(&[mallory]);
    assert!(f.token.try_accept_admin(&successor).is_err());
    assert_eq!(f.token.admin(), f.admin);

    f.e.mock_all_auths();
    f.token.accept_admin(&successor);
    assert_eq!(f.token.admin(), successor);
    assert_eq!(f.token.pending_admin(), None);
    assert_eq!(
        f.token.try_accept_admin(&successor),
        Err(Fault::Error(AgUsdCoreError::NoPendingAdmin))
    );
}

// ---- the vault ----

struct VaultFix {
    e: Env,
    vault: VaultClient,
    usdc: MockUsdcClient,
    agusd: MockUsdcClient,
    engine: AllocationEngineClient,
    oracle: OracleAdapterClient,
    pool: Address,
    admin: Address,
    reporter: Address,
}

/// The whole stack, wired as it is deployed. The token that the vault mints is
/// a second SEP-41 token whose admin is the vault.
fn vault_setup() -> VaultFix {
    let e = Env::default();
    e.mock_all_auths();
    e.set_timestamp(T0);
    let admin = account(&e);
    let reporter = account(&e);

    let usdc_id = e.register_usdc();
    let usdc = MockUsdcClient::new(&e, &usdc_id);
    usdc.initialize(&admin, &7u32, &"USD Coin".to_string(), &"USDC".to_string());

    let vault_id = e.register_vault(admin, usdc_id);
    let vault = VaultClient::new(&e, &vault_id);
    let agusd = minted_by(&e, &vault_id);
    let engine_id = e.register_engine(admin, vault_id);
    let engine = AllocationEngineClient::new(&e, &engine_id);
    vault.set_agusd(&admin, &agusd.address);
    vault.set_engine(&admin, &engine_id);

    let oracle_id = e.register_oracle(admin);
    let oracle = OracleAdapterClient::new(&e, &oracle_id);
    oracle.add_reporter(&admin, &reporter);
    oracle.register_feed(
        &admin,
        &feed_pc_nav(),
        &oracle::PRIVATE_CREDIT_STALENESS,
        &oracle::PRIVATE_CREDIT_DEVIATION_BPS,
        &1,
        &(1_000_000 * USDC),
        &oracle::NAV_MIN_INTERVAL,
    );
    vault.set_oracle(&admin, &oracle_id, &feed_pc_nav());

    let pool = e.register_credit(admin, engine_id, vault_id, usdc_id);
    engine.register_pool(&admin, &pool, &sym("QIRO"), &sym("US"), &10_000u32);
    engine.set_caps(&admin, &10_000, &10_000, &10_000);
    engine.set_reserve_floor(&admin, &0u32);
    vault.set_reserve_floor(&admin, &0u32);

    VaultFix { e, vault, usdc, agusd, engine, oracle, pool, admin, reporter }
}

fn feed_pc_nav() -> Symbol {
    Symbol::short(oracle::FEED_PC_NAV)
}

/// A token minted by `minter`.
fn minted_by(e: &Env, minter: &Address) -> MockUsdcClient {
    let id = e.register_usdc();
    let token = MockUsdcClient::new(e, &id);
    token.initialize(minter, &7u32, &"Agama USD".to_string(), &"agUSD".to_string());
    token
}

fn depositor(f: &VaultFix, amount: i128) -> Address {
    let who = account(&f.e);
    f.usdc.faucet(&who, &amount);
    f.vault.deposit(&who, &amount);
    who
}

#[test]
fn deposit_mints_agusd_one_for_one() {
    let f = vault_setup();
    let alice = account(&f.e);
    f.usdc.faucet(&alice, &(1_000 * USDC));

    assert_eq!(f.vault.deposit(&alice, &(400 * USDC)), 400 * USDC);
    assert_eq!(f.agusd.balance(&alice), 400 * USDC);
    assert_eq!(f.usdc.balance(&alice), 600 * USDC);
    assert_eq!(f.vault.idle_reserves(), 400 * USDC);
    assert_eq!(f.vault.get_total_assets(), 400 * USDC);
}

#[test]
fn full_deposit_request_claim_flow() {
    let f = vault_setup();
    let alice = depositor(&f, 1_000 * USDC);

    let claim_id = f.vault.request_withdrawal(&alice, &(400 * USDC));
    assert_eq!(claim_id, 1);
    assert_eq!(f.agusd.balance(&alice), 600 * USDC);
    assert_eq!(f.vault.queue_length(), 1);
    assert_eq!(f.vault.claim_status(&claim_id), ClaimStatus::Ready);

    f.vault.claim_withdrawal(&alice, &claim_id);
    assert_eq!(f.usdc.balance(&alice), 400 * USDC);
    assert_eq!(f.vault.idle_reserves(), 600 * USDC);
    assert_eq!(f.vault.claim_status(&claim_id), ClaimStatus::Claimed);
    assert_eq!(f.vault.queue_head(), 2);
    assert_eq!(f.vault.queue_length(), 0);
}

#[test]
fn claims_are_paid_strictly_in_order() {
    let f = vault_setup();
    let alice = depositor(&f, 1_000 * USDC);
    let bob = depositor(&f, 1_000 * USDC);
    let carol = depositor(&f, 1_000 * USDC);

    let a = f.vault.request_withdrawal(&alice, &(100 * USDC));
    let b = f.vault.request_withdrawal(&bob, &(200 * USDC));
    let c = f.vault.request_withdrawal(&carol, &(300 * USDC));
    assert_eq!((a, b, c), (1, 2, 3));

    assert!(f.vault.idle_reserves() > 600 * USDC);
    assert_eq!(f.vault.claim_status(&b), ClaimStatus::Pending);
    assert_eq!(f.vault.claim_status(&c), ClaimStatus::Pending);
    assert_eq!(
        f.vault.try_claim_withdrawal(&carol, &c),
        Err(Fault::Error(VaultError::NotAtQueueHead))
    );
    assert_eq!(
        f.vault.try_claim_withdrawal(&bob, &b),
        Err(Fault::Error(VaultError::NotAtQueueHead))
    );

    f.vault.claim_withdrawal(&alice, &a);
    assert_eq!(f.vault.claim_status(&b), ClaimStatus::Ready);
    assert_eq!(f.vault.claim_status(&c), ClaimStatus::Pending);
    assert_eq!(
        f.vault.try_claim_withdrawal(&carol, &c),
        Err(Fault::Error(VaultError::NotAtQueueHead))
    );

    f.vault.claim_withdrawal(&bob, &b);
    f.vault.claim_withdrawal(&carol, &c);
    assert_eq!(f.usdc.balance(&alice), 100 * USDC);
    assert_eq!(f.usdc.balance(&bob), 200 * USDC);
    assert_eq!(f.usdc.balance(&carol), 300 * USDC);
    assert_eq!(f.vault.queue_head(), 4);
}

#[test]
fn the_admin_cannot_jump_the_queue() {
    let f = vault_setup();
    let alice = depositor(&f, 1_000 * USDC);
    f.usdc.faucet(&f.admin, &(1_000 * USDC));
    f.vault.deposit(&f.admin, &(1_000 * USDC));

    let alice_claim = f.vault.request_withdrawal(&alice, &(100 * USDC));
    let admin_claim = f.vault.request_withdrawal(&f.admin, &(100 * USDC));

    assert_eq!(
        f.vault.try_claim_withdrawal(&f.admin, &admin_claim),
        Err(Fault::Error(VaultError::NotAtQueueHead))
    );
    f.vault.set_paused(&f.admin, &true);
    assert_eq!(
        f.vault.try_claim_withdrawal(&f.admin, &admin_claim),
        Err(Fault::Error(VaultError::NotAtQueueHead))
    );
    f.vault.claim_withdrawal(&alice, &alice_claim);
    f.vault.set_paused(&f.admin, &false);

    f.vault.claim_withdrawal(&f.admin, &admin_claim);
}

#[test]
fn a_claim_can_only_be_taken_by_its_owner_and_only_once() {
    let f = vault_setup();
    let alice = depositor(&f, 1_000 * USDC);
    let mallory = account(&f.e);

    let claim_id = f.vault.request_withdrawal(&alice, &(100 * USDC));
    assert_eq!(
        f.vault.try_claim_withdrawal(&mallory, &claim_id),
        Err(Fault::Error(VaultError::NotClaimOwner))
    );

    f.vault.claim_withdrawal(&alice, &claim_id);
    assert_eq!(
        f.vault.try_claim_withdrawal(&alice, &claim_id),
        Err(Fault::Error(VaultError::AlreadyClaimed))
    );
    assert_eq!(f.usdc.balance(&alice), 100 * USDC);

    assert_eq!(
        f.vault.try_claim_withdrawal(&alice, &999u64),
        Err(Fault::Error(VaultError::ClaimNotFound))
    );
}

#[test]
fn pausing_blocks_deposits_and_requests_but_never_a_payout() {
    let f = vault_setup();
    let alice = depositor(&f, 1_000 * USDC);
    let claim_id = f.vault.request_withdrawal(&alice, &(100 * USDC));

    f.vault.set_paused(&f.admin, &true);
    assert!(f.vault.paused());

    f.usdc.faucet(&alice, &(100 * USDC));
    assert_eq!(
        f.vault.try_deposit(&alice, &(100 * USDC)),
        Err(Fault::Error(VaultError::Paused))
    );
    assert_eq!(
        f.vault.try_request_withdrawal(&alice, &(100 * USDC)),
        Err(Fault::Error(VaultError::Paused))
    );
    assert!(f.engine.try_allocate(&f.admin, &f.pool, &(100 * USDC)).is_err());
    assert_eq!(f.engine.get_exposure(&f.pool), 0);

    assert_eq!(f.vault.claim_status(&claim_id), ClaimStatus::Ready);
    assert!(f.vault.get_total_assets() > 0);

    let before = f.usdc.balance(&alice);
    f.vault.claim_withdrawal(&alice, &claim_id);
    assert_eq!(f.usdc.balance(&alice), before + 100 * USDC);
    assert!(f.vault.paused());

    f.vault.set_paused(&f.admin, &false);
    let bob = depositor(&f, 1_000 * USDC);
    let bob_claim = f.vault.request_withdrawal(&bob, &(50 * USDC));
    f.vault.set_paused(&f.admin, &true);
    f.vault.settle_withdrawal();
    assert_eq!(f.vault.claim_status(&bob_claim), ClaimStatus::Claimed);
}

#[test]
fn zero_and_negative_amounts_are_rejected() {
    let f = vault_setup();
    let alice = depositor(&f, 1_000 * USDC);

    assert_eq!(
        f.vault.try_deposit(&alice, &0),
        Err(Fault::Error(VaultError::InvalidAmount))
    );
    assert_eq!(
        f.vault.try_deposit(&alice, &(-100 * USDC)),
        Err(Fault::Error(VaultError::InvalidAmount))
    );
    assert_eq!(
        f.vault.try_request_withdrawal(&alice, &0),
        Err(Fault::Error(VaultError::InvalidAmount))
    );
    assert_eq!(
        f.vault.try_request_withdrawal(&alice, &(-100 * USDC)),
        Err(Fault::Error(VaultError::InvalidAmount))
    );
    assert_eq!(f.vault.queue_tail(), 1);
}

#[test]
fn withdrawals_below_the_dust_floor_are_rejected() {
    let f = vault_setup();
    let alice = depositor(&f, 1_000 * USDC);

    assert_eq!(
        f.vault.try_request_withdrawal(&alice, &(MIN_WITHDRAWAL - 1)),
        Err(Fault::Error(VaultError::BelowMinWithdrawal))
    );
    let claim_id = f.vault.request_withdrawal(&alice, &MIN_WITHDRAWAL);
    assert_eq!(f.vault.get_claim(&claim_id).amount, MIN_WITHDRAWAL);
}

#[test]
fn a_claim_beyond_idle_reserves_reports_a_liquidity_problem() {
    let f = vault_setup();
    let alice = depositor(&f, 1_000 * USDC);

    f.engine.allocate(&f.admin, &f.pool, &(900 * USDC));
    assert_eq!(f.vault.idle_reserves(), 100 * USDC);
    assert_eq!(f.vault.get_total_assets(), 1_000 * USDC);

    let claim_id = f.vault.request_withdrawal(&alice, &(500 * USDC));
    assert_eq!(f.vault.queue_head(), claim_id);
    assert_eq!(f.vault.claim_status(&claim_id), ClaimStatus::Pending);
    assert_eq!(
        f.vault.try_claim_withdrawal(&alice, &claim_id),
        Err(Fault::Error(VaultError::InsufficientLiquidity))
    );

    f.engine.deallocate(&f.pool, &(600 * USDC));
    assert_eq!(f.vault.claim_status(&claim_id), ClaimStatus::Ready);
    f.vault.claim_withdrawal(&alice, &claim_id);
    assert_eq!(f.usdc.balance(&alice), 500 * USDC);
}

#[test]
fn total_assets_count_idle_reserves_plus_deployed_capital() {
    let f = vault_setup();
    depositor(&f, 1_000 * USDC);
    assert_eq!(f.vault.get_total_assets(), 1_000 * USDC);

    f.engine.allocate(&f.admin, &f.pool, &(700 * USDC));
    assert_eq!(f.vault.idle_reserves(), 300 * USDC);
    assert_eq!(f.engine.total_allocated(), 700 * USDC);
    assert_eq!(f.vault.get_total_assets(), 1_000 * USDC);
}

#[test]
fn get_nav_reads_the_oracle_and_propagates_staleness() {
    let f = vault_setup();
    let nav = 1_000 * USDC;
    f.oracle
        .push_nav(&f.reporter, &feed_pc_nav(), &nav, &T0);
    assert_eq!(f.vault.get_nav(), nav);

    f.e.set_timestamp(T0 + oracle::PRIVATE_CREDIT_STALENESS + 1);
    assert!(f.vault.try_get_nav().is_err());
}

#[test]
fn get_nav_before_the_oracle_is_wired_says_so() {
    let e = Env::default();
    e.mock_all_auths();
    let admin = account(&e);
    let usdc_id = e.register_usdc();
    let usdc = MockUsdcClient::new(&e, &usdc_id);
    usdc.initialize(&admin, &7u32, &"USD Coin".to_string(), &"USDC".to_string());
    let vault_id = e.register_vault(admin, usdc_id);
    let vault = VaultClient::new(&e, &vault_id);
    assert_eq!(vault.try_get_nav(), Err(Fault::Error(VaultError::OracleNotConfigured)));
}

#[test]
fn only_the_allocation_engine_can_release_funds() {
    let f = vault_setup();
    depositor(&f, 1_000 * USDC);
    let mallory = account(&f.e);

    f.e.mock_auths(&[]);
    assert!(f
        .vault
        .try_settle_allocation(&mallory, &(100 * USDC))
        .is_err());
    assert_eq!(f.vault.idle_reserves(), 1_000 * USDC);
}

#[test]
fn only_the_admin_can_pause_or_rewire() {
    let f = vault_setup();
    let stranger = account(&f.e);
    assert_eq!(
        f.vault.try_set_paused(&stranger, &true),
        Err(Fault::Error(VaultError::NotAdmin))
    );
    assert_eq!(
        f.vault
            .try_set_oracle(&stranger, &stranger, &sym("FAKE")),
        Err(Fault::Error(VaultError::NotAdmin))
    );
    assert_eq!(
        f.vault.try_set_agusd(&stranger, &stranger),
        Err(Fault::Error(VaultError::NotAdmin))
    );
    assert_eq!(
        f.vault.try_set_engine(&stranger, &stranger),
        Err(Fault::Error(VaultError::NotAdmin))
    );
    assert_eq!(f.vault.agusd(), f.agusd.address);
    assert_eq!(f.vault.allocation_engine(), f.engine.address);
    assert!(!f.vault.paused());
}

/// A second engine wired to `vault`, with its own pool, opened up to the same
/// limits as the fixture's.
fn spare_engine(f: &VaultFix, vault: &Address) -> (AllocationEngineClient, Address) {
    let engine_id = f.e.register_engine(f.admin, *vault);
    let engine = AllocationEngineClient::new(&f.e, &engine_id);
    let pool = f.e.register_credit(f.admin, engine_id, *vault, f.usdc.address);
    engine.register_pool(&f.admin, &pool, &sym("QIRO"), &sym("US"), &10_000u32);
    engine.set_caps(&f.admin, &10_000, &10_000, &10_000);
    engine.set_reserve_floor(&f.admin, &0u32);
    (engine, pool)
}

#[test]
fn the_engine_pointer_moves_while_no_capital_of_this_vault_is_deployed() {
    let f = vault_setup();
    depositor(&f, 1_000 * USDC);
    assert_eq!(f.vault.allocation_engine(), f.engine.address);

    let (replacement, spare_pool) = spare_engine(&f, &f.vault.address);
    f.vault.set_engine(&f.admin, &replacement.address);
    assert_eq!(f.vault.allocation_engine(), replacement.address);

    replacement.allocate(&f.admin, &spare_pool, &(100 * USDC));
    assert_eq!(f.vault.idle_reserves(), 900 * USDC);
    assert_eq!(f.vault.get_total_assets(), 1_000 * USDC);
}

#[test]
#[should_panic]
fn an_engine_the_vault_does_not_point_at_cannot_release_its_capital() {
    let f = vault_setup();
    depositor(&f, 1_000 * USDC);
    let (stranger_engine, spare_pool) = spare_engine(&f, &f.vault.address);
    stranger_engine.allocate(&f.admin, &spare_pool, &(100 * USDC));
}

#[test]
fn the_engine_pointer_is_frozen_while_this_vaults_capital_is_out() {
    let f = vault_setup();
    depositor(&f, 1_000 * USDC);
    f.engine.allocate(&f.admin, &f.pool, &(700 * USDC));

    let stray = f.e.register_engine(f.admin, f.vault.address);
    assert_eq!(
        f.vault.try_set_engine(&f.admin, &stray),
        Err(Fault::Error(VaultError::CapitalDeployed))
    );
    assert_eq!(f.vault.allocation_engine(), f.engine.address);

    f.engine.deallocate(&f.pool, &(700 * USDC));
    assert_eq!(f.engine.total_allocated(), 0);
    f.vault.set_engine(&f.admin, &stray);
    assert_eq!(f.vault.allocation_engine(), stray);
}

#[test]
fn the_engine_pointer_refuses_anything_that_does_not_name_this_vault() {
    let f = vault_setup();
    depositor(&f, 1_000 * USDC);
    let mallory = account(&f.e);
    assert_eq!(
        f.vault.try_set_engine(&f.admin, &mallory),
        Err(Fault::Error(VaultError::EngineMismatch))
    );

    let other_vault = f.e.register_vault(f.admin, f.usdc.address);
    let (foreign, _) = spare_engine(&f, &other_vault);
    assert_eq!(
        f.vault.try_set_engine(&f.admin, &foreign.address),
        Err(Fault::Error(VaultError::EngineMismatch))
    );
    assert_eq!(f.vault.allocation_engine(), f.engine.address);
    assert_eq!(f.vault.idle_reserves(), 1_000 * USDC);
}

#[test]
fn an_engine_that_governs_another_vault_does_not_freeze_this_one() {
    let f = vault_setup();
    let stranded_id = f.e.register_vault(f.admin, f.usdc.address);
    let stranded = VaultClient::new(&f.e, &stranded_id);
    stranded.set_agusd(&f.admin, &minted_by(&f.e, &stranded_id).address);

    let foreign_id = f.e.register_engine(f.admin, stranded_id);
    let foreign = AllocationEngineClient::new(&f.e, &foreign_id);
    stranded.set_engine(&f.admin, &foreign_id);

    let other_vault_id = f.e.register_vault(f.admin, f.usdc.address);
    let other_vault = VaultClient::new(&f.e, &other_vault_id);
    foreign.set_vault(&f.admin, &other_vault_id);
    let foreign_pool = f.e.register_credit(f.admin, foreign_id, other_vault_id, f.usdc.address);
    foreign.register_pool(&f.admin, &foreign_pool, &sym("QIRO"), &sym("US"), &10_000u32);
    foreign.set_caps(&f.admin, &10_000, &10_000, &10_000);
    foreign.set_reserve_floor(&f.admin, &0u32);

    other_vault.set_agusd(&f.admin, &minted_by(&f.e, &other_vault_id).address);
    other_vault.set_engine(&f.admin, &foreign_id);
    other_vault.set_reserve_floor(&f.admin, &0u32);
    let bob = account(&f.e);
    f.usdc.faucet(&bob, &(500 * USDC));
    other_vault.deposit(&bob, &(500 * USDC));
    foreign.allocate(&f.admin, &foreign_pool, &(300 * USDC));
    assert_eq!(foreign.total_allocated(), 300 * USDC);

    assert_eq!(stranded.allocation_engine(), foreign_id);
    let (own_engine, _) = spare_engine(&f, &stranded_id);
    stranded.set_engine(&f.admin, &own_engine.address);
    assert_eq!(stranded.allocation_engine(), own_engine.address);
    assert_eq!(foreign.total_allocated(), 300 * USDC);
}

#[test]
fn the_agusd_pointer_moves_before_the_first_deposit_and_never_after() {
    let f = vault_setup();
    assert_eq!(f.vault.deposits(), 0);

    let replacement_id = f.e.register_usdc();
    let replacement = MockUsdcClient::new(&f.e, &replacement_id);
    replacement.initialize(
        &f.vault.address,
        &7u32,
        &"Agama USD".to_string(),
        &"agUSD".to_string(),
    );
    f.vault.set_agusd(&f.admin, &replacement_id);
    assert_eq!(f.vault.agusd(), replacement_id);

    let alice = account(&f.e);
    f.usdc.faucet(&alice, &(100 * USDC));
    f.vault.deposit(&alice, &(100 * USDC));
    assert_eq!(replacement.balance(&alice), 100 * USDC);
    assert_eq!(f.agusd.balance(&alice), 0);
    assert_eq!(f.vault.deposits(), 1);

    assert_eq!(
        f.vault.try_set_agusd(&f.admin, &f.agusd.address),
        Err(Fault::Error(VaultError::DepositsExist))
    );
    assert_eq!(f.vault.agusd(), replacement_id);

    let claim_id = f.vault.request_withdrawal(&alice, &(100 * USDC));
    f.vault.claim_withdrawal(&alice, &claim_id);
    assert_eq!(f.vault.idle_reserves(), 0);
    assert_eq!(
        f.vault.try_set_agusd(&f.admin, &f.agusd.address),
        Err(Fault::Error(VaultError::DepositsExist))
    );
}

#[test]
fn a_hostile_engine_cannot_take_more_than_an_honest_one() {
    let f = vault_setup();
    depositor(&f, 1_000 * USDC);
    f.engine.set_reserve_floor(&f.admin, &2_500u32);
    f.vault.set_reserve_floor(&f.admin, &2_500u32);

    assert!(f
        .engine
        .try_allocate(&f.admin, &f.pool, &(751 * USDC))
        .is_err());
    f.engine.allocate(&f.admin, &f.pool, &(750 * USDC));
    assert_eq!(f.vault.idle_reserves(), 250 * USDC);
    assert_eq!(f.vault.deployed_capital(), 750 * USDC);

    f.engine.deallocate(&f.pool, &(750 * USDC));
    assert_eq!(f.vault.deployed_capital(), 0);
    assert_eq!(f.vault.idle_reserves(), 1_000 * USDC);

    let hostile_id = f.e.register_hostile();
    let hostile = HostileEngineClient::new(&f.e, &hostile_id);
    hostile.initialize(&f.vault.address);
    f.vault.set_engine(&f.admin, &hostile_id);
    assert_eq!(f.vault.allocation_engine(), hostile_id);

    let mallory = account(&f.e);
    assert!(!hostile.steal(&mallory, &(750 * USDC + 1)));
    assert!(hostile.steal(&mallory, &(750 * USDC)));

    assert_eq!(f.vault.deployed_capital(), 750 * USDC);
    for _ in 0..10 {
        assert!(!hostile.steal(&mallory, &(10 * USDC)));
    }
    assert!(!hostile.steal(&mallory, &1));
    assert_eq!(f.usdc.balance(&mallory), 750 * USDC);
    assert_eq!(f.vault.idle_reserves(), 250 * USDC);

    assert!(!hostile.fake_a_repayment(&(750 * USDC)));
    f.e.mock_auths(&[]);
    assert!(!hostile.erase_the_book(&f.admin, &(750 * USDC)));
    assert_eq!(f.vault.deployed_capital(), 750 * USDC);
}

#[test]
fn the_floor_holds_across_repeated_releases() {
    let f = vault_setup();
    depositor(&f, 1_000 * USDC);
    f.engine.set_reserve_floor(&f.admin, &2_500u32);
    f.vault.set_reserve_floor(&f.admin, &2_500u32);

    let mut deployed = 0;
    while f
        .engine
        .try_allocate(&f.admin, &f.pool, &(50 * USDC))
        .is_ok()
    {
        deployed += 50 * USDC;
        assert!(deployed <= 750 * USDC);
    }
    assert_eq!(deployed, 750 * USDC);
    assert_eq!(f.vault.free_reserves(), 250 * USDC);
    assert_eq!(f.engine.get_reserve_ratio(), 2_500);
}

#[test]
fn a_queued_withdrawal_is_not_free_liquidity() {
    let f = vault_setup();
    let alice = depositor(&f, 1_000 * USDC);
    f.engine.set_reserve_floor(&f.admin, &0u32);
    f.vault.set_reserve_floor(&f.admin, &0u32);

    let claim_id = f.vault.request_withdrawal(&alice, &(1_000 * USDC));
    assert_eq!(f.vault.idle_reserves(), 1_000 * USDC);
    assert_eq!(f.vault.outstanding_liabilities(), 1_000 * USDC);
    assert_eq!(f.vault.free_reserves(), 0);
    assert_eq!(f.vault.get_total_assets(), 1_000 * USDC);
    assert_eq!(f.vault.get_net_assets(), 0);

    assert_eq!(
        f.engine.try_allocate(&f.admin, &f.pool, &(400 * USDC)),
        Err(Fault::Error(EngineError::InsufficientReserves))
    );
    assert_eq!(f.engine.get_exposure(&f.pool), 0);

    assert_eq!(f.vault.claim_status(&claim_id), ClaimStatus::Ready);
    f.vault.claim_withdrawal(&alice, &claim_id);
    assert_eq!(f.usdc.balance(&alice), 1_000 * USDC);
    assert_eq!(f.vault.outstanding_liabilities(), 0);
}

#[test]
fn the_floor_is_measured_on_free_reserves_not_the_gross_balance() {
    let f = vault_setup();
    let alice = depositor(&f, 1_000 * USDC);
    f.engine.set_reserve_floor(&f.admin, &2_500u32);
    f.vault.set_reserve_floor(&f.admin, &2_500u32);

    f.vault.request_withdrawal(&alice, &(600 * USDC));
    assert_eq!(f.vault.free_reserves(), 400 * USDC);
    assert_eq!(f.vault.get_net_assets(), 400 * USDC);

    assert!(f
        .engine
        .try_allocate(&f.admin, &f.pool, &(301 * USDC))
        .is_err());
    f.engine.allocate(&f.admin, &f.pool, &(300 * USDC));
    assert_eq!(f.vault.free_reserves(), 100 * USDC);
    assert_eq!(f.vault.idle_reserves(), 700 * USDC);
    assert_eq!(f.vault.claim_status(&1u64), ClaimStatus::Ready);
}

#[test]
fn a_stalled_head_claim_no_longer_freezes_the_queue() {
    let f = vault_setup();
    let mallory = depositor(&f, 1_000 * USDC);
    let bob = depositor(&f, 1_000 * USDC);
    let carol = depositor(&f, 1_000 * USDC);

    let griefer = f.vault.request_withdrawal(&mallory, &MIN_WITHDRAWAL);
    let bob_claim = f.vault.request_withdrawal(&bob, &(300 * USDC));
    let carol_claim = f.vault.request_withdrawal(&carol, &(200 * USDC));

    assert!(f.vault.idle_reserves() >= 3_000 * USDC);
    assert_eq!(
        f.vault.try_claim_withdrawal(&bob, &bob_claim),
        Err(Fault::Error(VaultError::NotAtQueueHead))
    );

    let settled = f.vault.settle_withdrawal();
    assert_eq!(settled, griefer);
    assert_eq!(f.usdc.balance(&mallory), MIN_WITHDRAWAL);
    assert_eq!(f.vault.claim_status(&griefer), ClaimStatus::Claimed);
    assert_eq!(f.vault.queue_head(), bob_claim);

    assert_eq!(
        f.vault.try_claim_withdrawal(&carol, &carol_claim),
        Err(Fault::Error(VaultError::NotAtQueueHead))
    );
    f.vault.claim_withdrawal(&bob, &bob_claim);
    f.vault.settle_withdrawal();
    assert_eq!(f.usdc.balance(&carol), 200 * USDC);
    assert_eq!(f.vault.queue_length(), 0);
    assert_eq!(f.vault.outstanding_liabilities(), 0);
}

#[test]
fn settle_withdrawal_offers_the_caller_no_choice_of_claim_or_recipient() {
    let f = vault_setup();
    let alice = depositor(&f, 1_000 * USDC);
    let mallory = account(&f.e);

    assert_eq!(f.vault.try_settle_withdrawal(), Err(Fault::Error(VaultError::QueueEmpty)));

    let alice_claim = f.vault.request_withdrawal(&alice, &(400 * USDC));
    let bob = depositor(&f, 1_000 * USDC);
    let bob_claim = f.vault.request_withdrawal(&bob, &(100 * USDC));

    f.vault.settle_withdrawal();
    assert_eq!(f.usdc.balance(&alice), 400 * USDC);
    assert_eq!(f.usdc.balance(&mallory), 0);
    assert_eq!(f.vault.get_claim(&alice_claim).owner, alice);
    assert_eq!(f.vault.queue_head(), bob_claim);

    let carol = depositor(&f, 1_000 * USDC);
    f.engine.allocate(&f.admin, &f.pool, &(f.vault.free_reserves()));
    assert_eq!(f.vault.free_reserves(), 0);
    let carol_claim = f.vault.request_withdrawal(&carol, &(500 * USDC));
    f.vault.claim_withdrawal(&bob, &bob_claim);
    assert_eq!(f.vault.queue_head(), carol_claim);
    assert_eq!(
        f.vault.try_settle_withdrawal(),
        Err(Fault::Error(VaultError::InsufficientLiquidity))
    );
    assert_eq!(f.vault.claim_status(&carol_claim), ClaimStatus::Pending);
}

#[test]
fn only_the_admin_can_move_the_vaults_reserve_floor() {
    let f = vault_setup();
    let stranger = account(&f.e);

    f.e.mock_auths(&[stranger]);
    assert_eq!(
        f.vault.try_set_reserve_floor(&stranger, &0u32),
        Err(Fault::Error(VaultError::NotAdmin))
    );

    f.e.mock_auths(&[stranger]);
    assert!(f.vault.try_set_reserve_floor(&f.admin, &0u32).is_err());
    assert_eq!(f.vault.reserve_floor_bps(), 0);

    f.e.mock_auths(&[f.admin]);
    f.vault.set_reserve_floor(&f.admin, &3_000u32);
    assert_eq!(f.vault.reserve_floor_bps(), 3_000);
}

#[test]
fn a_repayment_has_to_have_actually_arrived() {
    let f = vault_setup();
    depositor(&f, 1_000 * USDC);
    f.engine.allocate(&f.admin, &f.pool, &(400 * USDC));
    assert_eq!(f.vault.deployed_capital(), 400 * USDC);
    assert_eq!(f.vault.booked_reserves(), 600 * USDC);

    let hostile_id = f.e.register_hostile();
    let hostile = HostileEngineClient::new(&f.e, &hostile_id);
    hostile.initialize(&f.vault.address);
    assert_eq!(
        f.vault.try_set_engine(&f.admin, &hostile_id),
        Err(Fault::Error(VaultError::CapitalDeployed))
    );

    f.engine.deallocate(&f.pool, &(400 * USDC));
    assert_eq!(f.vault.deployed_capital(), 0);
    assert_eq!(f.vault.booked_reserves(), 1_000 * USDC);
    assert_eq!(f.vault.idle_reserves(), 1_000 * USDC);
}

// ---- the engine ----

const FUNDING: i128 = 1_000 * USDC;
const POOL_CAP: u32 = 3_000;
const ORIGINATOR_CAP: u32 = 4_000;
const JURISDICTION_CAP: u32 = 5_000;
const RESERVE_FLOOR: u32 = 2_000;
const DEPLOYED_POOL_CAP: u32 = 4_000;
const DEPLOYED_ORIGINATOR_CAP: u32 = 4_500;
const DEPLOYED_JURISDICTION_CAP: u32 = 5_000;
const DEPLOYED_RESERVE_FLOOR: u32 = 2_500;

struct EngineFix {
    e: Env,
    engine: AllocationEngineClient,
    usdc: MockUsdcClient,
    vault_id: Address,
    admin: Address,
    /// Private credit, originator QIRO, jurisdiction US.
    pool_a: Address,
    /// Private credit, the same originator and jurisdiction.
    pool_b: Address,
    /// Etherfuse, another originator, the same jurisdiction.
    pool_c: Address,
    adapter_a: PrivateCreditAdapterClient,
    adapter_c: EtherfuseAdapterClient,
}

fn engine_setup() -> EngineFix {
    let e = Env::default();
    e.mock_all_auths();
    let admin = account(&e);

    let usdc_id = e.register_usdc();
    let usdc = MockUsdcClient::new(&e, &usdc_id);
    usdc.initialize(
        &admin,
        &7u32,
        &"USD Coin".to_string(),
        &"USDC".to_string(),
    );

    let vault_id = e.stub_vault(admin, usdc_id);
    usdc.faucet(&vault_id, &FUNDING);

    let engine_id = e.register_engine(admin, vault_id);
    let engine = AllocationEngineClient::new(&e, &engine_id);

    let pool_a = e.register_credit(admin, engine_id, vault_id, usdc_id);
    let adapter_a = PrivateCreditAdapterClient::new(&e, &pool_a);

    let pool_b = e.register_credit(admin, engine_id, vault_id, usdc_id);

    let pool_c = e.register_bond(admin, engine_id, vault_id, usdc_id);
    let adapter_c = EtherfuseAdapterClient::new(&e, &pool_c);

    engine.register_pool(
        &admin,
        &pool_a,
        &sym("QIRO"),
        &sym("US"),
        &POOL_CAP,
    );
    engine.register_pool(
        &admin,
        &pool_b,
        &sym("QIRO"),
        &sym("US"),
        &POOL_CAP,
    );
    engine.register_pool(
        &admin,
        &pool_c,
        &sym("ETHERFUS"),
        &sym("US"),
        &POOL_CAP,
    );

    engine.set_caps(&admin, &POOL_CAP, &ORIGINATOR_CAP, &JURISDICTION_CAP);
    engine.set_reserve_floor(&admin, &RESERVE_FLOOR);

    EngineFix {
        e,
        engine,
        usdc,
        vault_id,
        admin,
        pool_a,
        pool_b,
        pool_c,
        adapter_a,
        adapter_c,
    }
}

fn extra_private_credit_pool(f: &EngineFix) -> Address {
    f.e.register_credit(f.admin, f.engine.address, f.vault_id, f.usdc.address)
}

#[test]
fn allocation_succeeds_under_caps_and_settles_in_the_same_call() {
    let f = engine_setup();
    f.engine.allocate(&f.admin, &f.pool_a, &(200 * USDC));

    assert_eq!(f.engine.get_exposure(&f.pool_a), 200 * USDC);
    assert_eq!(f.engine.total_allocated(), 200 * USDC);
    assert_eq!(f.usdc.balance(&f.vault_id), 800 * USDC);
    assert_eq!(f.usdc.balance(&f.pool_a), 200 * USDC);
    assert_eq!(f.adapter_a.get_exposure(), 200 * USDC);
    assert_eq!(f.engine.get_reserve_ratio(), 8_000);
}

#[test]
fn allocation_is_rejected_when_it_breaches_the_pool_cap() {
    let f = engine_setup();
    assert_eq!(
        f.engine.try_allocate(&f.admin, &f.pool_a, &(350 * USDC)),
        Err(Fault::Error(EngineError::PoolCapExceeded))
    );
    assert_eq!(f.engine.get_exposure(&f.pool_a), 0);
    assert_eq!(f.usdc.balance(&f.vault_id), FUNDING);
    assert_eq!(f.adapter_a.get_exposure(), 0);
}

#[test]
fn allocation_is_rejected_when_it_breaches_the_originator_cap() {
    let f = engine_setup();
    f.engine.allocate(&f.admin, &f.pool_a, &(300 * USDC));
    assert_eq!(
        f.engine.try_allocate(&f.admin, &f.pool_b, &(300 * USDC)),
        Err(Fault::Error(EngineError::OriginatorCapExceeded))
    );
    assert_eq!(f.engine.get_exposure(&f.pool_b), 0);
    assert_eq!(f.engine.total_allocated(), 300 * USDC);
}

#[test]
fn allocation_is_rejected_when_it_breaches_the_jurisdiction_cap() {
    let f = engine_setup();
    f.engine.allocate(&f.admin, &f.pool_a, &(300 * USDC));
    assert_eq!(
        f.engine.try_allocate(&f.admin, &f.pool_c, &(300 * USDC)),
        Err(Fault::Error(EngineError::JurisdictionCapExceeded))
    );
    assert_eq!(f.engine.get_exposure(&f.pool_c), 0);
    assert_eq!(f.adapter_c.get_exposure(), 0);
}

#[test]
fn allocation_is_rejected_when_it_would_breach_the_reserve_floor() {
    let f = engine_setup();
    f.engine.set_reserve_floor(&f.admin, &8_000);

    assert_eq!(
        f.engine.try_allocate(&f.admin, &f.pool_a, &(300 * USDC)),
        Err(Fault::Error(EngineError::ReserveFloorBreached))
    );
    assert_eq!(f.usdc.balance(&f.vault_id), FUNDING);
    assert_eq!(f.engine.get_reserve_ratio(), 10_000);

    f.engine.allocate(&f.admin, &f.pool_a, &(200 * USDC));
    assert_eq!(f.engine.get_reserve_ratio(), 8_000);

    assert_eq!(
        f.engine.try_allocate(&f.admin, &f.pool_a, &USDC),
        Err(Fault::Error(EngineError::ReserveFloorBreached))
    );
}

#[test]
fn an_unconfigured_engine_cannot_deploy_capital() {
    let e = Env::default();
    e.mock_all_auths();
    let admin = account(&e);

    let usdc_id = e.register_usdc();
    let usdc = MockUsdcClient::new(&e, &usdc_id);
    usdc.initialize(
        &admin,
        &7u32,
        &"USD Coin".to_string(),
        &"USDC".to_string(),
    );
    let vault_id = e.stub_vault(admin, usdc_id);
    usdc.faucet(&vault_id, &FUNDING);

    let engine_id = e.register_engine(admin, vault_id);
    let engine = AllocationEngineClient::new(&e, &engine_id);

    let pool = e.register_credit(admin, engine_id, vault_id, usdc_id);
    engine.register_pool(
        &admin,
        &pool,
        &sym("QIRO"),
        &sym("US"),
        &10_000u32,
    );

    assert_eq!(engine.caps().pool_bps, 0);
    assert_eq!(engine.reserve_floor_bps(), 10_000);
    assert_eq!(
        engine.try_allocate(&admin, &pool, &1),
        Err(Fault::Error(EngineError::PoolCapExceeded))
    );
}

#[test]
fn the_global_pool_cap_tightens_a_generous_registry_entry() {
    let f = engine_setup();
    let pool_d = extra_private_credit_pool(&f);
    f.engine.register_pool(
        &f.admin,
        &pool_d,
        &sym("TENKA"),
        &sym("KY"),
        &10_000u32,
    );
    assert_eq!(f.engine.get_pool(&pool_d).cap_bps, 10_000);
    assert_eq!(
        f.engine.try_allocate(&f.admin, &pool_d, &(350 * USDC)),
        Err(Fault::Error(EngineError::PoolCapExceeded))
    );
    f.engine.allocate(&f.admin, &pool_d, &(300 * USDC));
    assert_eq!(f.engine.get_exposure(&pool_d), 300 * USDC);
}

#[test]
fn the_exposure_map_reads_back_the_whole_book() {
    let f = engine_setup();
    f.engine.allocate(&f.admin, &f.pool_a, &(250 * USDC));
    f.engine.allocate(&f.admin, &f.pool_c, &(200 * USDC));

    let exposures = f.engine.get_exposures();
    assert_eq!(exposures.len(), 3);
    assert_eq!(exposures.get(f.pool_a).unwrap(), 250 * USDC);
    assert_eq!(exposures.get(f.pool_b.clone()).unwrap(), 0);
    assert_eq!(exposures.get(f.pool_c.clone()).unwrap(), 200 * USDC);
    assert_eq!(f.engine.total_allocated(), 450 * USDC);
    assert_eq!(f.engine.get_reserve_ratio(), 5_500);
}

#[test]
fn deallocate_reduces_exposure_and_returns_the_cash() {
    let f = engine_setup();
    f.engine.allocate(&f.admin, &f.pool_a, &(300 * USDC));
    assert_eq!(f.usdc.balance(&f.vault_id), 700 * USDC);

    f.engine.deallocate(&f.pool_a, &(120 * USDC));

    assert_eq!(f.engine.get_exposure(&f.pool_a), 180 * USDC);
    assert_eq!(f.adapter_a.get_exposure(), 180 * USDC);
    assert_eq!(f.engine.total_allocated(), 180 * USDC);
    assert_eq!(f.usdc.balance(&f.vault_id), 820 * USDC);
    assert_eq!(f.engine.get_reserve_ratio(), 8_200);

    f.engine.allocate(&f.admin, &f.pool_a, &(120 * USDC));
    assert_eq!(f.engine.get_exposure(&f.pool_a), 300 * USDC);
}

#[test]
fn deallocate_beyond_exposure_is_rejected_by_the_engine() {
    let f = engine_setup();
    f.engine.allocate(&f.admin, &f.pool_a, &(100 * USDC));
    assert_eq!(
        f.engine.try_deallocate(&f.pool_a, &(200 * USDC)),
        Err(Fault::Error(EngineError::ExposureUnderflow))
    );
    assert_eq!(f.engine.get_exposure(&f.pool_a), 100 * USDC);
}

#[test]
fn allocation_beyond_available_reserves_is_rejected() {
    let f = engine_setup();
    f.engine.set_reserve_floor(&f.admin, &0u32);
    f.engine.set_caps(&f.admin, &10_000, &10_000, &10_000);
    let pool_d = extra_private_credit_pool(&f);
    f.engine.register_pool(
        &f.admin,
        &pool_d,
        &sym("TENKA"),
        &sym("KY"),
        &10_000u32,
    );
    assert_eq!(
        f.engine.try_allocate(&f.admin, &pool_d, &(1_500 * USDC)),
        Err(Fault::Error(EngineError::InsufficientReserves))
    );
    f.engine.allocate(&f.admin, &pool_d, &FUNDING);
    assert_eq!(f.engine.get_reserve_ratio(), 0);
}

#[test]
fn non_positive_and_unregistered_allocations_are_rejected() {
    let f = engine_setup();
    assert_eq!(
        f.engine.try_allocate(&f.admin, &f.pool_a, &0),
        Err(Fault::Error(EngineError::InvalidAmount))
    );
    assert_eq!(
        f.engine.try_allocate(&f.admin, &f.pool_a, &(-100 * USDC)),
        Err(Fault::Error(EngineError::InvalidAmount))
    );
    let stranger_pool = account(&f.e);
    assert_eq!(
        f.engine.try_allocate(&f.admin, &stranger_pool, &(10 * USDC)),
        Err(Fault::Error(EngineError::PoolNotRegistered))
    );
}

#[test]
fn only_the_admin_directs_capital() {
    let f = engine_setup();
    let stranger = account(&f.e);
    assert_eq!(
        f.engine.try_allocate(&stranger, &f.pool_a, &(10 * USDC)),
        Err(Fault::Error(EngineError::NotAdmin))
    );
    assert_eq!(
        f.engine
            .try_register_pool(
                &stranger,
                &f.pool_a,
                &sym("X"),
                &sym("Y"),
                &1_000u32
            ),
        Err(Fault::Error(EngineError::NotAdmin))
    );
    assert_eq!(
        f.engine.try_set_reserve_floor(&stranger, &0u32),
        Err(Fault::Error(EngineError::NotAdmin))
    );
    assert_eq!(
        f.engine.try_set_vault(&stranger, &stranger),
        Err(Fault::Error(EngineError::NotAdmin))
    );
    assert_eq!(f.engine.vault(), f.vault_id);
}

#[test]
fn the_vault_pointer_moves_while_the_book_is_empty() {
    let f = engine_setup();
    let replacement = f.e.stub_vault(f.admin, f.usdc.address);
    f.usdc.faucet(&replacement, &FUNDING);

    f.engine.set_vault(&f.admin, &replacement);
    assert_eq!(f.engine.vault(), replacement);

    f.adapter_a
        .set_counterparties(&f.admin, &f.engine.address, &replacement);

    f.engine.allocate(&f.admin, &f.pool_a, &(200 * USDC));
    assert_eq!(f.usdc.balance(&replacement), 800 * USDC);
    assert_eq!(f.usdc.balance(&f.vault_id), FUNDING);
    assert_eq!(f.engine.get_reserve_ratio(), 8_000);
}

#[test]
fn an_adapter_left_behind_by_a_vault_repoint_cannot_be_funded_or_settled() {
    let f = engine_setup();
    f.engine.allocate(&f.admin, &f.pool_a, &(200 * USDC));
    f.engine.deallocate(&f.pool_a, &(200 * USDC));

    let replacement = f.e.stub_vault(f.admin, f.usdc.address);
    f.usdc.faucet(&replacement, &FUNDING);
    f.engine.set_vault(&f.admin, &replacement);

    assert_eq!(f.adapter_a.vault(), f.vault_id);
    assert_eq!(f.adapter_a.engine(), f.engine.address);
    assert_eq!(
        f.engine.try_allocate(&f.admin, &f.pool_a, &(200 * USDC)),
        Err(Fault::Error(EngineError::AdapterMismatch)),
        "the new Vault's money must not go to an adapter that repays the old one"
    );
    assert_eq!(f.engine.get_exposure(&f.pool_a), 0);
    assert_eq!(f.engine.total_allocated(), 0);
    assert_eq!(f.usdc.balance(&replacement), FUNDING);
    assert_eq!(f.usdc.balance(&f.pool_a), 0);
    assert_eq!(f.adapter_a.get_exposure(), 0);

    assert_eq!(
        f.engine.try_deallocate(&f.pool_a, &(1 * USDC)),
        Err(Fault::Error(EngineError::AdapterMismatch))
    );
    f.usdc.faucet(&f.pool_a, &(5 * USDC));
    assert_eq!(
        f.engine.try_recover(&f.admin, &f.pool_a),
        Err(Fault::Error(EngineError::AdapterMismatch)),
        "and a sweep must not send the surplus to a Vault this Engine does not govern"
    );
    assert_eq!(f.usdc.balance(&f.pool_a), 5 * USDC, "the sweep moved nothing");

    f.adapter_c
        .set_counterparties(&f.admin, &f.engine.address, &replacement);
    f.engine.allocate(&f.admin, &f.pool_c, &(200 * USDC));
    assert_eq!(f.engine.get_exposure(&f.pool_c), 200 * USDC);
    assert_eq!(f.usdc.balance(&replacement), 800 * USDC);
}

#[test]
fn the_vault_pointer_is_frozen_while_capital_is_deployed() {
    let f = engine_setup();
    f.engine.allocate(&f.admin, &f.pool_a, &(200 * USDC));

    let replacement = f.e.stub_vault(f.admin, f.usdc.address);
    assert_eq!(
        f.engine.try_set_vault(&f.admin, &replacement),
        Err(Fault::Error(EngineError::CapitalDeployed))
    );
    assert_eq!(f.engine.vault(), f.vault_id);

    f.engine.deallocate(&f.pool_a, &(200 * USDC));
    assert_eq!(f.engine.total_allocated(), 0);
    f.engine.set_vault(&f.admin, &replacement);
    assert_eq!(f.engine.vault(), replacement);
}

#[test]
fn caps_and_floors_outside_the_bps_range_are_rejected() {
    let f = engine_setup();
    assert_eq!(
        f.engine.try_set_caps(&f.admin, &10_001, &1_000, &1_000),
        Err(Fault::Error(EngineError::InvalidCap))
    );
    assert_eq!(
        f.engine.try_set_reserve_floor(&f.admin, &10_001),
        Err(Fault::Error(EngineError::InvalidCap))
    );
    assert_eq!(f.engine.caps().pool_bps, POOL_CAP);
    assert_eq!(f.engine.reserve_floor_bps(), RESERVE_FLOOR);
}

#[test]
fn a_pool_cannot_be_registered_twice() {
    let f = engine_setup();
    assert_eq!(
        f.engine.try_register_pool(
            &f.admin,
            &f.pool_a,
            &sym("OTHER"),
            &sym("KY"),
            &10_000u32
        ),
        Err(Fault::Error(EngineError::PoolAlreadyRegistered))
    );
    assert_eq!(f.engine.get_pool(&f.pool_a).originator, sym("QIRO"));
}

#[test]
fn the_deployed_limits_leave_the_reserve_floor_able_to_bind() {
    let e = Env::default();
    e.mock_all_auths();
    let admin = account(&e);

    let usdc_id = e.register_usdc();
    let usdc = MockUsdcClient::new(&e, &usdc_id);
    usdc.initialize(
        &admin,
        &7u32,
        &"USD Coin".to_string(),
        &"USDC".to_string(),
    );
    let vault_id = e.stub_vault(admin, usdc_id);
    usdc.faucet(&vault_id, &FUNDING);

    let engine_id = e.register_engine(admin, vault_id);
    let engine = AllocationEngineClient::new(&e, &engine_id);

    let pc = e.register_credit(admin, engine_id, vault_id, usdc_id);
    let ef = e.register_bond(admin, engine_id, vault_id, usdc_id);

    engine.register_pool(
        &admin,
        &pc,
        &sym("QIRO"),
        &sym("LU"),
        &DEPLOYED_POOL_CAP,
    );
    engine.register_pool(
        &admin,
        &ef,
        &sym("ETHERFUS"),
        &sym("MX"),
        &DEPLOYED_POOL_CAP,
    );
    engine.set_caps(
        &admin,
        &DEPLOYED_POOL_CAP,
        &DEPLOYED_ORIGINATOR_CAP,
        &DEPLOYED_JURISDICTION_CAP,
    );
    engine.set_reserve_floor(&admin, &DEPLOYED_RESERVE_FLOOR);

    assert!(2 * DEPLOYED_POOL_CAP > 10_000 - DEPLOYED_RESERVE_FLOOR);

    engine.allocate(&admin, &pc, &(400 * USDC));
    assert_eq!(engine.get_reserve_ratio(), 6_000);
    engine.allocate(&admin, &ef, &(350 * USDC));
    assert_eq!(engine.get_reserve_ratio(), DEPLOYED_RESERVE_FLOOR);

    assert_eq!(
        engine.try_allocate(&admin, &ef, &(50 * USDC)),
        Err(Fault::Error(EngineError::ReserveFloorBreached))
    );
    assert_eq!(engine.get_exposure(&ef), 350 * USDC);
    assert_eq!(usdc.balance(&vault_id), 250 * USDC);

    engine.set_reserve_floor(&admin, &2_000);
    engine.allocate(&admin, &ef, &(50 * USDC));
    assert_eq!(engine.get_exposure(&ef), 400 * USDC);
    assert_eq!(engine.get_reserve_ratio(), 2_000);

    engine.set_reserve_floor(&admin, &0);
    assert_eq!(
        engine.try_allocate(&admin, &ef, &(1 * USDC)),
        Err(Fault::Error(EngineError::PoolCapExceeded))
    );
    assert_eq!(
        engine.try_allocate(&admin, &pc, &(1 * USDC)),
        Err(Fault::Error(EngineError::PoolCapExceeded))
    );
}

#[test]
fn a_pool_that_does_not_name_this_engine_and_this_vault_cannot_be_registered() {
    let f = engine_setup();

    let other_engine = f.e.register_engine(f.admin, f.vault_id);
    let foreign_engine_pool = f.e.register_credit(f.admin, other_engine, f.vault_id, f.usdc.address);
    assert_eq!(
        f.engine.try_register_pool(
            &f.admin,
            &foreign_engine_pool,
            &sym("QIRO"),
            &sym("US"),
            &POOL_CAP,
        ),
        Err(Fault::Error(EngineError::AdapterMismatch))
    );

    let other_vault = f.e.stub_vault(f.admin, f.usdc.address);
    let foreign_vault_pool = f.e.register_credit(f.admin, f.engine.address, f.vault_id, f.usdc.address);
    f.engine.set_vault(&f.admin, &other_vault);
    assert_eq!(f.engine.vault(), other_vault);
    assert_eq!(
        f.engine.try_register_pool(
            &f.admin,
            &foreign_vault_pool,
            &sym("QIRO"),
            &sym("US"),
            &POOL_CAP,
        ),
        Err(Fault::Error(EngineError::AdapterMismatch))
    );
    f.engine.set_vault(&f.admin, &f.vault_id);

    assert_eq!(
        f.engine.try_register_pool(
            &f.admin,
            &account(&f.e),
            &sym("QIRO"),
            &sym("US"),
            &POOL_CAP,
        ),
        Err(Fault::Error(EngineError::AdapterMismatch))
    );

    assert_eq!(f.engine.pools().len(), 3);
}

#[test]
fn a_default_can_be_written_down_and_the_reserve_ratio_stops_lying() {
    let f = engine_setup();
    f.engine.allocate(&f.admin, &f.pool_a, &(200 * USDC));
    assert_eq!(f.engine.get_reserve_ratio(), 8_000);

    f.usdc.burn(&f.pool_a, &(200 * USDC));
    assert!(f.engine.try_deallocate(&f.pool_a, &(200 * USDC)).is_err());
    assert_eq!(f.engine.get_exposure(&f.pool_a), 200 * USDC);
    assert_eq!(f.engine.get_reserve_ratio(), 8_000);

    f.engine.write_down(
        &f.admin,
        &f.pool_a,
        &(100 * USDC),
        &sym("DEFAULT"),
    );
    assert_eq!(f.engine.get_exposure(&f.pool_a), 100 * USDC);
    assert_eq!(f.engine.total_allocated(), 100 * USDC);
    assert_eq!(f.adapter_a.get_exposure(), 100 * USDC);
    assert_eq!(f.e.stub(&f.vault_id).written, 100 * USDC);
    assert_eq!(f.engine.written_off(), 100 * USDC);
    assert_eq!(f.engine.floor_base(), 1_000 * USDC);
    assert_eq!(f.engine.get_reserve_ratio(), 8_000);

    f.engine.write_down(
        &f.admin,
        &f.pool_a,
        &(100 * USDC),
        &sym("DEFAULT"),
    );
    assert_eq!(f.engine.get_exposure(&f.pool_a), 0);
    assert_eq!(f.engine.total_allocated(), 0);
    assert_eq!(f.engine.written_off(), 200 * USDC);
    assert_eq!(f.engine.floor_base(), 1_000 * USDC);
    assert_eq!(f.engine.get_reserve_ratio(), 8_000);

    assert_eq!(
        f.engine
            .try_write_down(&f.admin, &f.pool_a, &(1 * USDC), &sym("DEFAULT")),
        Err(Fault::Error(EngineError::WriteDownExceedsExposure))
    );
    assert_eq!(f.usdc.balance(&f.vault_id), 800 * USDC);
}

#[test]
fn only_the_admin_can_write_down_an_exposure() {
    let f = engine_setup();
    f.engine.allocate(&f.admin, &f.pool_a, &(200 * USDC));
    let stranger = account(&f.e);

    f.e.mock_auths(&[stranger]);
    assert_eq!(
        f.engine
            .try_write_down(&stranger, &f.pool_a, &(200 * USDC), &sym("DEFAULT")),
        Err(Fault::Error(EngineError::NotAdmin))
    );

    f.e.mock_auths(&[stranger]);
    assert!(f
        .engine
        .try_write_down(&f.admin, &f.pool_a, &(200 * USDC), &sym("DEFAULT"))
        .is_err());
    assert_eq!(f.engine.get_exposure(&f.pool_a), 200 * USDC);
}

#[test]
fn queued_withdrawals_are_subtracted_before_the_caps_and_the_floor() {
    let f = engine_setup();
    f.e.set_queued(&f.vault_id, 400 * USDC);
    assert_eq!(f.e.0.borrow().free_reserves(f.vault_id), Ok(600 * USDC));

    assert_eq!(f.engine.get_reserve_ratio(), 10_000);
    assert_eq!(
        f.engine.try_allocate(&f.admin, &f.pool_a, &(200 * USDC)),
        Err(Fault::Error(EngineError::PoolCapExceeded))
    );
    f.engine.allocate(&f.admin, &f.pool_a, &(180 * USDC));
    assert_eq!(f.engine.get_reserve_ratio(), 7_000);

    assert_eq!(f.usdc.balance(&f.vault_id), 820 * USDC);
}

#[test]
fn deallocation_reports_the_repayment_to_the_vault() {
    let f = engine_setup();
    f.engine.allocate(&f.admin, &f.pool_a, &(200 * USDC));
    assert_eq!(f.e.stub(&f.vault_id).repaid, 0);

    f.engine.deallocate(&f.pool_a, &(120 * USDC));
    assert_eq!(f.e.stub(&f.vault_id).repaid, 120 * USDC);
    assert_eq!(f.engine.get_exposure(&f.pool_a), 80 * USDC);
}

#[test]
fn the_admin_role_moves_only_to_an_address_that_signs_for_it() {
    let f = engine_setup();
    let successor = account(&f.e);
    let mallory = account(&f.e);
    assert_eq!(f.engine.pending_admin(), None);

    assert_eq!(
        f.engine.try_propose_admin(&mallory, &mallory),
        Err(Fault::Error(EngineError::NotAdmin))
    );

    f.engine.propose_admin(&f.admin, &successor);
    assert_eq!(f.engine.pending_admin(), Some(successor.clone()));
    assert_eq!(f.engine.admin(), f.admin);

    assert_eq!(
        f.engine.try_accept_admin(&mallory),
        Err(Fault::Error(EngineError::NotPendingAdmin))
    );
    f.e.mock_auths(&[mallory]);
    assert!(f.engine.try_accept_admin(&successor).is_err());
    assert_eq!(f.engine.admin(), f.admin);

    f.e.mock_all_auths();
    f.engine.accept_admin(&successor);
    assert_eq!(f.engine.admin(), successor);
    assert_eq!(f.engine.pending_admin(), None);
    assert_eq!(
        f.engine.try_accept_admin(&successor),
        Err(Fault::Error(EngineError::NoPendingAdmin))
    );
}

#[test]
fn a_write_down_does_not_reopen_the_engines_reserve_floor() {
    let f = engine_setup();
    let pool = extra_private_credit_pool(&f);
    f.engine.register_pool(
        &f.admin,
        &pool,
        &sym("SOLO"),
        &sym("LU"),
        &10_000,
    );
    f.engine.set_caps(&f.admin, &10_000, &10_000, &10_000);
    f.engine.set_reserve_floor(&f.admin, &2_000);

    f.engine.allocate(&f.admin, &pool, &(800 * USDC));
    assert_eq!(f.engine.get_reserve_ratio(), 2_000);
    assert_eq!(
        f.engine.try_allocate(&f.admin, &pool, &1),
        Err(Fault::Error(EngineError::ReserveFloorBreached))
    );

    f.engine
        .write_down(&f.admin, &pool, &(800 * USDC), &sym("DEFAULT"));
    assert_eq!(f.engine.total_allocated(), 0);
    assert_eq!(f.engine.written_off(), 800 * USDC);
    assert_eq!(f.usdc.balance(&pool), 800 * USDC);

    assert_eq!(f.engine.floor_base(), 1_000 * USDC);
    assert_eq!(f.engine.get_reserve_ratio(), 2_000);

    let clean = extra_private_credit_pool(&f);
    f.engine.register_pool(
        &f.admin,
        &clean,
        &sym("SOLO2"),
        &sym("MX"),
        &10_000,
    );
    assert_eq!(f.engine.charged_exposure(&clean), 0);
    assert_eq!(
        f.engine.try_allocate(&f.admin, &clean, &1),
        Err(Fault::Error(EngineError::ReserveFloorBreached))
    );

    for _ in 0..40 {
        let free = f.usdc.balance(&f.vault_id);
        if free <= 0 {
            break;
        }
        let mut take = free;
        while take > 0 && f.engine.try_allocate(&f.admin, &clean, &take).is_err() {
            take = take * 9 / 10;
        }
        if take == 0 {
            break;
        }
        f.engine
            .write_down(&f.admin, &clean, &take, &sym("DEFAULT"));
    }
    assert_eq!(
        f.usdc.balance(&f.vault_id),
        200 * USDC,
        "the 20% floor has to survive write-downs, not only allocations"
    );
}

#[test]
fn a_write_down_does_not_reopen_the_pool_cap() {
    let f = engine_setup();
    let cap = 300 * USDC;
    f.engine.allocate(&f.admin, &f.pool_a, &cap);
    assert_eq!(
        f.engine.try_allocate(&f.admin, &f.pool_a, &1),
        Err(Fault::Error(EngineError::PoolCapExceeded)),
        "the pool is full before the write-down, which is the state under test"
    );

    f.engine
        .write_down(&f.admin, &f.pool_a, &cap, &sym("DEFAULT"));

    assert_eq!(f.engine.get_exposure(&f.pool_a), 0);
    assert_eq!(f.engine.total_allocated(), 0);
    assert_eq!(f.usdc.balance(&f.pool_a), cap);

    assert_eq!(
        f.engine.try_allocate(&f.admin, &f.pool_a, &1),
        Err(Fault::Error(EngineError::PoolCapExceeded)),
        "a write-down must not buy back a cap any more than it buys back a floor"
    );
    assert_eq!(f.engine.charged_exposure(&f.pool_a), cap);
    assert_eq!(f.engine.written_off_pool(&f.pool_a), cap);
}

#[test]
fn a_write_down_keeps_charging_the_originator_and_the_jurisdiction() {
    let f = engine_setup();
    f.engine.allocate(&f.admin, &f.pool_a, &(300 * USDC));
    f.engine
        .write_down(&f.admin, &f.pool_a, &(300 * USDC), &sym("DEFAULT"));

    assert_eq!(
        f.engine.try_allocate(&f.admin, &f.pool_b, &(100 * USDC)),
        Err(Fault::Error(EngineError::OriginatorCapExceeded)),
        "a second pool fronted by the defaulted originator must not be refunded"
    );

    assert_eq!(
        f.engine.try_allocate(&f.admin, &f.pool_c, &(100 * USDC)),
        Err(Fault::Error(EngineError::JurisdictionCapExceeded)),
        "and neither must the jurisdiction the loss happened in"
    );
    f.engine.allocate(&f.admin, &f.pool_c, &(50 * USDC));
}

#[test]
fn recover_brings_written_down_capital_home_and_releases_the_charge() {
    let f = engine_setup();
    let lost = 300 * USDC;
    f.engine.allocate(&f.admin, &f.pool_a, &lost);
    f.engine
        .write_down(&f.admin, &f.pool_a, &lost, &sym("DEFAULT"));

    assert_eq!(f.engine.get_exposure(&f.pool_a), 0);
    assert_eq!(f.usdc.balance(&f.pool_a), lost);
    assert_eq!(
        f.engine.try_deallocate(&f.pool_a, &lost),
        Err(Fault::Error(EngineError::ExposureUnderflow)),
        "deallocate cannot reach it"
    );
    assert_eq!(
        f.adapter_a
            .try_set_counterparties(&f.admin, &f.engine.address, &f.vault_id),
        Err(Fault::Error(private_credit::AdapterError::NotEmpty)),
        "and the cash blocks the repair path as well as being stuck itself"
    );

    let vault_before = f.usdc.balance(&f.vault_id);
    let admin_before = f.usdc.balance(&f.admin);
    assert_eq!(f.engine.recover(&f.admin, &f.pool_a), lost);

    assert_eq!(f.usdc.balance(&f.pool_a), 0);
    assert_eq!(f.usdc.balance(&f.vault_id), vault_before + lost);
    assert_eq!(
        f.usdc.balance(&f.admin),
        admin_before,
        "there is no path from here to the caller's own balance"
    );
    assert_eq!(f.e.stub(&f.vault_id).recovered, lost);

    assert_eq!(f.engine.written_off(), 0);
    assert_eq!(f.engine.written_off_pool(&f.pool_a), 0);
    assert_eq!(f.engine.charged_exposure(&f.pool_a), 0);

    f.engine.allocate(&f.admin, &f.pool_a, &(300 * USDC));

    assert_eq!(
        f.adapter_a
            .try_set_counterparties(&f.admin, &f.engine.address, &f.vault_id),
        Err(Fault::Error(private_credit::AdapterError::NotEmpty)),
        "still refused, but now because the adapter has a live position rather than a dead one"
    );
}

#[test]
fn recover_moves_surplus_over_principal_even_with_no_loss_on_the_books() {
    let f = engine_setup();
    f.engine.allocate(&f.admin, &f.pool_a, &(100 * USDC));
    f.usdc.faucet(&f.pool_a, &(10 * USDC));

    let vault_before = f.usdc.balance(&f.vault_id);
    assert_eq!(f.engine.written_off(), 0);
    assert_eq!(f.engine.recover(&f.admin, &f.pool_a), 10 * USDC);
    assert_eq!(f.usdc.balance(&f.vault_id), vault_before + 10 * USDC);

    assert_eq!(f.engine.get_exposure(&f.pool_a), 100 * USDC);
    assert_eq!(f.usdc.balance(&f.pool_a), 100 * USDC);
    f.engine.deallocate(&f.pool_a, &(100 * USDC));
    assert_eq!(f.engine.get_exposure(&f.pool_a), 0);
}

#[test]
fn a_half_finished_admin_rotation_refuses_by_name() {
    let f = engine_setup();
    f.engine.allocate(&f.admin, &f.pool_a, &(100 * USDC));
    assert!(f.engine.admin_aligned());
    assert_eq!(f.engine.vault_admin(), f.admin);

    let successor = account(&f.e);
    f.engine.propose_admin(&f.admin, &successor);
    f.engine.accept_admin(&successor);
    assert_eq!(f.engine.admin(), successor);

    assert!(
        !f.engine.admin_aligned(),
        "the divergence has to be readable before an incident, not during one"
    );
    assert_eq!(
        f.engine
            .try_write_down(&successor, &f.pool_a, &(1 * USDC), &sym("DEFAULT")),
        Err(Fault::Error(EngineError::AdminMismatch)),
        "a named refusal from the contract that knows why, not a trap from the one that does not"
    );
    assert_eq!(
        f.engine.try_recover(&successor, &f.pool_a),
        Err(Fault::Error(EngineError::AdminMismatch)),
        "recover needs the same pair of signatures and fails the same way"
    );
    assert_eq!(
        f.engine
            .try_write_down(&f.admin, &f.pool_a, &(1 * USDC), &sym("DEFAULT")),
        Err(Fault::Error(EngineError::NotAdmin))
    );

    f.engine.propose_admin(&successor, &f.admin);
    f.engine.accept_admin(&f.admin);
    assert!(f.engine.admin_aligned());
    f.engine
        .write_down(&f.admin, &f.pool_a, &(1 * USDC), &sym("DEFAULT"));
}

#[test]
#[should_panic(expected = "#419")]
fn the_constructor_refuses_a_vault_that_is_not_one() {
    let e = Env::default();
    e.mock_all_auths();
    let admin = account(&e);
    let not_a_vault = account(&e);
    e.register_engine(admin, not_a_vault);
}

#[test]
#[should_panic(expected = "#419")]
fn the_constructor_refuses_a_vault_with_a_different_admin() {
    let e = Env::default();
    e.mock_all_auths();
    let admin = account(&e);
    let stranger = account(&e);

    let usdc_id = e.register_usdc();
    MockUsdcClient::new(&e, &usdc_id).initialize(
        &admin,
        &7u32,
        &"USD Coin".to_string(),
        &"USDC".to_string(),
    );
    let vault_id = e.stub_vault(stranger, usdc_id);

    e.register_engine(admin, vault_id);
}

#[test]
fn set_vault_refuses_exactly_what_the_constructor_refuses() {
    let f = engine_setup();
    assert_eq!(
        f.engine.try_set_vault(&f.admin, &account(&f.e)),
        Err(Fault::Error(EngineError::VaultMismatch)),
        "an ordinary account cannot answer admin(), so it cannot be a Vault"
    );

    let stranger = account(&f.e);
    let other_vault = f.e.stub_vault(stranger, f.usdc.address);
    assert_eq!(
        f.engine.try_set_vault(&f.admin, &other_vault),
        Err(Fault::Error(EngineError::VaultMismatch)),
        "and a real Vault under a different admin can never be asked to recognise a loss"
    );

    let good_vault = f.e.stub_vault(f.admin, f.usdc.address);
    f.engine.set_vault(&f.admin, &good_vault);
    assert_eq!(f.engine.vault(), good_vault);
}

#[test]
fn a_surplus_swept_by_the_adapter_admin_can_still_be_booked() {
    let f = engine_setup();
    f.engine.allocate(&f.admin, &f.pool_a, &(300 * USDC));
    f.engine.write_down(
        &f.admin,
        &f.pool_a,
        &(300 * USDC),
        &sym("DEFAULT"),
    );

    assert_eq!(f.engine.written_off_pool(&f.pool_a), 300 * USDC);
    assert_eq!(f.engine.written_off(), 300 * USDC);
    assert_eq!(f.usdc.balance(&f.pool_a), 300 * USDC);

    f.adapter_a.recover_surplus(&f.admin);
    assert_eq!(f.usdc.balance(&f.pool_a), 0);

    assert_eq!(
        f.engine.try_recover(&f.admin, &f.pool_a),
        Err(Fault::Trap(Trap::Callee(InvokeError::Contract(611))))
    );
    assert_eq!(f.engine.written_off_pool(&f.pool_a), 300 * USDC);

    f.engine.book_recovery(&f.admin, &f.pool_a, &(300 * USDC));

    assert_eq!(f.e.stub(&f.vault_id).recovered, 300 * USDC);
    assert_eq!(f.engine.written_off_pool(&f.pool_a), 0);
    assert_eq!(f.engine.written_off(), 0);

    f.engine.allocate(&f.admin, &f.pool_a, &(300 * USDC));
    assert_eq!(f.engine.get_exposure(&f.pool_a), 300 * USDC);
}

#[test]
fn a_booked_recovery_and_a_swept_one_land_in_the_same_place() {
    let swept = {
        let f = engine_setup();
        f.engine.allocate(&f.admin, &f.pool_a, &(300 * USDC));
        f.engine.write_down(
            &f.admin,
            &f.pool_a,
            &(300 * USDC),
            &sym("DEFAULT"),
        );
        f.engine.recover(&f.admin, &f.pool_a);
        (
            f.engine.written_off(),
            f.engine.written_off_pool(&f.pool_a),
            f.engine.total_allocated(),
            f.e.stub(&f.vault_id).recovered,
        )
    };

    let booked = {
        let f = engine_setup();
        f.engine.allocate(&f.admin, &f.pool_a, &(300 * USDC));
        f.engine.write_down(
            &f.admin,
            &f.pool_a,
            &(300 * USDC),
            &sym("DEFAULT"),
        );
        f.adapter_a.recover_surplus(&f.admin);
        f.engine.book_recovery(&f.admin, &f.pool_a, &(300 * USDC));
        (
            f.engine.written_off(),
            f.engine.written_off_pool(&f.pool_a),
            f.engine.total_allocated(),
            f.e.stub(&f.vault_id).recovered,
        )
    };

    assert_eq!(swept, booked);
}

#[test]
fn a_booked_recovery_releases_no_more_than_the_pool_was_charged() {
    let f = engine_setup();
    f.engine.allocate(&f.admin, &f.pool_a, &(250 * USDC));
    f.engine.allocate(&f.admin, &f.pool_b, &(100 * USDC));
    f.engine.write_down(
        &f.admin,
        &f.pool_a,
        &(100 * USDC),
        &sym("DEFAULT"),
    );
    f.engine.write_down(
        &f.admin,
        &f.pool_b,
        &(100 * USDC),
        &sym("DEFAULT"),
    );
    assert_eq!(f.engine.written_off(), 200 * USDC);

    f.engine.book_recovery(&f.admin, &f.pool_a, &(150 * USDC));
    assert_eq!(f.engine.written_off_pool(&f.pool_a), 0);
    assert_eq!(f.engine.written_off_pool(&f.pool_b), 100 * USDC);
    assert_eq!(f.engine.written_off(), 50 * USDC);
}

#[test]
fn only_the_admin_can_book_a_recovery() {
    let f = engine_setup();
    let stranger = account(&f.e);
    f.engine.allocate(&f.admin, &f.pool_a, &(300 * USDC));
    f.engine.write_down(
        &f.admin,
        &f.pool_a,
        &(300 * USDC),
        &sym("DEFAULT"),
    );
    f.adapter_a.recover_surplus(&f.admin);

    assert_eq!(
        f.engine
            .try_book_recovery(&stranger, &f.pool_a, &(300 * USDC)),
        Err(Fault::Error(EngineError::NotAdmin))
    );
    assert_eq!(
        f.engine.try_book_recovery(&f.admin, &f.pool_c, &0i128),
        Err(Fault::Error(EngineError::InvalidAmount))
    );
    let unregistered = extra_private_credit_pool(&f);
    assert_eq!(
        f.engine
            .try_book_recovery(&f.admin, &unregistered, &USDC),
        Err(Fault::Error(EngineError::PoolNotRegistered))
    );
    assert_eq!(f.engine.written_off_pool(&f.pool_a), 300 * USDC);
}

#[test]
fn an_adapter_can_never_hold_less_usdc_than_it_has_booked() {
    let f = engine_setup();
    let check = |f: &EngineFix| {
        assert!(f.usdc.balance(&f.pool_a) >= f.adapter_a.get_exposure());
        assert!(f.usdc.balance(&f.pool_c) >= f.adapter_c.get_exposure());
    };

    check(&f);
    f.engine.allocate(&f.admin, &f.pool_a, &(250 * USDC));
    f.engine.allocate(&f.admin, &f.pool_c, &(150 * USDC));
    check(&f);
    f.engine.deallocate(&f.pool_a, &(120 * USDC));
    check(&f);
    f.engine
        .write_down(&f.admin, &f.pool_a, &(80 * USDC), &sym("DEFAULT"));
    check(&f);
    f.engine.recover(&f.admin, &f.pool_a);
    check(&f);
    f.usdc.faucet(&f.pool_c, &(10 * USDC));
    check(&f);
    f.adapter_c.recover_surplus(&f.admin);
    check(&f);

    f.usdc.faucet(&f.pool_a, &(50 * USDC));
    check(&f);
    f.engine.recover(&f.admin, &f.pool_a);
    check(&f);

    f.engine
        .deallocate(&f.pool_a, &f.engine.get_exposure(&f.pool_a));
    assert_eq!(f.engine.get_exposure(&f.pool_a), 0);
    check(&f);
}

// ---- the private credit adapter ----

struct CreditFix {
    e: Env,
    usdc: MockUsdcClient,
    adapter: PrivateCreditAdapterClient,
    adapter_id: Address,
    vault: Address,
    admin: Address,
}

/// A vault that only says which token it custodies.
fn mock_vault(e: &Env, usdc: &Address) -> Address {
    e.stub_vault(*usdc, *usdc)
}

fn credit_setup() -> CreditFix {
    let e = Env::default();
    e.mock_all_auths();

    let admin = account(&e);

    let usdc_id = e.register_usdc();
    let usdc = MockUsdcClient::new(&e, &usdc_id);
    usdc.initialize(
        &admin,
        &7u32,
        &"USD Coin".to_string(),
        &"USDC".to_string(),
    );
    let vault = mock_vault(&e, &usdc_id);

    let engine = e.stub_engine(vault);

    let adapter_id = e.register_credit(admin, engine, vault, usdc_id);
    let adapter = PrivateCreditAdapterClient::new(&e, &adapter_id);

    CreditFix {
        e,
        usdc,
        adapter,
        adapter_id,
        vault,
        admin,
    }
}

#[test]
fn allocate_books_exposure() {
    let f = credit_setup();
    assert_eq!(f.adapter.get_exposure(), 0);
    f.adapter.allocate(&(500 * USDC));
    assert_eq!(f.adapter.get_exposure(), 500 * USDC);
    f.adapter.allocate(&(250 * USDC));
    assert_eq!(f.adapter.get_exposure(), 750 * USDC);
}

#[test]
fn deallocate_returns_capital_and_reduces_exposure_together() {
    let f = credit_setup();
    f.usdc.faucet(&f.adapter_id, &(500 * USDC));
    f.adapter.allocate(&(500 * USDC));

    f.adapter.deallocate(&(200 * USDC));
    assert_eq!(f.adapter.get_exposure(), 300 * USDC);
    assert_eq!(f.usdc.balance(&f.vault), 200 * USDC);
    assert_eq!(f.usdc.balance(&f.adapter_id), 300 * USDC);
}

#[test]
fn deallocate_beyond_exposure_is_rejected() {
    let f = credit_setup();
    f.usdc.faucet(&f.adapter_id, &(500 * USDC));
    f.adapter.allocate(&(100 * USDC));

    assert_eq!(
        f.adapter.try_deallocate(&(200 * USDC)),
        Err(Fault::Error(private_credit::AdapterError::ExposureUnderflow))
    );
    assert_eq!(f.adapter.get_exposure(), 100 * USDC);
    assert_eq!(f.usdc.balance(&f.vault), 0);
}

#[test]
fn non_positive_amounts_are_rejected() {
    let f = credit_setup();
    assert_eq!(
        f.adapter.try_allocate(&0),
        Err(Fault::Error(private_credit::AdapterError::InvalidAmount))
    );
    assert_eq!(
        f.adapter.try_allocate(&(-100 * USDC)),
        Err(Fault::Error(private_credit::AdapterError::InvalidAmount))
    );
    assert_eq!(
        f.adapter.try_deallocate(&0),
        Err(Fault::Error(private_credit::AdapterError::InvalidAmount))
    );
}

#[test]
fn only_the_engine_can_move_capital() {
    let f = credit_setup();
    f.usdc.faucet(&f.adapter_id, &(500 * USDC));
    f.adapter.allocate(&(500 * USDC));

    f.e.mock_auths(&[]);
    assert!(f.adapter.try_allocate(&(100 * USDC)).is_err());
    assert!(f.adapter.try_deallocate(&(100 * USDC)).is_err());
    assert_eq!(f.adapter.get_exposure(), 500 * USDC);
}

#[test]
fn metadata_matches_the_feed_the_pool_is_priced_from() {
    let f = credit_setup();
    assert_eq!(f.adapter.pool_kind(), sym("PRIVCRED"));
    assert_eq!(f.adapter.oracle_feed(), sym("PC_NAV"));
    assert_eq!(f.adapter.settlement_window(), (15, 90));
}

#[test]
fn the_counterparties_move_only_together_and_only_while_the_adapter_is_empty() {
    let f = credit_setup();
    let stranger = account(&f.e);

    let new_vault = mock_vault(&f.e, &f.usdc.address);
    let new_engine = f.e.stub_engine(new_vault);

    assert_eq!(
        f.adapter
            .try_set_counterparties(&stranger, &new_engine, &new_vault),
        Err(Fault::Error(private_credit::AdapterError::NotAdmin))
    );

    assert_eq!(
        f.adapter
            .try_set_counterparties(&f.admin, &new_engine, &stranger),
        Err(Fault::Error(private_credit::AdapterError::CounterpartyMismatch))
    );
    assert_eq!(
        f.adapter
            .try_set_counterparties(&f.admin, &stranger, &new_vault),
        Err(Fault::Error(private_credit::AdapterError::CounterpartyMismatch))
    );

    f.adapter
        .set_counterparties(&f.admin, &new_engine, &new_vault);
    assert_eq!(f.adapter.engine(), new_engine);
    assert_eq!(f.adapter.vault(), new_vault);

    f.usdc.faucet(&f.adapter_id, &(500 * USDC));
    f.adapter.allocate(&(500 * USDC));
    let other_vault = mock_vault(&f.e, &f.usdc.address);
    let other_engine = f.e.stub_engine(other_vault);
    assert_eq!(
        f.adapter
            .try_set_counterparties(&f.admin, &other_engine, &other_vault),
        Err(Fault::Error(private_credit::AdapterError::NotEmpty))
    );

    f.adapter.deallocate(&(500 * USDC));
    assert_eq!(f.adapter.get_exposure(), 0);
    f.usdc.faucet(&f.adapter_id, &(10 * USDC));
    assert_eq!(
        f.adapter
            .try_set_counterparties(&f.admin, &other_engine, &other_vault),
        Err(Fault::Error(private_credit::AdapterError::NotEmpty))
    );

    f.adapter.allocate(&(10 * USDC));
    f.adapter.deallocate(&(10 * USDC));
    assert_eq!(f.usdc.balance(&f.adapter_id), 0);
    f.adapter
        .set_counterparties(&f.admin, &other_engine, &other_vault);
    assert_eq!(f.adapter.engine(), other_engine);
    assert_eq!(f.adapter.vault(), other_vault);
}

#[test]
fn a_defaulted_position_can_be_written_off_without_returning_capital() {
    let f = credit_setup();
    f.usdc.faucet(&f.adapter_id, &(500 * USDC));
    f.adapter.allocate(&(500 * USDC));

    f.usdc.burn(&f.adapter_id, &(500 * USDC));
    assert!(f.adapter.try_deallocate(&(500 * USDC)).is_err());
    assert_eq!(f.adapter.get_exposure(), 500 * USDC);

    f.adapter.write_down(&(200 * USDC));
    assert_eq!(f.adapter.get_exposure(), 300 * USDC);
    assert_eq!(f.usdc.balance(&f.vault), 0);

    assert_eq!(
        f.adapter.try_write_down(&(301 * USDC)),
        Err(Fault::Error(private_credit::AdapterError::WriteDownExceedsExposure))
    );
    assert_eq!(
        f.adapter.try_write_down(&0),
        Err(Fault::Error(private_credit::AdapterError::InvalidAmount))
    );

    f.e.mock_auths(&[]);
    assert!(f.adapter.try_write_down(&(100 * USDC)).is_err());
    assert_eq!(f.adapter.get_exposure(), 300 * USDC);
}

#[test]
fn test_the_admin_role_moves_only_to_an_address_that_signs_for_it() {
    let f = credit_setup();
    let successor = account(&f.e);
    let mallory = account(&f.e);
    assert_eq!(f.adapter.pending_admin(), None);

    assert_eq!(
        f.adapter.try_propose_admin(&mallory, &mallory),
        Err(Fault::Error(private_credit::AdapterError::NotAdmin))
    );

    f.adapter.propose_admin(&f.admin, &successor);
    assert_eq!(f.adapter.pending_admin(), Some(successor.clone()));
    assert_eq!(f.adapter.admin(), f.admin);

    assert_eq!(
        f.adapter.try_accept_admin(&mallory),
        Err(Fault::Error(private_credit::AdapterError::NotPendingAdmin))
    );
    f.e.mock_auths(&[mallory]);
    assert!(f.adapter.try_accept_admin(&successor).is_err());
    assert_eq!(f.adapter.admin(), f.admin);

    f.e.mock_all_auths();
    f.adapter.accept_admin(&successor);
    assert_eq!(f.adapter.admin(), successor);
    assert_eq!(f.adapter.pending_admin(), None);
    assert_eq!(
        f.adapter.try_accept_admin(&successor),
        Err(Fault::Error(private_credit::AdapterError::NoPendingAdmin))
    );
}

#[test]
fn recover_surplus_sends_the_surplus_home_and_leaves_the_position_funded() {
    let f = credit_setup();
    f.usdc.faucet(&f.adapter_id, &(500 * USDC));
    f.adapter.allocate(&(500 * USDC));

    f.usdc.faucet(&f.adapter_id, &(40 * USDC));
    assert_eq!(f.usdc.balance(&f.adapter_id), 540 * USDC);

    let engine = f.adapter.engine();
    assert_eq!(f.adapter.recover_surplus(&engine), 40 * USDC);

    assert_eq!(f.usdc.balance(&f.vault), 40 * USDC);
    assert_eq!(f.usdc.balance(&f.adapter_id), 500 * USDC);
    assert_eq!(f.adapter.get_exposure(), 500 * USDC);

    f.adapter.deallocate(&(500 * USDC));
    assert_eq!(f.adapter.get_exposure(), 0);
    assert_eq!(f.usdc.balance(&f.vault), 540 * USDC);
    assert_eq!(f.usdc.balance(&f.adapter_id), 0);
}

#[test]
fn the_recovery_has_no_destination_for_the_admin_to_choose() {
    let f = credit_setup();
    f.adapter.allocate(&(200 * USDC));
    f.adapter.write_down(&(200 * USDC));
    f.usdc.faucet(&f.adapter_id, &(200 * USDC));
    assert_eq!(f.adapter.get_exposure(), 0);
    assert_eq!(f.usdc.balance(&f.admin), 0);

    assert_eq!(f.adapter.recover_surplus(&f.admin), 200 * USDC);

    assert_eq!(f.adapter.vault(), f.vault);
    assert_eq!(f.usdc.balance(&f.adapter.vault()), 200 * USDC);
    assert_eq!(
        f.usdc.balance(&f.admin),
        0,
        "the caller is not a destination this call has"
    );
    assert_eq!(f.usdc.balance(&f.adapter_id), 0);

    let new_vault = mock_vault(&f.e, &f.usdc.address);
    let new_engine = f.e.stub_engine(new_vault);
    f.adapter
        .set_counterparties(&f.admin, &new_engine, &new_vault);
    assert_eq!(f.adapter.vault(), new_vault);
}

#[test]
fn a_stranger_cannot_sweep_the_adapter_even_holding_a_valid_signature() {
    let f = credit_setup();
    f.usdc.faucet(&f.adapter_id, &(100 * USDC));
    let mallory = account(&f.e);

    f.e.mock_auths(&[mallory]);
    assert_eq!(
        f.adapter.try_recover_surplus(&mallory),
        Err(Fault::Error(private_credit::AdapterError::NotAuthorized))
    );
    assert_eq!(f.usdc.balance(&f.adapter_id), 100 * USDC);
    assert_eq!(f.usdc.balance(&f.vault), 0);
    assert_eq!(f.usdc.balance(&mallory), 0);
}

#[test]
fn both_the_engine_and_the_admin_can_bring_stranded_capital_home() {
    let f = credit_setup();
    let engine = f.adapter.engine();

    f.usdc.faucet(&f.adapter_id, &(30 * USDC));
    assert_eq!(f.adapter.recover_surplus(&engine), 30 * USDC);

    f.usdc.faucet(&f.adapter_id, &(20 * USDC));
    assert_eq!(f.adapter.recover_surplus(&f.admin), 20 * USDC);

    assert_eq!(f.usdc.balance(&f.vault), 50 * USDC);
    assert_eq!(f.usdc.balance(&f.adapter_id), 0);
}

#[test]
fn an_adapter_with_no_surplus_refuses_rather_than_sweeping_nothing() {
    let f = credit_setup();

    assert_eq!(
        f.adapter.try_recover_surplus(&f.admin),
        Err(Fault::Error(private_credit::AdapterError::NothingToRecover))
    );

    f.usdc.faucet(&f.adapter_id, &(500 * USDC));
    f.adapter.allocate(&(500 * USDC));
    assert_eq!(
        f.adapter.try_recover_surplus(&f.admin),
        Err(Fault::Error(private_credit::AdapterError::NothingToRecover))
    );
    assert_eq!(f.usdc.balance(&f.adapter_id), 500 * USDC);
    assert_eq!(f.adapter.get_exposure(), 500 * USDC);

    f.usdc.burn(&f.adapter_id, &(200 * USDC));
    assert_eq!(
        f.adapter.try_recover_surplus(&f.admin),
        Err(Fault::Error(private_credit::AdapterError::NothingToRecover))
    );
    assert_eq!(f.usdc.balance(&f.vault), 0);
}

#[test]
#[should_panic(expected = "#606")]
fn an_adapter_cannot_be_deployed_pointing_at_a_vault_its_engine_does_not_govern() {
    let f = credit_setup();
    let elsewhere = account(&f.e);
    let engine = f.e.stub_engine(elsewhere);

    f.e.register_credit(f.admin, engine, f.vault, f.usdc.address);
}

// ---- the Etherfuse adapter ----

struct BondFix {
    e: Env,
    usdc: MockUsdcClient,
    adapter: EtherfuseAdapterClient,
    adapter_id: Address,
    vault: Address,
    admin: Address,
}

fn bond_setup() -> BondFix {
    let e = Env::default();
    e.mock_all_auths();

    let admin = account(&e);
    let engine = account(&e);
    let vault = account(&e);

    let usdc_id = e.register_usdc();
    let usdc = MockUsdcClient::new(&e, &usdc_id);
    usdc.initialize(
        &admin,
        &7u32,
        &"USD Coin".to_string(),
        &"USDC".to_string(),
    );

    let adapter_id = e.deploy(Contract::Bond(EtherfuseAdapter::empty()));
    let adapter = EtherfuseAdapterClient::new(&e, &adapter_id);
    adapter.initialize(&admin, &engine, &vault, &usdc_id);

    BondFix {
        e,
        usdc,
        adapter,
        adapter_id,
        vault,
        admin,
    }
}

#[test]
fn test_allocate_books_exposure() {
    let f = bond_setup();
    assert_eq!(f.adapter.get_exposure(), 0);
    f.adapter.allocate(&(500 * USDC));
    assert_eq!(f.adapter.get_exposure(), 500 * USDC);
    f.adapter.allocate(&(250 * USDC));
    assert_eq!(f.adapter.get_exposure(), 750 * USDC);
}

#[test]
fn test_deallocate_returns_capital_and_reduces_exposure_together() {
    let f = bond_setup();
    f.usdc.faucet(&f.adapter_id, &(500 * USDC));
    f.adapter.allocate(&(500 * USDC));

    f.adapter.deallocate(&(200 * USDC));
    assert_eq!(f.adapter.get_exposure(), 300 * USDC);
    assert_eq!(f.usdc.balance(&f.vault), 200 * USDC);
    assert_eq!(f.usdc.balance(&f.adapter_id), 300 * USDC);
}

#[test]
fn test_deallocate_beyond_exposure_is_rejected() {
    let f = bond_setup();
    f.usdc.faucet(&f.adapter_id, &(500 * USDC));
    f.adapter.allocate(&(100 * USDC));

    assert_eq!(
        f.adapter.try_deallocate(&(200 * USDC)),
        Err(Fault::Error(etherfuse::AdapterError::ExposureUnderflow))
    );
    assert_eq!(f.adapter.get_exposure(), 100 * USDC);
    assert_eq!(f.usdc.balance(&f.vault), 0);
}

#[test]
fn test_non_positive_amounts_are_rejected() {
    let f = bond_setup();
    assert_eq!(
        f.adapter.try_allocate(&0),
        Err(Fault::Error(etherfuse::AdapterError::InvalidAmount))
    );
    assert_eq!(
        f.adapter.try_allocate(&(-100 * USDC)),
        Err(Fault::Error(etherfuse::AdapterError::InvalidAmount))
    );
    assert_eq!(
        f.adapter.try_deallocate(&0),
        Err(Fault::Error(etherfuse::AdapterError::InvalidAmount))
    );
}

#[test]
fn test_only_the_engine_can_move_capital() {
    let f = bond_setup();
    f.usdc.faucet(&f.adapter_id, &(500 * USDC));
    f.adapter.allocate(&(500 * USDC));

    f.e.mock_auths(&[]);
    assert!(f.adapter.try_allocate(&(100 * USDC)).is_err());
    assert!(f.adapter.try_deallocate(&(100 * USDC)).is_err());
    assert_eq!(f.adapter.get_exposure(), 500 * USDC);
}

#[test]
fn cannot_be_reinitialized() {
    let f = bond_setup();
    let attacker = account(&f.e);
    assert!(f
        .adapter
        .try_initialize(&attacker, &attacker, &attacker, &attacker)
        .is_err());
    assert_eq!(f.adapter.admin(), f.admin);
}

#[test]
fn test_metadata_matches_the_feed_the_pool_is_priced_from() {
    let f = bond_setup();
    assert_eq!(f.adapter.pool_kind(), sym("ETHERFUS"));
    assert_eq!(f.adapter.oracle_feed(), sym("EF_BOND"));
    assert_eq!(f.adapter.settlement_days(), 0);
}

#[test]
fn test_the_counterparties_move_only_together_and_only_while_the_adapter_is_empty() {
    let f = bond_setup();
    let stranger = account(&f.e);

    let new_vault = account(&f.e);
    let new_engine = f.e.stub_engine(new_vault);

    assert_eq!(
        f.adapter
            .try_set_counterparties(&stranger, &new_engine, &new_vault),
        Err(Fault::Error(etherfuse::AdapterError::NotAdmin))
    );

    assert_eq!(
        f.adapter
            .try_set_counterparties(&f.admin, &new_engine, &stranger),
        Err(Fault::Error(etherfuse::AdapterError::CounterpartyMismatch))
    );
    assert_eq!(
        f.adapter
            .try_set_counterparties(&f.admin, &stranger, &new_vault),
        Err(Fault::Error(etherfuse::AdapterError::CounterpartyMismatch))
    );

    f.adapter
        .set_counterparties(&f.admin, &new_engine, &new_vault);
    assert_eq!(f.adapter.engine(), new_engine);
    assert_eq!(f.adapter.vault(), new_vault);

    f.usdc.faucet(&f.adapter_id, &(500 * USDC));
    f.adapter.allocate(&(500 * USDC));
    let other_vault = account(&f.e);
    let other_engine = f.e.stub_engine(other_vault);
    assert_eq!(
        f.adapter
            .try_set_counterparties(&f.admin, &other_engine, &other_vault),
        Err(Fault::Error(etherfuse::AdapterError::NotEmpty))
    );

    f.adapter.deallocate(&(500 * USDC));
    assert_eq!(f.adapter.get_exposure(), 0);
    f.usdc.faucet(&f.adapter_id, &(10 * USDC));
    assert_eq!(
        f.adapter
            .try_set_counterparties(&f.admin, &other_engine, &other_vault),
        Err(Fault::Error(etherfuse::AdapterError::NotEmpty))
    );

    f.adapter.allocate(&(10 * USDC));
    f.adapter.deallocate(&(10 * USDC));
    assert_eq!(f.usdc.balance(&f.adapter_id), 0);
    f.adapter
        .set_counterparties(&f.admin, &other_engine, &other_vault);
    assert_eq!(f.adapter.engine(), other_engine);
    assert_eq!(f.adapter.vault(), other_vault);
}

#[test]
fn test_a_defaulted_position_can_be_written_off_without_returning_capital() {
    let f = bond_setup();
    f.usdc.faucet(&f.adapter_id, &(500 * USDC));
    f.adapter.allocate(&(500 * USDC));

    f.usdc.burn(&f.adapter_id, &(500 * USDC));
    assert!(f.adapter.try_deallocate(&(500 * USDC)).is_err());
    assert_eq!(f.adapter.get_exposure(), 500 * USDC);

    f.adapter.write_down(&(200 * USDC));
    assert_eq!(f.adapter.get_exposure(), 300 * USDC);
    assert_eq!(f.usdc.balance(&f.vault), 0);

    assert_eq!(
        f.adapter.try_write_down(&(301 * USDC)),
        Err(Fault::Error(etherfuse::AdapterError::WriteDownExceedsExposure))
    );
    assert_eq!(
        f.adapter.try_write_down(&0),
        Err(Fault::Error(etherfuse::AdapterError::InvalidAmount))
    );

    f.e.mock_auths(&[]);
    assert!(f.adapter.try_write_down(&(100 * USDC)).is_err());
    assert_eq!(f.adapter.get_exposure(), 300 * USDC);
}

#[test]
fn the_admin_role_moves_only_to_an_address_that_signs_for_it_on_the_bond_adapter() {
    let f = bond_setup();
    let successor = account(&f.e);
    let mallory = account(&f.e);
    assert_eq!(f.adapter.pending_admin(), None);

    assert_eq!(
        f.adapter.try_propose_admin(&mallory, &mallory),
        Err(Fault::Error(etherfuse::AdapterError::NotAdmin))
    );

    f.adapter.propose_admin(&f.admin, &successor);
    assert_eq!(f.adapter.pending_admin(), Some(successor.clone()));
    assert_eq!(f.adapter.admin(), f.admin);

    assert_eq!(
        f.adapter.try_accept_admin(&mallory),
        Err(Fault::Error(etherfuse::AdapterError::NotPendingAdmin))
    );
    f.e.mock_auths(&[mallory]);
    assert!(f.adapter.try_accept_admin(&successor).is_err());
    assert_eq!(f.adapter.admin(), f.admin);

    f.e.mock_all_auths();
    f.adapter.accept_admin(&successor);
    assert_eq!(f.adapter.admin(), successor);
    assert_eq!(f.adapter.pending_admin(), None);
    assert_eq!(
        f.adapter.try_accept_admin(&successor),
        Err(Fault::Error(etherfuse::AdapterError::NoPendingAdmin))
    );
}

// ---- staking ----

const COOLDOWN: u64 = 300;

struct StakingFix {
    e: Env,
    usdc: MockUsdcClient,
    ag: AgUsdClient,
    vault: StakingClient,
    admin: Address,
}

fn staking_setup() -> StakingFix {
    let e = Env::default();
    e.mock_all_auths();
    e.set_timestamp(1_000);
    let admin = account(&e);
    let treasury = account(&e);

    let usdc_id = e.register_usdc();
    let usdc = MockUsdcClient::new(&e, &usdc_id);
    usdc.initialize(
        &admin,
        &7u32,
        &"USD Coin".to_string(),
        &"USDC".to_string(),
    );

    let ag_id = e.register_agusd();
    let ag = AgUsdClient::new(&e, &ag_id);
    ag.initialize(
        &admin,
        &usdc_id,
        &treasury,
        &2000u32,
        &7u32,
        &"Agama USD".to_string(),
        &"agUSD".to_string(),
    );

    let v_id = e.register_staking(admin, ag_id, COOLDOWN, 7u32, "Staked agUSD".to_string(), "sagUSD".to_string());
    let vault = StakingClient::new(&e, &v_id);

    StakingFix { e, usdc, ag, vault, admin }
}

fn fund_agusd(f: &StakingFix, who: &Address, amount: i128) {
    f.usdc.faucet(who, &amount);
    f.ag.deposit(who, &amount);
}

#[test]
fn full_yield_flow() {
    let f = staking_setup();
    let alice = account(&f.e);
    fund_agusd(&f, &alice, 1_000_0000000);

    let shares = f.vault.stake(&alice, &1_000_0000000);
    assert_eq!(shares, 1_000_0000000);
    assert_eq!(f.vault.total_shares(), 1_000_0000000);
    assert_eq!(f.vault.exchange_rate(), ONE);
    assert_eq!(f.vault.nav(), 1_000_0000000);

    fund_agusd(&f, &f.admin, 100_0000000);
    f.vault.distribute_yield(&100_0000000);
    assert_eq!(f.vault.nav(), 1_100_0000000);
    assert_eq!(f.vault.exchange_rate(), 11_000_000);

    let bob = account(&f.e);
    fund_agusd(&f, &bob, 110_0000000);
    let bob_shares = f.vault.stake(&bob, &110_0000000);
    assert_eq!(bob_shares, 100_0000000);

    let assets = f.vault.request_unstake(&alice, &1_000_0000000);
    assert_eq!(assets, 1_100_0000000);
    let p = f.vault.pending(&alice);
    assert_eq!(p.assets, 1_100_0000000);
    assert_eq!(p.claimable_at, 1_000 + COOLDOWN);

    assert!(f.vault.try_claim(&alice).is_err());

    f.e.set_timestamp(1_000 + COOLDOWN + 1);
    let claimed = f.vault.claim(&alice);
    assert_eq!(claimed, 1_100_0000000);
    assert_eq!(f.ag.balance(&alice), 1_100_0000000);
    assert_eq!(f.vault.pending(&alice).assets, 0);
}

#[test]
fn the_agusd_pointer_moves_before_the_first_stake_and_never_after() {
    let f = staking_setup();
    assert_eq!(f.vault.stakes(), 0);

    let replacement_id = f.e.register_usdc();
    let replacement = MockUsdcClient::new(&f.e, &replacement_id);
    replacement.initialize(
        &f.admin,
        &7u32,
        &"Agama USD".to_string(),
        &"agUSD".to_string(),
    );
    let stranger = account(&f.e);
    assert_eq!(
        f.vault.try_set_agusd(&stranger, &replacement_id),
        Err(Fault::Error(StakingError::NotAdmin))
    );

    f.vault.set_agusd(&f.admin, &replacement_id);
    assert_eq!(f.vault.agusd(), replacement_id);

    let alice = account(&f.e);
    replacement.faucet(&alice, &(100 * ONE));
    assert_eq!(f.vault.stake(&alice, &(100 * ONE)), 100 * ONE);
    assert_eq!(replacement.balance(&f.vault.address), 100 * ONE);
    assert_eq!(f.vault.stakes(), 1);

    assert_eq!(
        f.vault.try_set_agusd(&f.admin, &f.ag.address),
        Err(Fault::Error(StakingError::CustodyTaken))
    );
    assert_eq!(f.vault.agusd(), replacement_id);

    let assets = f.vault.request_unstake(&alice, &(100 * ONE));
    assert_eq!(assets, 100 * ONE);
    assert_eq!(f.vault.total_shares(), 0);
    assert_eq!(
        f.vault.try_set_agusd(&f.admin, &f.ag.address),
        Err(Fault::Error(StakingError::CustodyTaken))
    );
}

#[test]
fn delivered_yield_closes_the_agusd_pointer_even_with_no_stakers() {
    let f = staking_setup();
    fund_agusd(&f, &f.admin, 1_000 * ONE);
    f.vault.distribute_yield(&(1_000 * ONE));
    assert_eq!(f.vault.stakes(), 0);
    assert_eq!(f.vault.total_shares(), 0);
    assert_eq!(f.vault.nav(), 1_000 * ONE);

    let replacement = f.e.register_usdc();
    MockUsdcClient::new(&f.e, &replacement).initialize(
        &f.admin,
        &7u32,
        &"Agama USD".to_string(),
        &"agUSD".to_string(),
    );
    assert_eq!(
        f.vault.try_set_agusd(&f.admin, &replacement),
        Err(Fault::Error(StakingError::CustodyTaken))
    );
    assert_eq!(f.vault.agusd(), f.ag.address);
}

#[test]
fn allocations_roundtrip() {
    let f = staking_setup();
    let allocs = vec![
        Allocation {
            name: "Kiro Core".to_string(),
            target_bps: 6000,
            apy_bps: 1200,
        },
        Allocation {
            name: "Kiro Edge".to_string(),
            target_bps: 4000,
            apy_bps: 1800,
        },
    ];
    f.vault.set_allocations(&allocs);
    let got = f.vault.allocations();
    assert_eq!(got.len(), 2);
    assert_eq!(got[0].target_bps, 6000);
}

#[test]
fn the_admin_cannot_reprice_shares_without_moving_the_agusd_behind_them() {
    let f = staking_setup();
    let alice = account(&f.e);
    fund_agusd(&f, &alice, 1_000 * ONE);
    let alice_shares = f.vault.stake(&alice, &(1_000 * ONE));

    assert_eq!(f.vault.nav(), f.ag.balance(&f.vault.address));

    fund_agusd(&f, &f.admin, 100 * ONE);
    f.vault.distribute_yield(&(100 * ONE));
    assert_eq!(f.vault.nav(), 1_100 * ONE);
    assert_eq!(f.vault.nav(), f.ag.balance(&f.vault.address));

    let mallory = account(&f.e);
    fund_agusd(&f, &mallory, 99);
    let mallory_shares = f.vault.stake(&mallory, &99);
    assert!(mallory_shares < 100);
    assert!(mallory_shares * 1_000 < alice_shares);

    let owed = f.vault.request_unstake(&mallory, &mallory_shares);
    assert!(owed <= 99);
    let alice_owed = f.vault.request_unstake(&alice, &alice_shares);
    assert!(alice_owed >= 1_099 * ONE);
}

#[test]
fn share_price_is_an_alias_of_exchange_rate() {
    let f = staking_setup();
    assert_eq!(f.vault.share_price(), f.vault.exchange_rate());
    assert_eq!(f.vault.share_price(), ONE);

    let alice = account(&f.e);
    fund_agusd(&f, &alice, 400 * ONE);
    f.vault.stake(&alice, &(400 * ONE));
    assert_eq!(f.vault.share_price(), f.vault.exchange_rate());
    assert_eq!(f.vault.share_price(), ONE);

    fund_agusd(&f, &f.admin, 100 * ONE);
    f.vault.distribute_yield(&(100 * ONE));
    assert_eq!(f.vault.share_price(), f.vault.exchange_rate());
    assert_eq!(f.vault.exchange_rate(), 12_500_000);
}

#[test]
fn distribute_yield_raises_the_rate_without_issuing_shares() {
    let f = staking_setup();
    let alice = account(&f.e);
    fund_agusd(&f, &alice, 200 * ONE);
    f.vault.stake(&alice, &(200 * ONE));

    let shares_before = f.vault.total_shares();
    let alice_before = f.vault.balance(&alice);
    let rate_before = f.vault.exchange_rate();

    fund_agusd(&f, &f.admin, 20 * ONE);
    f.vault.distribute_yield(&(20 * ONE));

    assert_eq!(f.vault.total_shares(), shares_before);
    assert_eq!(f.vault.balance(&alice), alice_before);
    assert_eq!(f.vault.exchange_rate(), 11_000_000);
    assert!(f.vault.exchange_rate() > rate_before);
    assert_eq!(f.ag.balance(&f.vault.address), 220 * ONE);
    assert_eq!(f.vault.nav(), 220 * ONE);
}

#[test]
fn the_admin_role_moves_only_to_an_address_that_signs_for_it_in_staking() {
    let f = staking_setup();
    let successor = account(&f.e);
    let mallory = account(&f.e);
    assert_eq!(f.vault.pending_admin(), None);

    assert_eq!(
        f.vault.try_propose_admin(&mallory, &mallory),
        Err(Fault::Error(StakingError::NotAdmin))
    );

    f.vault.propose_admin(&f.admin, &successor);
    assert_eq!(f.vault.pending_admin(), Some(successor.clone()));
    assert_eq!(f.vault.admin(), f.admin);

    assert_eq!(
        f.vault.try_accept_admin(&mallory),
        Err(Fault::Error(StakingError::NotPendingAdmin))
    );
    f.e.mock_auths(&[mallory]);
    assert!(f.vault.try_accept_admin(&successor).is_err());
    assert_eq!(f.vault.admin(), f.admin);

    f.e.mock_all_auths();
    f.vault.accept_admin(&successor);
    assert_eq!(f.vault.admin(), successor);
    assert_eq!(f.vault.pending_admin(), None);
    assert_eq!(
        f.vault.try_accept_admin(&successor),
        Err(Fault::Error(StakingError::NoPendingAdmin))
    );
}

#[test]
fn every_refusal_returns_a_code_rather_than_trapping() {
    let f = staking_setup();
    let alice = account(&f.e);
    fund_agusd(&f, &alice, 1_000_0000000);

    assert_eq!(
        f.vault.try_stake(&alice, &0),
        Err(Fault::Error(StakingError::InvalidAmount))
    );
    assert_eq!(
        f.vault.try_stake(&alice, &(-1)),
        Err(Fault::Error(StakingError::InvalidAmount))
    );
    assert_eq!(
        f.vault.try_request_unstake(&alice, &0),
        Err(Fault::Error(StakingError::InvalidAmount))
    );
    assert_eq!(
        f.vault.try_request_unstake(&alice, &1),
        Err(Fault::Error(StakingError::NoSupply))
    );
    assert_eq!(
        f.vault.try_claim(&alice),
        Err(Fault::Error(StakingError::NothingPending))
    );
    assert_eq!(
        f.vault.try_distribute_yield(&0),
        Err(Fault::Error(StakingError::InvalidAmount))
    );

    f.vault.stake(&alice, &100_0000000);
    f.vault.request_unstake(&alice, &50_0000000);
    assert_eq!(
        f.vault.try_claim(&alice),
        Err(Fault::Error(StakingError::StillInCooldown))
    );
    f.e.set_timestamp(1_000 + COOLDOWN + 1);
    f.vault.claim(&alice);
}

#[test]
fn what_this_contract_holds_is_always_navsized_plus_what_it_owes() {
    let f = staking_setup();
    let alice = account(&f.e);
    let bob = account(&f.e);
    fund_agusd(&f, &alice, 1_000_0000000);
    fund_agusd(&f, &bob, 1_000_0000000);
    fund_agusd(&f, &f.admin, 500_0000000);

    let held = |f: &StakingFix| f.ag.balance(&f.vault.address);
    let owed = |f: &StakingFix, who: &Address| f.vault.pending(who).assets;
    let check = |f: &StakingFix, note: &str| {
        assert_eq!(
            held(f),
            f.vault.nav() + owed(f, &alice) + owed(f, &bob),
            "{}",
            note
        );
    };

    check(&f, "empty");
    f.vault.stake(&alice, &400_0000000);
    check(&f, "one staker");
    f.vault.stake(&bob, &600_0000000);
    check(&f, "two stakers");

    f.vault.distribute_yield(&100_0000000);
    check(&f, "after yield");

    f.vault.request_unstake(&alice, &200_0000000);
    check(&f, "one unstake pending");
    assert!(owed(&f, &alice) > 0, "the request recorded nothing");

    let alice_owed = owed(&f, &alice);
    f.vault.distribute_yield(&50_0000000);
    assert_eq!(owed(&f, &alice), alice_owed, "a departed staker took yield");
    check(&f, "yield while a claim is pending");

    f.e.set_timestamp(1_000 + COOLDOWN + 1);
    f.vault.claim(&alice);
    check(&f, "after the claim is paid");

    let rate_before = f.vault.exchange_rate();
    f.ag.transfer(&bob, &f.vault.address, &10_0000000);
    assert_eq!(
        f.vault.exchange_rate(),
        rate_before,
        "a direct transfer moved the share price"
    );
    assert_eq!(
        held(&f),
        f.vault.nav() + owed(&f, &alice) + owed(&f, &bob) + 10_0000000,
        "the donation is the whole of the difference"
    );
}

#[test]
fn a_pending_unstake_is_written_with_a_horizon_and_can_be_pushed_out() {
    let f = staking_setup();
    let alice = account(&f.e);
    fund_agusd(&f, &alice, 1_000_0000000);
    f.vault.stake(&alice, &500_0000000);
    f.vault.request_unstake(&alice, &200_0000000);
    let v = f.vault.address.clone();
    let ttl = |f: &StakingFix| f.e.ttl(&v, Rent::Pending { of: alice });

    assert_eq!(
        ttl(&f),
        PENDING_BUMP,
        "the record has to be written with a horizon, not with whatever set gives it"
    );

    f.e.advance_sequence(200_000);
    let waiting = ttl(&f);
    assert_eq!(waiting, PENDING_BUMP - 200_000);

    f.vault.bump_pending(&alice);
    assert_eq!(ttl(&f), PENDING_BUMP);

    let bob = account(&f.e);
    assert_eq!(
        f.vault.try_bump_pending(&bob),
        Err(Fault::Error(StakingError::NothingPending))
    );
    assert_eq!(f.vault.pending(&alice).assets, 200_0000000);

    f.e.advance_sequence(100_000);
    f.vault.request_unstake(&alice, &100_0000000);
    assert_eq!(ttl(&f), PENDING_BUMP);

    f.e.set_timestamp(1_000 + COOLDOWN + 1);
    f.vault.claim(&alice);
    assert_eq!(
        f.vault.try_bump_pending(&alice),
        Err(Fault::Error(StakingError::NothingPending))
    );
}

#[test]
fn the_share_price_at_every_step_is_reconstructible_from_events() {
    let f = staking_setup();
    let alice = account(&f.e);
    fund_agusd(&f, &alice, 1_000_0000000);
    fund_agusd(&f, &f.admin, 500_0000000);

    let price_from_events = |f: &StakingFix| -> Option<i128> {
        let mut latest: Option<(i128, i128)> = None;
        for event in f.e.events() {
            match event {
                Event::Staked(x) => latest = Some((x.nav, x.supply)),
                Event::UnstakeRequested(x) => latest = Some((x.nav, x.supply)),
                Event::YieldDistributed(x) => latest = Some((x.nav, x.supply)),
                _ => {}
            }
        }
        latest.map(|(nav, supply)| if supply == 0 { 10_000_000 } else { nav * 10_000_000 / supply })
    };

    f.vault.stake(&alice, &400_0000000);
    assert_eq!(price_from_events(&f), Some(f.vault.exchange_rate()));

    f.vault.distribute_yield(&100_0000000);
    assert_eq!(price_from_events(&f), Some(f.vault.exchange_rate()));

    f.vault.request_unstake(&alice, &100_0000000);
    assert_eq!(price_from_events(&f), Some(f.vault.exchange_rate()));

    f.e.set_timestamp(1_000 + COOLDOWN + 1);
    let paid = f.vault.claim(&alice);
    let claimed: Option<i128> = f.e.events().iter().rev().find_map(|event| match event {
        Event::UnstakeClaimed(x) => Some(x.assets),
        _ => None,
    });
    assert_eq!(claimed, Some(paid), "the payout is not in the event stream");
}

// ---- the buffered agUSD ----

const BUF: u32 = 2000;
const SHORT_COOLDOWN: u64 = 10;

struct AgUsdFix {
    e: Env,
    usdc: MockUsdcClient,
    ag: AgUsdClient,
    v1: StakingClient,
    v2: StakingClient,
    treasury: Address,
}

fn agusd_setup() -> AgUsdFix {
    let e = Env::default();
    e.mock_all_auths();
    e.set_timestamp(1_000);
    let admin = account(&e);
    let treasury = account(&e);
    let usdc_id = e.register_usdc();
    let usdc = MockUsdcClient::new(&e, &usdc_id);
    usdc.initialize(&admin, &7u32, &"USD Coin".to_string(), &"USDC".to_string());

    let ag_id = e.register_agusd();
    let ag = AgUsdClient::new(&e, &ag_id);
    ag.initialize(
        &admin,
        &usdc_id,
        &treasury,
        &BUF,
        &7u32,
        &"Agama USD".to_string(),
        &"agUSD".to_string(),
    );
    let v1_id =
        e.register_staking(admin, usdc_id, SHORT_COOLDOWN, 7, "Vault One".to_string(), "V1".to_string());
    let v2_id =
        e.register_staking(admin, usdc_id, SHORT_COOLDOWN, 7, "Vault Two".to_string(), "V2".to_string());
    ag.set_targets(&vec![
        Target { vault: v1_id, weight_bps: 6000 },
        Target { vault: v2_id, weight_bps: 4000 },
    ]);
    let (v1, v2) = (StakingClient::new(&e, &v1_id), StakingClient::new(&e, &v2_id));
    AgUsdFix { e, usdc, ag, v1, v2, treasury }
}

#[test]
fn deposit_auto_allocates_above_buffer() {
    let f = agusd_setup();
    let user = account(&f.e);
    f.usdc.faucet(&user, &100_0000000);

    f.ag.deposit(&user, &100_0000000);
    assert_eq!(f.ag.balance(&user), 100_0000000);

    assert_eq!(f.ag.reserve(), 20_0000000);
    assert_eq!(f.ag.deployed(), 80_0000000);
    let me = &f.ag.address;
    assert_eq!(f.v1.balance(me), 48_0000000);
    assert_eq!(f.v2.balance(me), 32_0000000);
}

#[test]
fn redeem_within_buffer_then_refill() {
    let f = agusd_setup();
    let user = account(&f.e);
    f.usdc.faucet(&user, &100_0000000);
    f.ag.deposit(&user, &100_0000000);
    assert_eq!(f.ag.reserve(), 20_0000000);

    f.ag.redeem(&user, &15_0000000);
    assert_eq!(f.usdc.balance(&user), 15_0000000);
    assert_eq!(f.ag.balance(&user), 85_0000000);
    assert_eq!(f.ag.reserve(), 5_0000000);

    f.e.set_timestamp(1_000 + SHORT_COOLDOWN + 1);
    f.ag.rebalance();
    assert!(f.ag.reserve() >= 16_0000000, "reserve={}", f.ag.reserve());
}

#[test]
fn redeem_beyond_buffer_fails_with_clear_error() {
    let f = agusd_setup();
    let user = account(&f.e);
    f.usdc.faucet(&user, &100_0000000);
    f.ag.deposit(&user, &100_0000000);

    let r = f.ag.try_redeem(&user, &50_0000000);
    assert!(r.is_err());
}

#[test]
fn sweep_still_works_for_offchain_leg() {
    let f = agusd_setup();
    let user = account(&f.e);
    f.usdc.faucet(&user, &10_0000000);
    f.ag.deposit(&user, &10_0000000);
    let r0 = f.ag.reserve();
    let take = r0 / 2;
    f.ag.sweep(&take);
    assert_eq!(f.ag.reserve(), r0 - take);
    assert_eq!(f.usdc.balance(&f.treasury), take);
}

// ---- the whole protocol over many interleavings ----

const NUM_USERS: usize = 4;

/// A small linear congruential generator, so that every run is the same run.
struct Dice(u64);

impl Dice {
    fn roll(&mut self, sides: u64) -> u64 {
        self.0 = self.0.wrapping_mul(6_364_136_223_846_793_005).wrapping_add(1_442_695_040_888_963_407);
        (self.0 >> 33) % sides
    }

    /// The amounts around the limits, and ordinary ones.
    fn amount(&mut self) -> i128 {
        match self.roll(20) {
            0 | 1 => 0,
            2 | 3 => -1,
            4 | 5 => MIN_WITHDRAWAL - 1,
            6 | 7 => MIN_WITHDRAWAL,
            8 | 9 => MIN_WITHDRAWAL + 1,
            _ => 1 + self.roll(5_000 * USDC as u64) as i128,
        }
    }
}

struct StackFix {
    e: Env,
    vault: VaultClient,
    usdc: MockUsdcClient,
    agusd: MockUsdcClient,
    engine: AllocationEngineClient,
    pc_pool: PrivateCreditAdapterClient,
    ef_pool: EtherfuseAdapterClient,
    users: Vec<Address>,
    admin: Address,
}

/// The vault, the engine, and a pool of each make, with real limits.
fn stack_setup() -> StackFix {
    let e = Env::default();
    e.mock_all_auths();
    let admin = account(&e);
    let users: Vec<Address> = (0..NUM_USERS).map(|_| account(&e)).collect();
    let usdc_id = e.register_usdc();
    let usdc = MockUsdcClient::new(&e, &usdc_id);
    usdc.initialize(&admin, &7u32, &"USD Coin".to_string(), &"USDC".to_string());
    let vault_id = e.register_vault(admin, usdc_id);
    let vault = VaultClient::new(&e, &vault_id);
    let agusd = minted_by(&e, &vault_id);
    let engine_id = e.register_engine(admin, vault_id);
    let engine = AllocationEngineClient::new(&e, &engine_id);
    vault.set_agusd(&admin, &agusd.address);
    vault.set_engine(&admin, &engine_id);
    vault.set_reserve_floor(&admin, &1_000u32);
    let pc = e.register_credit(admin, engine_id, vault_id, usdc_id);
    engine.register_pool(&admin, &pc, &sym("PCORIG"), &sym("US"), &5_000u32);
    let ef = e.register_bond(admin, engine_id, vault_id, usdc_id);
    engine.register_pool(&admin, &ef, &sym("EFORIG"), &sym("US"), &5_000u32);
    engine.set_caps(&admin, &5_000, &6_000, &8_000);
    engine.set_reserve_floor(&admin, &1_000u32);
    let pc_pool = PrivateCreditAdapterClient::new(&e, &pc);
    let ef_pool = EtherfuseAdapterClient::new(&e, &ef);
    StackFix { e, vault, usdc, agusd, engine, pc_pool, ef_pool, users, admin }
}

/// What has to hold after every step.
fn check_books(f: &StackFix, deposited: i128, requested: i128, claims: u64) {
    assert_eq!(f.agusd.total_supply(), deposited - requested);
    let exposures = f.pc_pool.get_exposure() + f.ef_pool.get_exposure();
    assert_eq!(f.vault.get_total_assets(), f.vault.idle_reserves() + exposures);
    assert_eq!(f.engine.total_allocated(), exposures);
    assert_eq!(f.vault.deployed_capital(), exposures);
    assert_eq!(f.vault.recognised_losses(), f.engine.written_off());

    let owed = f.vault.outstanding_liabilities();
    assert_eq!(f.vault.free_reserves(), (f.vault.idle_reserves() - owed).max(0));

    let mut unclaimed = 0;
    let mut earlier_all_claimed = true;
    for id in 1..=claims {
        let claim = f.vault.get_claim(&id);
        if claim.claimed {
            assert!(earlier_all_claimed, "claim {} was paid out of order", id);
        } else {
            earlier_all_claimed = false;
            unclaimed += claim.amount;
        }
    }
    assert_eq!(owed, unclaimed);

    assert!(f.usdc.balance(&f.pc_pool.address) >= f.pc_pool.get_exposure());
    assert!(f.usdc.balance(&f.ef_pool.address) >= f.ef_pool.get_exposure());
    assert!(f.vault.booked_reserves() <= f.vault.idle_reserves());
    assert!(
        f.agusd.total_supply() + owed
            <= f.vault.booked_reserves() + f.vault.deployed_capital() + f.vault.recognised_losses()
    );
}

#[test]
fn vault_engine_accounting_invariants_hold() {
    for seed in 0..24 {
        let mut dice = Dice(seed);
        let f = stack_setup();
        let (mut deposited, mut requested, mut claims) = (0i128, 0i128, 0u64);
        check_books(&f, deposited, requested, claims);
        for _ in 0..30 {
            let base = f.vault.floor_base();
            let pool =
                if dice.roll(2) == 0 { f.pc_pool.address } else { f.ef_pool.address };
            let who = f.users[dice.roll(NUM_USERS as u64) as usize];
            let amount = dice.amount();
            match dice.roll(31) {
                0..=3 => {
                    if amount > 0 {
                        f.usdc.faucet(&who, &amount);
                    }
                    if let Ok(minted) = f.vault.try_deposit(&who, &amount) {
                        deposited += minted;
                    }
                }
                4..=7 => {
                    if f.vault.try_request_withdrawal(&who, &amount).is_ok() {
                        requested += amount;
                        claims += 1;
                    }
                }
                8..=11 => {
                    let id = 1 + dice.roll(40);
                    if let Ok(claim) = f.vault.try_get_claim(&id) {
                        if !claim.claimed {
                            let _ = f.vault.try_claim_withdrawal(&claim.owner, &id);
                        }
                    }
                    assert_eq!(f.vault.floor_base(), base);
                }
                12..=15 => {
                    let _ = f.vault.try_settle_withdrawal();
                    assert_eq!(f.vault.floor_base(), base);
                }
                16..=19 => {
                    if f.engine.try_allocate(&f.admin, &pool, &amount).is_ok() {
                        let floor = f.vault.reserve_floor_bps() as i128;
                        assert!(f.vault.free_reserves() * 10_000 >= floor * f.vault.floor_base());
                    }
                    assert_eq!(f.vault.floor_base(), base);
                }
                20..=22 => {
                    let _ = f.engine.try_deallocate(&pool, &amount);
                    assert_eq!(f.vault.floor_base(), base);
                }
                23 | 24 => {
                    let _ = f.engine.try_write_down(&f.admin, &pool, &amount, &sym("LOSS"));
                    assert_eq!(f.vault.floor_base(), base);
                }
                25 | 26 => {
                    let _ = f.engine.try_recover(&f.admin, &pool);
                    assert!(f.vault.floor_base() >= base);
                }
                27 | 28 => {
                    if amount > 0 {
                        f.usdc.faucet(&who, &amount);
                        f.usdc.transfer(&who, &f.vault.address, &amount);
                    }
                }
                29 => {
                    let _ = f.engine.try_book_recovery(&f.admin, &pool, &amount);
                }
                _ => {
                    f.vault.set_paused(&f.admin, &(dice.roll(2) == 0));
                    assert_eq!(f.vault.floor_base(), base);
                }
            }
            check_books(&f, deposited, requested, claims);
        }
    }
}

#[test]
fn there_is_no_way_to_book_a_recovery_against_cash_already_in_the_vault() {
    let f = stack_setup();
    let donor = account(&f.e);
    f.usdc.faucet(&donor, &(1_000 * USDC));
    f.usdc.transfer(&donor, &f.vault.address, &(1_000 * USDC));

    let base = f.vault.floor_base();
    assert_eq!(base, 1_000 * USDC);

    f.engine.allocate(&f.admin, &f.ef_pool.address, &(500 * USDC));
    f.engine.write_down(&f.admin, &f.ef_pool.address, &(500 * USDC), &sym("LOSS"));
    assert_eq!(f.vault.floor_base(), base);

    assert_eq!(f.vault.recognised_losses(), 500 * USDC);
    assert_eq!(f.vault.floor_base(), base);
}

#[test]
fn a_repayment_into_an_uncovered_queue_leaves_the_base() {
    // 500 owed against 100 idle: what comes back goes to the queue first, and
    // the base is the same for it.
    let f = vault_setup();
    let alice = depositor(&f, 1_000 * USDC);
    f.engine.allocate(&f.admin, &f.pool, &(900 * USDC));
    f.vault.request_withdrawal(&alice, &(500 * USDC));
    assert_eq!(f.vault.free_reserves(), 0);
    assert_eq!(f.vault.floor_base(), 500 * USDC);
    f.engine.deallocate(&f.pool, &(100 * USDC));
    assert_eq!(f.vault.free_reserves(), 0);
    assert_eq!(f.vault.floor_base(), 500 * USDC);
}

#[test]
fn a_recovery_into_an_uncovered_queue_never_lowers_the_base() {
    // The 900 is written off and comes home in full, with 500 owed against 100
    // idle.
    let f = vault_setup();
    let alice = depositor(&f, 1_000 * USDC);
    f.engine.allocate(&f.admin, &f.pool, &(900 * USDC));
    f.vault.request_withdrawal(&alice, &(500 * USDC));
    f.engine.write_down(&f.admin, &f.pool, &(900 * USDC), &sym("LOSS"));
    assert_eq!(f.vault.floor_base(), 500 * USDC);
    f.engine.recover(&f.admin, &f.pool);
    assert_eq!(f.vault.recognised_losses(), 0);
    assert_eq!(f.vault.floor_base(), 500 * USDC);
    assert_eq!(f.vault.free_reserves(), 500 * USDC);
}

#[test]
fn staking_accounting_invariants_hold() {
    for seed in 0..64 {
        let mut dice = Dice(seed);
        let e = Env::default();
        e.mock_all_auths();
        let mut now = 1_000_000;
        e.set_timestamp(now);
        let admin = account(&e);
        let users: Vec<Address> = (0..NUM_USERS).map(|_| account(&e)).collect();
        let agusd = minted_by(&e, &admin);
        let id = e.register_staking(
            admin,
            agusd.address,
            COOLDOWN,
            7,
            "Staked agUSD".to_string(),
            "sagUSD".to_string(),
        );
        let staking = StakingClient::new(&e, &id);
        let mut prev: Option<i128> = None;
        for _ in 0..40 {
            let who = users[dice.roll(NUM_USERS as u64) as usize];
            let amount = match dice.roll(16) {
                0 | 1 => 0,
                2 | 3 => -1,
                4 | 5 => 1,
                _ => 1 + dice.roll(5_000 * USDC as u64) as i128,
            };
            match dice.roll(20) {
                0..=4 => {
                    if amount > 0 {
                        agusd.faucet(&who, &amount);
                    }
                    let _ = staking.try_stake(&who, &amount);
                }
                5..=9 => {
                    let _ = staking.try_request_unstake(&who, &amount);
                }
                10..=13 => {
                    let _ = staking.try_claim(&who);
                }
                14..=16 => {
                    if amount > 0 {
                        agusd.faucet(&admin, &amount);
                    }
                    let _ = staking.try_distribute_yield(&amount);
                }
                _ => {
                    now += dice.roll(3 * COOLDOWN + 1);
                    e.set_timestamp(now);
                }
            }
            let pending: i128 = users.iter().map(|u| staking.pending(u).assets).sum();
            assert_eq!(agusd.balance(&id), staking.nav() + pending);
            if staking.total_shares() == 0 {
                prev = None;
            } else {
                let price = staking.exchange_rate();
                if let Some(p) = prev {
                    assert!(price >= p, "the share price fell from {} to {}", p, price);
                }
                prev = Some(price);
            }
        }
    }
}

// ---- claims that the token refuses ----

/// A vault whose USDC can be told to refuse an address, and two depositors.
fn freezing_setup() -> (VaultFix, VaultClient, Address, Address, Address) {
    let f = vault_setup();
    let alice = account(&f.e);
    let bob = account(&f.e);
    let mut inner = MockUsdc::empty();
    inner.initialize(f.admin, 7, "USD Coin".to_string(), "USDC".to_string());
    inner.faucet(alice, 1_000 * USDC).unwrap();
    inner.faucet(bob, 1_000 * USDC).unwrap();
    let usdc = f.e.deploy(Contract::Freezing(Freezing { inner, frozen: None }));
    let vault_id = f.e.register_vault(f.admin, usdc);
    let vault = VaultClient::new(&f.e, &vault_id);
    vault.set_agusd(&f.admin, &minted_by(&f.e, &vault_id).address);
    vault.deposit(&alice, &(1_000 * USDC));
    vault.deposit(&bob, &(1_000 * USDC));
    (f, vault, usdc, alice, bob)
}

fn freeze(e: &Env, usdc: Address, who: Option<Address>) {
    let mut l = e.0.borrow_mut();
    let mut c = match l.at(usdc) {
        Some(Contract::Freezing(c)) => c.clone(),
        _ => panic!("not a freezing token"),
    };
    c.frozen = who;
    l.put(usdc, Contract::Freezing(c));
}

#[test]
fn a_claim_the_token_refuses_is_stepped_over_and_still_owed() {
    let (f, vault, usdc, alice, bob) = freezing_setup();
    let a = vault.request_withdrawal(&alice, &(100 * USDC));
    let b = vault.request_withdrawal(&bob, &(200 * USDC));
    freeze(&f.e, usdc, Some(alice));

    assert_eq!(
        vault.try_claim_withdrawal(&alice, &a),
        Err(Fault::Error(VaultError::PaymentRejected))
    );
    assert_eq!(vault.settle_withdrawal(), a);
    assert!(vault.is_deferred(&a));
    assert!(matches!(f.e.events()[..], [Event::WithdrawalDeferred(x)] if x.claim_id == a && x.user == alice));
    assert_eq!(vault.queue_head(), b);
    assert_eq!(vault.outstanding_liabilities(), 300 * USDC);
    assert_eq!(vault.claim_status(&a), ClaimStatus::Ready);

    assert_eq!(vault.settle_withdrawal(), b);
    assert_eq!(f.e.0.borrow().balance(usdc, bob), Ok(200 * USDC));
    assert_eq!(vault.outstanding_liabilities(), 100 * USDC);
    assert_eq!(vault.try_settle_withdrawal(), Err(Fault::Error(VaultError::QueueEmpty)));

    freeze(&f.e, usdc, None);
    vault.claim_withdrawal(&alice, &a);
    assert!(!vault.is_deferred(&a));
    assert_eq!(vault.claim_status(&a), ClaimStatus::Claimed);
    assert_eq!(vault.queue_head(), 3);
    assert_eq!(vault.outstanding_liabilities(), 0);
    assert_eq!(f.e.0.borrow().balance(usdc, alice), Ok(100 * USDC));
    assert_eq!(
        vault.try_claim_withdrawal(&alice, &a),
        Err(Fault::Error(VaultError::AlreadyClaimed))
    );
}

// ---- refusals of the vault ----

fn alone(contract: Address, signers: &[Address]) -> Invocation {
    Invocation { contract, signers: signers.to_vec(), timestamp: T0, sequence: 7 }
}

#[test]
fn a_vault_takes_no_usdc_that_is_not_a_token() {
    let admin = Address::account(0, 1);
    let nobody = Address::account(0, 2);
    let inv = alone(Address::contract(0, 3), &[admin]);
    let mut v = Vault::empty();
    assert!(matches!(
        v.__constructor(&inv, admin, nobody, Err(InvokeError::Abort)),
        Err(Fault::Error(VaultError::InvalidUsdc))
    ));
    assert_eq!(v.usdc(), Err(VaultError::NotInitialized));
    assert!(matches!(
        v.__constructor(&alone(inv.contract, &[]), admin, nobody, Ok(0)),
        Err(Fault::Trap(Trap::Unauthorized))
    ));
    assert!(v.__constructor(&inv, admin, nobody, Ok(0)).is_ok());
    assert_eq!(v.usdc(), Ok(nobody));
    assert_eq!(v.reserve_floor_bps(), 10_000);
}

#[test]
fn the_vault_takes_only_an_agusd_it_mints_and_an_oracle_that_knows_the_feed() {
    let f = vault_setup();
    let foreign = minted_by(&f.e, &f.admin);
    assert_eq!(
        f.vault.try_set_agusd(&f.admin, &foreign.address),
        Err(Fault::Error(VaultError::AgUsdMismatch))
    );
    let coarse = f.e.register_usdc();
    MockUsdcClient::new(&f.e, &coarse).initialize(
        &f.vault.address,
        &6u32,
        &"Agama USD".to_string(),
        &"agUSD".to_string(),
    );
    assert_eq!(
        f.vault.try_set_agusd(&f.admin, &coarse),
        Err(Fault::Error(VaultError::DecimalMismatch))
    );
    assert_eq!(
        f.vault.try_set_oracle(&f.admin, &f.oracle.address, &sym("NOPE")),
        Err(Fault::Error(VaultError::OracleMismatch))
    );
    assert_eq!(f.vault.agusd(), f.agusd.address);
}

#[test]
fn the_vault_refuses_a_floor_above_the_whole() {
    let f = vault_setup();
    assert_eq!(
        f.vault.try_set_reserve_floor(&f.admin, &10_001u32),
        Err(Fault::Error(VaultError::InvalidFloor))
    );
    f.vault.set_reserve_floor(&f.admin, &10_000u32);
    assert_eq!(f.vault.reserve_floor_bps(), 10_000);
}

#[test]
fn the_vault_believes_no_book_entry_it_cannot_see() {
    let f = vault_setup();
    depositor(&f, 1_000 * USDC);
    f.engine.allocate(&f.admin, &f.pool, &(400 * USDC));
    assert_eq!(
        f.vault.try_record_repayment(&(1 * USDC)),
        Err(Fault::Error(VaultError::RepaymentNotReceived))
    );
    assert_eq!(
        f.vault.try_record_repayment(&(401 * USDC)),
        Err(Fault::Error(VaultError::DeployedUnderflow))
    );
    assert_eq!(
        f.vault.try_record_writedown(&f.admin, &(401 * USDC)),
        Err(Fault::Error(VaultError::DeployedUnderflow))
    );
    assert_eq!(
        f.vault.try_record_recovery(&f.admin, &(1 * USDC)),
        Err(Fault::Error(VaultError::RecoveryNotReceived))
    );
    assert_eq!(
        f.vault.try_record_recovery(&f.admin, &0),
        Err(Fault::Error(VaultError::InvalidAmount))
    );
}

#[test]
fn a_write_down_does_not_reopen_the_vaults_reserve_floor() {
    let f = vault_setup();
    depositor(&f, 1_000 * USDC);
    f.vault.set_reserve_floor(&f.admin, &2_500u32);
    f.engine.allocate(&f.admin, &f.pool, &(750 * USDC));
    f.engine.write_down(&f.admin, &f.pool, &(750 * USDC), &sym("DEFAULT"));
    assert_eq!(f.vault.deployed_capital(), 0);
    assert_eq!(f.vault.recognised_losses(), 750 * USDC);
    assert_eq!(f.vault.floor_base(), 1_000 * USDC);
    assert_eq!(
        f.vault.try_settle_allocation(&f.pool, &1),
        Err(Fault::Error(VaultError::ReserveFloorBreached))
    );
}

#[test]
fn two_releases_are_granted_where_one_of_both_would_be() {
    for (first, second, granted) in [(300, 450, true), (300, 451, false), (749, 1, true), (749, 2, false)] {
        let f = vault_setup();
        depositor(&f, 1_000 * USDC);
        f.vault.set_reserve_floor(&f.admin, &2_500u32);
        let g = vault_setup();
        depositor(&g, 1_000 * USDC);
        g.vault.set_reserve_floor(&g.admin, &2_500u32);

        f.vault.settle_allocation(&f.pool, &(first * USDC));
        assert_eq!(f.vault.try_settle_allocation(&f.pool, &(second * USDC)).is_ok(), granted);
        assert_eq!(
            g.vault.try_settle_allocation(&g.pool, &((first + second) * USDC)).is_ok(),
            granted
        );
    }
}

#[test]
fn the_vaults_admin_role_takes_both_signatures() {
    let f = vault_setup();
    let successor = account(&f.e);
    assert_eq!(
        f.vault.try_accept_admin(&successor),
        Err(Fault::Error(VaultError::NoPendingAdmin))
    );
    assert_eq!(
        f.vault.try_propose_admin(&successor, &successor),
        Err(Fault::Error(VaultError::NotAdmin))
    );
    f.vault.propose_admin(&f.admin, &successor);
    assert_eq!(
        f.vault.try_accept_admin(&f.admin),
        Err(Fault::Error(VaultError::NotPendingAdmin))
    );
    f.e.mock_auths(&[f.admin]);
    assert_eq!(f.vault.try_accept_admin(&successor), Err(Fault::Trap(Trap::Unauthorized)));
    f.e.mock_auths(&[successor]);
    f.vault.accept_admin(&successor);
    assert_eq!(f.vault.admin(), successor);
    assert_eq!(f.vault.pending_admin(), None);
}

#[test]
fn a_deposit_asks_for_the_pull_and_then_the_mint() {
    let admin = Address::account(0, 1);
    let alice = Address::account(0, 2);
    let me = Address::contract(0, 3);
    let usdc = Address::contract(0, 4);
    let agusd = Address::contract(0, 5);
    let inv = alone(me, &[admin, alice]);
    let mut v = Vault::empty();
    assert!(matches!(
        v.deposit(&inv, alice, 5),
        Err(Fault::Error(VaultError::NotInitialized))
    ));
    v.__constructor(&inv, admin, usdc, Ok(0)).unwrap_or_else(|_| panic!("refused"));
    v.set_agusd(&inv, admin, agusd, Ok(me), Ok(7), Ok(7)).unwrap_or_else(|_| panic!("refused"));
    let d = v.deposit(&inv, alice, 5).unwrap_or_else(|_| panic!("refused"));
    assert_eq!(d.value, 5);
    assert_eq!(
        d.effects.calls,
        vec![
            Call::Transfer { token: usdc, from: alice, to: me, amount: 5 },
            Call::Mint { token: agusd, to: alice, amount: 5 },
        ]
    );
    assert_eq!(d.effects.rent, vec![Rent::Instance]);
    assert_eq!(v.booked_reserves(), 5);
    assert_eq!(v.deposits(), 1);
    assert!(matches!(
        v.set_agusd(&inv, admin, agusd, Ok(me), Ok(7), Ok(7)),
        Err(Fault::Error(VaultError::DepositsExist))
    ));

    assert!(matches!(v.deposit(&inv, alice, i128::MAX), Err(Fault::Trap(Trap::Overflow))));
    let d = v.request_withdrawal(&inv, alice, MIN_WITHDRAWAL).unwrap_or_else(|_| panic!("refused"));
    assert_eq!(d.value, 1);
    assert_eq!(d.effects.calls, vec![Call::Burn { token: agusd, from: alice, amount: MIN_WITHDRAWAL }]);
    assert_eq!(d.effects.rent, vec![Rent::Claim { id: 1 }, Rent::Instance]);
    let d = v.bump_claim(1).unwrap_or_else(|_| panic!("refused"));
    assert_eq!(d.effects.rent, vec![Rent::Claim { id: 1 }]);
    assert!(matches!(v.bump_claim(2), Err(Fault::Error(VaultError::ClaimNotFound))));
}

// ---- refusals of the engine ----

#[test]
fn a_pool_leaves_the_registry_only_when_nothing_is_charged_to_it() {
    let f = engine_setup();
    f.engine.allocate(&f.admin, &f.pool_a, &(100 * USDC));
    assert_eq!(
        f.engine.try_unregister_pool(&f.admin, &f.pool_a),
        Err(Fault::Error(EngineError::PoolHasExposure))
    );
    f.engine.write_down(&f.admin, &f.pool_a, &(100 * USDC), &sym("DEFAULT"));
    assert_eq!(
        f.engine.try_unregister_pool(&f.admin, &f.pool_a),
        Err(Fault::Error(EngineError::PoolHasWrittenOffCharge))
    );
    f.engine.recover(&f.admin, &f.pool_a);
    f.engine.unregister_pool(&f.admin, &f.pool_a);
    assert_eq!(f.engine.pools(), vec![f.pool_b, f.pool_c]);
    assert_eq!(
        f.engine.try_unregister_pool(&f.admin, &f.pool_a),
        Err(Fault::Error(EngineError::PoolNotRegistered))
    );
    assert_eq!(
        f.engine.try_get_pool(&f.pool_a),
        Err(Fault::Error(EngineError::PoolNotRegistered))
    );
}

#[test]
fn a_pools_own_cap_can_be_set() {
    let f = engine_setup();
    assert_eq!(
        f.engine.try_set_pool_cap(&f.admin, &f.pool_a, &10_001u32),
        Err(Fault::Error(EngineError::InvalidCap))
    );
    f.engine.set_pool_cap(&f.admin, &f.pool_a, &1_000u32);
    assert_eq!(f.engine.get_pool(&f.pool_a).cap_bps, 1_000);
    assert_eq!(
        f.engine.try_allocate(&f.admin, &f.pool_a, &(100 * USDC + 1)),
        Err(Fault::Error(EngineError::PoolCapExceeded))
    );
    f.engine.allocate(&f.admin, &f.pool_a, &(100 * USDC));
}

#[test]
fn the_reserve_ratio_of_an_empty_book_is_one() {
    let e = AllocationEngine::empty();
    assert_eq!(e.get_reserve_ratio(Ok(0), Ok(0)), Err(Fault::Error(EngineError::NotInitialized)));
    let f = engine_setup();
    assert_eq!(f.engine.get_reserve_ratio(), 10_000);
    f.engine.allocate(&f.admin, &f.pool_a, &(123 * USDC));
    assert_eq!(f.engine.get_reserve_ratio(), 8_770);
}

// ---- the adapters ----

#[test]
fn a_bond_adapter_sweeps_only_what_it_has_not_booked() {
    let f = bond_setup();
    f.usdc.faucet(&f.adapter_id, &(540 * USDC));
    f.adapter.allocate(&(500 * USDC));
    assert_eq!(f.adapter.recover_surplus(&f.admin), 40 * USDC);
    assert_eq!(f.usdc.balance(&f.vault), 40 * USDC);
    assert_eq!(f.usdc.balance(&f.adapter_id), 500 * USDC);
    assert_eq!(
        f.adapter.try_recover_surplus(&f.admin),
        Err(Fault::Error(etherfuse::AdapterError::NothingToRecover))
    );
    let mallory = account(&f.e);
    assert_eq!(
        f.adapter.try_recover_surplus(&mallory),
        Err(Fault::Error(etherfuse::AdapterError::NotAuthorized))
    );
    assert_eq!(etherfuse::AdapterError::NothingToRecover.code(), 711);
    assert_eq!(private_credit::AdapterError::NothingToRecover.code(), 611);
}

// ---- staking ----

#[test]
fn a_stake_too_small_for_a_share_is_refused() {
    let f = staking_setup();
    let alice = account(&f.e);
    fund_agusd(&f, &alice, 10);
    fund_agusd(&f, &f.admin, 1_000 * ONE);
    f.vault.stake(&alice, &1);
    f.vault.distribute_yield(&(1_000 * ONE));
    assert_eq!(f.vault.try_stake(&alice, &9), Err(Fault::Error(StakingError::ZeroShares)));
    assert_eq!(f.vault.nav(), 1_000 * ONE + 1);
}

#[test]
fn a_round_trip_through_staking_makes_no_money() {
    let f = staking_setup();
    let alice = account(&f.e);
    let bob = account(&f.e);
    fund_agusd(&f, &alice, 1_000);
    fund_agusd(&f, &bob, 1_000);
    fund_agusd(&f, &f.admin, 333);
    f.vault.stake(&alice, &1_000);
    f.vault.distribute_yield(&333);
    let shares = f.vault.stake(&bob, &1_000);
    assert_eq!(shares, 750);
    assert_eq!(f.vault.request_unstake(&bob, &shares), 999);
}

#[test]
fn yield_with_nobody_staked_goes_to_the_first_to_stake() {
    let f = staking_setup();
    let alice = account(&f.e);
    fund_agusd(&f, &alice, 100);
    fund_agusd(&f, &f.admin, 50);
    f.vault.distribute_yield(&50);
    assert_eq!(f.vault.exchange_rate(), ONE);
    assert_eq!(f.vault.stake(&alice, &100), 100);
    assert_eq!(f.vault.request_unstake(&alice, &100), 150);
}

#[test]
fn a_second_request_restarts_the_cooldown_on_all_of_it() {
    let f = staking_setup();
    let alice = account(&f.e);
    fund_agusd(&f, &alice, 100);
    f.vault.stake(&alice, &100);
    f.vault.request_unstake(&alice, &40);
    f.e.set_timestamp(1_000 + COOLDOWN - 1);
    f.vault.request_unstake(&alice, &60);
    assert_eq!(
        f.vault.pending(&alice),
        Pending { assets: 100, claimable_at: 1_000 + COOLDOWN - 1 + COOLDOWN }
    );
    f.e.set_timestamp(1_000 + COOLDOWN);
    assert_eq!(f.vault.try_claim(&alice), Err(Fault::Error(StakingError::StillInCooldown)));
    f.e.set_timestamp(1_000 + COOLDOWN - 1 + COOLDOWN);
    assert_eq!(f.vault.claim(&alice), 100);
}

#[test]
fn unstaking_more_than_is_held_is_refused_by_the_token() {
    let f = staking_setup();
    let alice = account(&f.e);
    fund_agusd(&f, &alice, 100);
    f.vault.stake(&alice, &100);
    assert_eq!(
        f.vault.try_request_unstake(&alice, &101),
        Err(Fault::Trap(Trap::Token(TokenError::InsufficientBalance)))
    );
}

// ---- the buffered agUSD ----

#[test]
fn a_redemption_beyond_the_buffer_names_the_buffer() {
    let f = agusd_setup();
    let user = account(&f.e);
    f.usdc.faucet(&user, &100_0000000);
    f.ag.deposit(&user, &100_0000000);
    assert_eq!(
        f.ag.try_redeem(&user, &20_0000001),
        Err(Fault::Error(AgUsdError::InsufficientBuffer))
    );
    assert_eq!(AgUsdError::InsufficientBuffer.code(), 100);
    assert_eq!(f.ag.try_redeem(&user, &0), Err(Fault::Trap(Trap::BadArgument)));
    assert_eq!(f.ag.try_deposit(&user, &0), Err(Fault::Trap(Trap::BadArgument)));
}

#[test]
fn dust_over_the_buffer_stays_where_it_is() {
    let f = agusd_setup();
    let user = account(&f.e);
    f.usdc.faucet(&user, &100);
    // 80 over the buffer, and nothing below a tenth of a unit is worth moving.
    f.ag.deposit(&user, &100);
    assert_eq!(f.ag.reserve(), 100);
    assert_eq!(f.ag.deployed(), 0);
}

#[test]
fn the_admin_pulls_capital_back_from_a_vault_in_two_steps() {
    let f = agusd_setup();
    let user = account(&f.e);
    f.usdc.faucet(&user, &100_0000000);
    f.ag.deposit(&user, &100_0000000);
    f.ag.deallocate(&f.v1.address, &10_0000000);
    assert_eq!(f.v1.pending(&f.ag.address).assets, 10_0000000);
    f.e.set_timestamp(1_000 + SHORT_COOLDOWN);
    f.ag.claim_alloc(&f.v1.address);
    assert_eq!(f.ag.reserve(), 30_0000000);
    f.e.mock_auths(&[user]);
    assert_eq!(f.ag.try_sweep(&1), Err(Fault::Trap(Trap::Unauthorized)));
    f.ag.transfer(&user, &f.treasury, &1);
    assert_eq!(f.ag.balance(&f.treasury), 1);
}

#[test]
fn the_treasury_can_refund_the_reserve() {
    let f = agusd_setup();
    let user = account(&f.e);
    f.usdc.faucet(&user, &100_0000000);
    f.ag.deposit(&user, &100_0000000);
    f.ag.sweep(&5_0000000);
    f.ag.refund_reserve(&f.treasury, &2_0000000);
    assert_eq!(f.ag.reserve(), 17_0000000);
    assert_eq!(f.usdc.balance(&f.treasury), 3_0000000);
}

// ---- what holds across calls ----

#[test]
fn the_breaker_stops_new_business_and_no_payout() {
    let f = vault_setup();
    let alice = depositor(&f, 1_000 * USDC);
    let bob = depositor(&f, 1_000 * USDC);
    f.usdc.faucet(&alice, &(10 * USDC));
    let a = f.vault.request_withdrawal(&alice, &(100 * USDC));
    let b = f.vault.request_withdrawal(&bob, &(100 * USDC));
    f.vault.set_paused(&f.admin, &true);
    let paused = Err(Fault::Error(VaultError::Paused));
    assert_eq!(f.vault.try_deposit(&alice, &(10 * USDC)).map(|_| ()), paused);
    assert_eq!(f.vault.try_request_withdrawal(&alice, &(10 * USDC)).map(|_| ()), paused);
    assert_eq!(f.vault.try_settle_allocation(&f.pool, &1), paused);
    f.vault.claim_withdrawal(&alice, &a);
    assert_eq!(f.vault.settle_withdrawal(), b);
    assert_eq!(f.usdc.balance(&bob), 100 * USDC);
}

#[test]
fn settling_leaves_what_the_owners_own_claim_would() {
    let f = vault_setup();
    let alice = depositor(&f, 300 * USDC);
    let id = f.vault.request_withdrawal(&alice, &(100 * USDC));
    f.vault.settle_withdrawal();
    let g = vault_setup();
    let bob = depositor(&g, 300 * USDC);
    assert_eq!(g.vault.request_withdrawal(&bob, &(100 * USDC)), id);
    g.vault.claim_withdrawal(&bob, &id);
    for v in [&f.vault, &g.vault] {
        assert_eq!(v.queue_head(), 2);
        assert_eq!(v.queue_length(), 0);
        assert_eq!(v.outstanding_liabilities(), 0);
        assert_eq!(v.booked_reserves(), 200 * USDC);
        assert!(v.get_claim(&id).claimed);
    }
    assert_eq!(f.usdc.balance(&alice), g.usdc.balance(&bob));
}

#[test]
fn capital_out_fixes_the_engine_pointer() {
    let f = vault_setup();
    depositor(&f, 100 * USDC);
    let other = f.e.register_engine(f.admin, f.vault.address);
    f.engine.allocate(&f.admin, &f.pool, &(40 * USDC));
    assert_eq!(
        f.vault.try_set_engine(&f.admin, &other),
        Err(Fault::Error(VaultError::CapitalDeployed))
    );
    f.engine.deallocate(&f.pool, &(40 * USDC));
    f.vault.set_engine(&f.admin, &other);
    assert_eq!(f.vault.allocation_engine(), other);
}

#[test]
fn an_unwired_vault_moves_nothing() {
    let admin = Address::account(0, 1);
    let me = Address::contract(0, 3);
    let inv = alone(me, &[admin]);
    let mut v = Vault::empty();
    v.__constructor(&inv, admin, Address::contract(0, 4), Ok(0)).unwrap_or_else(|_| panic!("refused"));
    let unset = |f: Fault<VaultError>| assert_eq!(f, Fault::Error(VaultError::NotInitialized));
    unset(v.deposit(&inv, admin, 5).err().unwrap());
    unset(v.request_withdrawal(&inv, admin, MIN_WITHDRAWAL).err().unwrap());
    unset(v.settle_allocation(&inv, me, 5, 100).err().unwrap());
    unset(v.record_repayment(&inv, 5, 100).err().unwrap());
    unset(v.record_writedown(&inv, admin, 5).err().unwrap());
    unset(v.record_recovery(&inv, admin, 5, 100).err().unwrap());
}

#[test]
fn a_floor_that_was_never_opened_releases_nothing() {
    let f = vault_setup();
    depositor(&f, 1_000 * USDC);
    f.vault.set_reserve_floor(&f.admin, &10_000u32);
    assert_eq!(
        f.vault.try_settle_allocation(&f.pool, &1),
        Err(Fault::Error(VaultError::ReserveFloorBreached))
    );
}

#[test]
fn the_base_parts_from_the_net_assets_at_the_first_loss() {
    let f = vault_setup();
    depositor(&f, 1_000 * USDC);
    f.engine.allocate(&f.admin, &f.pool, &(400 * USDC));
    assert_eq!(f.vault.floor_base(), f.vault.get_net_assets());
    f.engine.write_down(&f.admin, &f.pool, &(100 * USDC), &sym("DEFAULT"));
    assert_eq!(f.vault.get_net_assets(), 900 * USDC);
    assert_eq!(f.vault.floor_base(), 1_000 * USDC);
}

/// A stack with a thousand in it, its two groups of caps wide open.
fn open_stack() -> StackFix {
    let f = stack_setup();
    f.usdc.faucet(&f.users[0], &(1_000 * USDC));
    f.vault.deposit(&f.users[0], &(1_000 * USDC));
    f.engine.set_caps(&f.admin, &10_000, &10_000, &10_000);
    f
}

#[test]
fn an_engine_with_the_vaults_own_floor_never_meets_the_vaults() {
    let f = open_stack();
    f.engine.allocate(&f.admin, &f.pc_pool.address, &(500 * USDC));
    f.engine.allocate(&f.admin, &f.ef_pool.address, &(400 * USDC));
    assert_eq!(f.vault.free_reserves(), 100 * USDC);
    assert_eq!(
        f.engine.try_allocate(&f.admin, &f.ef_pool.address, &1),
        Err(Fault::Error(EngineError::ReserveFloorBreached))
    );
}

#[test]
fn the_tighter_of_the_two_floors_binds() {
    let f = open_stack();
    f.vault.set_reserve_floor(&f.admin, &6_000u32);
    f.engine.allocate(&f.admin, &f.pc_pool.address, &(400 * USDC));
    assert_eq!(
        f.engine.try_allocate(&f.admin, &f.pc_pool.address, &1),
        Err(Fault::Trap(Trap::Callee(InvokeError::Contract(316))))
    );
    assert_eq!(f.engine.get_exposure(&f.pc_pool.address), 400 * USDC);

    let g = open_stack();
    g.engine.set_reserve_floor(&g.admin, &6_000u32);
    g.engine.allocate(&g.admin, &g.pc_pool.address, &(400 * USDC));
    assert_eq!(
        g.engine.try_allocate(&g.admin, &g.pc_pool.address, &1),
        Err(Fault::Error(EngineError::ReserveFloorBreached))
    );
}

#[test]
fn an_allocation_gains_nothing_by_being_sliced() {
    for (first, second, granted) in [(300, 200, true), (300, 201, false), (499, 1, true), (1, 500, false)] {
        let f = open_stack();
        f.engine.allocate(&f.admin, &f.pc_pool.address, &(first * USDC));
        let second_piece = f.engine.try_allocate(&f.admin, &f.pc_pool.address, &(second * USDC));
        assert_eq!(second_piece.is_ok(), granted);
        let g = open_stack();
        let both = g.engine.try_allocate(&g.admin, &g.pc_pool.address, &((first + second) * USDC));
        assert_eq!(both.is_ok(), granted);
        if !granted {
            assert_eq!(second_piece, Err(Fault::Error(EngineError::PoolCapExceeded)));
            assert_eq!(both, second_piece);
        }
    }
}

#[test]
fn a_repayment_opens_what_it_gives_back() {
    let f = open_stack();
    f.engine.set_caps(&f.admin, &5_000, &6_000, &8_000);
    f.engine.allocate(&f.admin, &f.pc_pool.address, &(500 * USDC));
    f.engine.allocate(&f.admin, &f.ef_pool.address, &(300 * USDC));
    assert_eq!(
        f.engine.try_allocate(&f.admin, &f.ef_pool.address, &1),
        Err(Fault::Error(EngineError::JurisdictionCapExceeded))
    );
    f.engine.deallocate(&f.pc_pool.address, &(100 * USDC));
    f.engine.allocate(&f.admin, &f.ef_pool.address, &(100 * USDC));
    assert_eq!(f.engine.total_allocated(), 800 * USDC);
}

#[test]
fn a_pool_that_leaves_frees_no_limit_of_the_others() {
    let f = open_stack();
    f.engine.allocate(&f.admin, &f.pc_pool.address, &(100 * USDC));
    f.engine.allocate(&f.admin, &f.ef_pool.address, &(300 * USDC));
    f.engine.deallocate(&f.pc_pool.address, &(100 * USDC));
    let beyond = || f.engine.try_allocate(&f.admin, &f.ef_pool.address, &(200 * USDC + 1));
    assert_eq!(beyond(), Err(Fault::Error(EngineError::PoolCapExceeded)));
    f.engine.unregister_pool(&f.admin, &f.pc_pool.address);
    assert_eq!(beyond(), Err(Fault::Error(EngineError::PoolCapExceeded)));
    assert_eq!(f.engine.charged_exposure(&f.ef_pool.address), 300 * USDC);
    f.engine.allocate(&f.admin, &f.ef_pool.address, &(200 * USDC));
}

#[test]
fn admins_that_differ_recognise_no_loss_and_no_recovery() {
    let f = open_stack();
    f.engine.allocate(&f.admin, &f.ef_pool.address, &(300 * USDC));
    let next = account(&f.e);
    f.vault.propose_admin(&f.admin, &next);
    f.vault.accept_admin(&next);
    assert!(!f.engine.admin_aligned());
    let mismatch = Err(Fault::Error(EngineError::AdminMismatch));
    let pool = f.ef_pool.address;
    assert_eq!(f.engine.try_write_down(&f.admin, &pool, &USDC, &sym("LOSS")), mismatch);
    assert_eq!(f.engine.try_recover(&f.admin, &pool).map(|_| ()), mismatch);
    assert_eq!(f.engine.try_book_recovery(&f.admin, &pool, &USDC), mismatch);
    f.engine.propose_admin(&f.admin, &next);
    f.engine.accept_admin(&next);
    assert!(f.engine.admin_aligned());
    f.engine.write_down(&next, &pool, &USDC, &sym("LOSS"));
    assert_eq!(f.vault.recognised_losses(), USDC);
}

#[test]
fn losses_fall_only_to_cash_and_assets_only_move() {
    let f = open_stack();
    let pool = f.ef_pool.address;
    let assets = f.vault.get_total_assets();
    f.engine.allocate(&f.admin, &pool, &(500 * USDC));
    assert_eq!(f.vault.get_total_assets(), assets);
    f.engine.write_down(&f.admin, &pool, &(200 * USDC), &sym("LOSS"));
    assert_eq!(f.vault.recognised_losses(), 200 * USDC);
    f.engine.deallocate(&pool, &(300 * USDC));
    assert_eq!(f.vault.get_total_assets(), assets - 200 * USDC);
    assert_eq!(f.vault.recognised_losses(), 200 * USDC);
    let booked = f.vault.booked_reserves();
    assert_eq!(f.engine.recover(&f.admin, &pool), 200 * USDC);
    assert_eq!(f.vault.recognised_losses(), 0);
    assert_eq!(f.vault.booked_reserves(), booked + 200 * USDC);
    assert_eq!(f.vault.get_total_assets(), assets);
}

#[test]
fn a_claim_on_record_changes_only_by_being_paid() {
    let f = open_stack();
    f.e.set_timestamp(T0);
    let id = f.vault.request_withdrawal(&f.users[0], &(50 * USDC));
    let claim = f.vault.get_claim(&id);
    f.e.set_timestamp(T0 + 1_000);
    f.engine.allocate(&f.admin, &f.pc_pool.address, &(100 * USDC));
    f.vault.request_withdrawal(&f.users[0], &(60 * USDC));
    f.vault.set_paused(&f.admin, &true);
    assert_eq!(f.vault.get_claim(&id), claim);
    f.vault.settle_withdrawal();
    assert_eq!(f.vault.get_claim(&id), Claim { claimed: true, ..claim });
    assert_eq!(
        (claim.owner, claim.amount, claim.requested_at),
        (f.users[0], 50 * USDC, T0)
    );
}

#[test]
fn a_gift_of_agusd_is_nobodys_and_fixes_the_token() {
    let f = staking_setup();
    let alice = account(&f.e);
    let bob = account(&f.e);
    fund_agusd(&f, &alice, 105);
    f.ag.transfer(&alice, &f.vault.address, &5);
    assert_eq!(f.ag.balance(&f.vault.address) - f.vault.nav(), 5);
    assert_eq!(
        f.vault.try_set_agusd(&f.admin, &bob),
        Err(Fault::Error(StakingError::CustodyTaken))
    );
    f.vault.stake(&alice, &100);
    f.vault.transfer(&alice, &bob, &30);
    assert_eq!(f.vault.exchange_rate(), ONE);
    assert_eq!(f.vault.request_unstake(&bob, &30), 30);
    assert_eq!(
        f.ag.balance(&f.vault.address),
        f.vault.nav() + f.vault.pending(&bob).assets + 5
    );
}

#[test]
fn a_rebalance_stakes_with_the_targets_alone() {
    let (admin, me) = (Address::account(0, 1), Address::contract(0, 2));
    let (v1, v2) = (Address::contract(0, 3), Address::contract(0, 4));
    let inv = alone(me, &[admin]);
    let mut a = AgUsd::empty();
    let usdc = Address::contract(0, 5);
    a.initialize(admin, usdc, admin, 2_000, 7, "Agama USD".to_string(), "agUSD".to_string());
    assert!(a
        .set_targets(
            &inv,
            vec![Target { vault: v1, weight_bps: 6_000 }, Target { vault: v2, weight_bps: 4_000 }],
        )
        .is_ok());
    match a.plan(&inv, Ok(10_000_001)) {
        Ok(Stage::Deploy { calls, next: 0 }) => assert_eq!(
            calls,
            vec![
                Call::Stake { vault: v1, from: me, amount: 6_000_000 },
                Call::Stake { vault: v2, from: me, amount: 4_000_000 },
            ]
        ),
        _ => panic!("nothing to deploy"),
    }
    assert!(matches!(a.plan(&inv, Ok(MIN_ALLOC - 1)), Ok(Stage::Done)));
    assert!(matches!(a.plan(&inv, Err(InvokeError::Abort)), Err(Trap::Callee(InvokeError::Abort))));
}

/// Two targets at sixty and forty hundredths, a buffer of twenty, and a
/// deposit of a hundred.
fn deposited() -> (AgUsd, Stage, Invocation, Address, Address) {
    let (admin, me) = (Address::account(0, 1), Address::contract(0, 2));
    let (v1, v2) = (Address::contract(0, 3), Address::contract(0, 4));
    let inv = alone(me, &[admin]);
    let mut a = AgUsd::empty();
    let usdc = Address::contract(0, 5);
    a.initialize(admin, usdc, admin, 2_000, 7, "Agama USD".to_string(), "agUSD".to_string());
    let targets =
        vec![Target { vault: v1, weight_bps: 6_000 }, Target { vault: v2, weight_bps: 4_000 }];
    assert!(a.set_targets(&inv, targets).is_ok());
    let begun = a.deposit(&inv, admin, 100_0000000).unwrap().value;
    (a, begun, inv, v1, v2)
}

fn on(a: &AgUsd, inv: &Invocation, stage: Stage, reply: Reply) -> Stage {
    a.advance(inv, stage, reply).unwrap()
}

#[test]
fn a_deposit_harvests_then_measures_then_deploys() {
    let (a, begun, inv, v1, v2) = deposited();
    let me = inv.contract;
    let mut s = begun;
    for vault in [v1, v2] {
        assert_eq!(a.next_action(&inv, &s), Action::Attempt(Call::Claim { vault, from: me }));
        s = on(&a, &inv, s, Reply::Called);
    }
    assert_eq!(a.next_action(&inv, &s), Action::AskReserve);
    s = on(&a, &inv, s, Reply::Reserve(Ok(100_0000000)));
    for (vault, amount) in [(v1, 48_0000000), (v2, 32_0000000)] {
        assert_eq!(a.next_action(&inv, &s), Action::Make(Call::Stake { vault, from: me, amount }));
        s = on(&a, &inv, s, Reply::Called);
    }
    assert_eq!(a.next_action(&inv, &s), Action::Finish);
}

#[test]
fn a_shortfall_is_priced_and_requested_target_by_target() {
    let (a, begun, inv, v1, v2) = deposited();
    let me = inv.contract;
    let mut s = begun;
    s = on(&a, &inv, s, Reply::Called);
    s = on(&a, &inv, s, Reply::Called);
    // The buffer is 20, so 10 are missing: 6 from the first and 4 from the
    // second, which holds only 3 shares.
    s = on(&a, &inv, s, Reply::Reserve(Ok(10_0000000)));
    assert_eq!(a.next_action(&inv, &s), Action::AskQuote { vault: v1 });
    s = on(&a, &inv, s, Reply::Quoted(Quote { balance: 50_0000000, share_price: 20_000_000 }));
    assert_eq!(
        a.next_action(&inv, &s),
        Action::Attempt(Call::RequestUnstake { vault: v1, from: me, shares: 3_0000000 })
    );
    s = on(&a, &inv, s, Reply::Called);
    assert_eq!(a.next_action(&inv, &s), Action::AskQuote { vault: v2 });
    s = on(&a, &inv, s, Reply::Quoted(Quote { balance: 3_0000000, share_price: 10_000_000 }));
    assert_eq!(
        a.next_action(&inv, &s),
        Action::Attempt(Call::RequestUnstake { vault: v2, from: me, shares: 3_0000000 })
    );
    s = on(&a, &inv, s, Reply::Called);
    assert_eq!(a.next_action(&inv, &s), Action::Finish);
}

#[test]
fn a_vault_with_no_position_is_passed_over() {
    let (a, begun, inv, _, v2) = deposited();
    let mut s = begun;
    s = on(&a, &inv, s, Reply::Called);
    s = on(&a, &inv, s, Reply::Called);
    s = on(&a, &inv, s, Reply::Reserve(Ok(0)));
    s = on(&a, &inv, s, Reply::Quoted(Quote { balance: 0, share_price: 10_000_000 }));
    assert_eq!(a.next_action(&inv, &s), Action::AskQuote { vault: v2 });
    s = on(&a, &inv, s, Reply::Quoted(Quote { balance: 5, share_price: 0 }));
    assert_eq!(a.next_action(&inv, &s), Action::Finish);
}

#[test]
fn a_reply_out_of_turn_takes_a_rebalance_nowhere() {
    let (a, begun, inv, v1, _) = deposited();
    let s = on(&a, &inv, begun, Reply::Reserve(Ok(100_0000000)));
    let claim = Action::Attempt(Call::Claim { vault: v1, from: inv.contract });
    assert_eq!(a.next_action(&inv, &s), claim);
    let s = on(&a, &inv, s, Reply::Quoted(Quote { balance: 1, share_price: 1 }));
    assert_eq!(a.next_action(&inv, &s), claim);
}

#[test]
fn without_targets_or_with_dust_a_rebalance_moves_nothing() {
    let (mut a, begun, inv, _, _) = deposited();
    let mut s = on(&a, &inv, begun, Reply::Called);
    s = on(&a, &inv, s, Reply::Called);
    s = on(&a, &inv, s, Reply::Reserve(Ok(20_0000000 + MIN_ALLOC - 1)));
    assert_eq!(a.next_action(&inv, &s), Action::Finish);
    assert!(a.set_targets(&inv, vec![]).is_ok());
    assert!(matches!(a.rebalance().value, Stage::Done));
    assert_eq!(a.next_action(&inv, &a.rebalance().value), Action::Finish);
}

#[test]
fn a_rebalance_keeps_the_instance_alive_where_there_are_targets() {
    let (mut a, _, inv, _, _) = deposited();
    let d = a.rebalance();
    assert_eq!(d.effects.rent, vec![Rent::Instance]);
    assert!(d.effects.calls.is_empty() && d.effects.events.is_empty());
    assert!(a.set_targets(&inv, vec![]).is_ok());
    assert!(a.rebalance().effects.rent.is_empty());
}

#[test]
fn a_booking_moves_the_base_by_the_losses_it_releases() {
    // The adapter's own admin sweeps first, so the cash is in the base before
    // the engine books it.
    let f = stack_setup();
    let who = f.users[0];
    f.usdc.faucet(&who, &(1_000 * USDC));
    f.vault.deposit(&who, &(1_000 * USDC));
    let pool = f.ef_pool.address;
    f.engine.allocate(&f.admin, &pool, &(400 * USDC));
    f.engine.write_down(&f.admin, &pool, &(300 * USDC), &sym("LOSS"));
    assert_eq!(f.vault.floor_base(), 1_000 * USDC);
    f.ef_pool.recover_surplus(&f.admin);
    assert_eq!(f.vault.floor_base(), 1_300 * USDC);
    f.engine.book_recovery(&f.admin, &pool, &(300 * USDC));
    assert_eq!(f.vault.floor_base(), 1_000 * USDC);
    assert_eq!(f.vault.recognised_losses(), 0);
}

#[test]
fn the_exposure_book_sums_to_the_total() {
    let f = stack_setup();
    let who = f.users[0];
    f.usdc.faucet(&who, &(1_000 * USDC));
    f.vault.deposit(&who, &(1_000 * USDC));
    f.engine.allocate(&f.admin, &f.ef_pool.address, &(400 * USDC));
    let book = f.engine.get_exposures();
    let sum: i128 = (0..book.len()).map(|i| book.entry(i).1).sum();
    assert_eq!((book.len(), sum), (2, 400 * USDC));
    assert_eq!(f.engine.total_allocated(), sum);
}

#[test]
fn deploying_leaves_less_than_a_unit_per_target() {
    let (a, begun, inv, _, _) = deposited();
    let mut s = on(&a, &inv, begun, Reply::Called);
    s = on(&a, &inv, s, Reply::Called);
    // 80.0000001 over the buffer: 48.0000000 and 32.0000000, and one stroop
    // stays.
    s = on(&a, &inv, s, Reply::Reserve(Ok(100_0000001)));
    match s {
        Stage::Deploy { calls, .. } => {
            let sum: i128 = calls
                .iter()
                .map(|c| match c {
                    Call::Stake { amount, .. } => *amount,
                    _ => 0,
                })
                .sum();
            assert_eq!(sum, 80_0000000);
        }
        _ => panic!("nothing to deploy"),
    }
}
