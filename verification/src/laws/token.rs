//! Laws of the token.

use crate::address::Address;
use crate::host::{brings, net, Call, Event, Invocation, Receipt, Rent, Trap};
use crate::math::fits;
use crate::token::{held, moved, AllowanceDataKey, Token, TokenError};
use vstd::prelude::*;

verus! {

/// Whoever is not in a book holds nothing, and whoever is holds what it says.
pub proof fn a_book_says_what_everyone_holds(t: Token, book: Map<Address, i128>, who: Address)
    ensures
        !book.dom().contains(who) ==> held(book, who) == 0,
        book.dom().contains(who) ==> held(book, who) == book[who],
        t.holds(who) == held(t.balances@, who),
{
}

/// Moving one balance moves it by that much, and nobody else's.
pub proof fn a_movement_is_of_one_balance(
    book: Map<Address, i128>,
    who: Address,
    by: int,
    other: Address,
)
    requires
        fits(held(book, who) + by),
    ensures
        held(moved(book, who, by), who) == held(book, who) + by,
        other != who ==> held(moved(book, who, by), other) == held(book, other),
{
}

/// An allowance is good through the ledger it was given for and not after it,
/// and where none was given there is none.
pub proof fn an_allowance_runs_through_its_ledger(
    t: Token,
    sequence: u32,
    from: Address,
    spender: Address,
)
    ensures
        ({
            let key = AllowanceDataKey { from, spender };
            &&& !t.allowances@.dom().contains(key) ==> t.allowed(sequence, from, spender) == 0
            &&& t.allowances@.dom().contains(key) && sequence
                <= t.allowances@[key].expiration_ledger ==> t.allowed(sequence, from, spender)
                == t.allowances@[key].amount
            &&& t.allowances@.dom().contains(key) && sequence
                > t.allowances@[key].expiration_ledger ==> t.allowed(sequence, from, spender) == 0
        }),
{
}

/// Approving replaces one allowance by exactly the one named, until exactly
/// the ledger named, and takes the holder's signature and a ledger that has
/// not passed. Nobody else's allowance and nobody's balance moves.
pub proof fn an_approval_gives_what_it_names(
    t: Token,
    after: Token,
    inv: Invocation,
    from: Address,
    spender: Address,
    amount: i128,
    expiration_ledger: u32,
    r: Result<Receipt<()>, Trap>,
    sequence: u32,
    other: AllowanceDataKey,
)
    requires
        t.approve_step(after, inv, from, spender, amount, expiration_ledger, r),
        other != (AllowanceDataKey { from, spender }),
    ensures
        r is Ok <==> inv.signers@.contains(from) && amount >= 0 && (amount == 0 || inv.sequence
            <= expiration_ledger),
        r is Ok ==> after.allowed(sequence, from, spender) == (if sequence <= expiration_ledger {
            amount as int
        } else {
            0
        }),
        after.allowed(sequence, other.from, other.spender) == t.allowed(
            sequence,
            other.from,
            other.spender,
        ),
        after.balances == t.balances && after.supply == t.supply && after.metadata == t.metadata,
        r is Err ==> after == t,
{
}

/// A transfer takes the holder's signature and a balance that covers it, takes
/// exactly the amount from one and gives exactly it to the other, and touches
/// nothing else.
pub proof fn a_transfer_takes_from_one_and_gives_to_the_other(
    t: Token,
    after: Token,
    inv: Invocation,
    from: Address,
    to: Address,
    amount: i128,
    r: Result<Receipt<()>, Trap>,
    other: Address,
)
    requires
        t.sound(),
        t.transfer_step(after, inv, from, to, amount, r),
        other != from && other != to,
    ensures
        r is Ok <==> inv.signers@.contains(from) && 0 <= amount <= held(t.balances@, from),
        r is Ok && from != to ==> {
            &&& held(after.balances@, from) == held(t.balances@, from) - amount
            &&& held(after.balances@, to) == held(t.balances@, to) + amount
        },
        r is Ok && from == to ==> held(after.balances@, from) == held(t.balances@, from),
        held(after.balances@, other) == held(t.balances@, other),
        after.supply == t.supply && after.allowances == t.allowances && after.metadata
            == t.metadata,
        r is Err ==> after == t,
{
    t.supply_covers_every_balance(from);
    t.supply_covers_every_balance(to);
    if from != to {
        t.supply_covers_two_balances(from, to);
    }
}

/// A transfer out of an allowance takes the spender's signature, an allowance
/// that is live and covers it, and a balance that covers it. It moves the
/// amount as a transfer does, and takes it off the allowance.
pub proof fn a_spender_moves_what_it_was_allowed(
    t: Token,
    after: Token,
    inv: Invocation,
    spender: Address,
    from: Address,
    to: Address,
    amount: i128,
    r: Result<Receipt<()>, Trap>,
    other: Address,
    key: AllowanceDataKey,
)
    requires
        t.sound(),
        t.transfer_from_step(after, inv, spender, from, to, amount, r),
        other != from && other != to,
        key != (AllowanceDataKey { from, spender }),
    ensures
        r is Ok <==> inv.signers@.contains(spender) && 0 <= amount <= t.allowed(
            inv.sequence,
            from,
            spender,
        ) && amount <= held(t.balances@, from),
        r is Ok && from != to ==> {
            &&& held(after.balances@, from) == held(t.balances@, from) - amount
            &&& held(after.balances@, to) == held(t.balances@, to) + amount
        },
        r is Ok && from == to ==> held(after.balances@, from) == held(t.balances@, from),
        held(after.balances@, other) == held(t.balances@, other),
        r is Ok ==> after.allowed(inv.sequence, from, spender) == t.allowed(
            inv.sequence,
            from,
            spender,
        ) - amount,
        after.runs_through(from, spender) == t.runs_through(from, spender),
        after.allowed(inv.sequence, key.from, key.spender) == t.allowed(
            inv.sequence,
            key.from,
            key.spender,
        ),
        after.supply == t.supply && after.metadata == t.metadata,
        r is Err ==> after == t,
{
    t.supply_covers_every_balance(from);
    t.supply_covers_every_balance(to);
    if from != to {
        t.supply_covers_two_balances(from, to);
    }
}

/// What is allowed runs through the ledger on record, or through none.
pub proof fn an_allowance_on_record_has_its_ledger(t: Token, from: Address, spender: Address)
    ensures
        t.allowances@.dom().contains(AllowanceDataKey { from, spender }) ==> t.runs_through(
            from,
            spender,
        ) == t.allowances@[AllowanceDataKey { from, spender }].expiration_ledger,
        !t.allowances@.dom().contains(AllowanceDataKey { from, spender }) ==> t.runs_through(
            from,
            spender,
        ) == 0,
{
}

/// A mint makes exactly the amount, on one balance, and refuses a negative
/// one.
pub proof fn a_mint_makes_what_it_says(
    t: Token,
    after: Token,
    to: Address,
    amount: i128,
    r: Result<Receipt<()>, Trap>,
    other: Address,
)
    requires
        t.sound(),
        t.mint_step(after, to, amount, r),
        other != to,
    ensures
        r is Ok <==> 0 <= amount && t.supply + amount <= i128::MAX,
        r is Ok ==> held(after.balances@, to) == held(t.balances@, to) + amount && after.supply
            == t.supply + amount,
        held(after.balances@, other) == held(t.balances@, other),
        after.allowances == t.allowances && after.metadata == t.metadata,
        r is Err ==> after == t,
        r is Err ==> (r->Err_0 == Trap::Token(TokenError::NegativeAmount) <==> amount < 0),
{
    t.supply_covers_every_balance(to);
}

/// A burn destroys exactly the amount, of one balance that covers it, with the
/// holder's signature.
pub proof fn a_burn_destroys_what_it_says(
    t: Token,
    after: Token,
    inv: Invocation,
    from: Address,
    amount: i128,
    r: Result<Receipt<()>, Trap>,
    other: Address,
)
    requires
        t.sound(),
        t.burn_step(after, inv, from, amount, r),
        other != from,
    ensures
        r is Ok <==> inv.signers@.contains(from) && 0 <= amount <= held(t.balances@, from),
        r is Ok ==> held(after.balances@, from) == held(t.balances@, from) - amount && after.supply
            == t.supply - amount,
        held(after.balances@, other) == held(t.balances@, other),
        after.allowances == t.allowances && after.metadata == t.metadata,
        r is Err ==> after == t,
{
    t.supply_covers_every_balance(from);
}

/// A burn on behalf of a contract's own caller asks for no signature, and is
/// otherwise a burn.
pub proof fn a_burn_inside_a_call_needs_only_the_balance(
    t: Token,
    after: Token,
    from: Address,
    amount: i128,
    r: Result<Receipt<()>, Trap>,
    other: Address,
)
    requires
        t.sound(),
        t.burn_unchecked_step(after, from, amount, r),
        other != from,
    ensures
        r is Ok <==> 0 <= amount <= held(t.balances@, from),
        r is Ok ==> held(after.balances@, from) == held(t.balances@, from) - amount && after.supply
            == t.supply - amount,
        held(after.balances@, other) == held(t.balances@, other),
        after.allowances == t.allowances && after.metadata == t.metadata,
        r is Err ==> after == t,
        r is Err && 0 <= amount ==> r->Err_0 == Trap::Token(TokenError::InsufficientBalance),
        r is Err && amount < 0 ==> r->Err_0 == Trap::Token(TokenError::NegativeAmount),
{
    t.supply_covers_every_balance(from);
}

/// A burn out of an allowance destroys the amount and takes it off the
/// allowance.
pub proof fn a_spender_burns_what_it_was_allowed(
    t: Token,
    after: Token,
    inv: Invocation,
    spender: Address,
    from: Address,
    amount: i128,
    r: Result<Receipt<()>, Trap>,
    other: Address,
    key: AllowanceDataKey,
)
    requires
        t.sound(),
        t.burn_from_step(after, inv, spender, from, amount, r),
        other != from,
        key != (AllowanceDataKey { from, spender }),
    ensures
        r is Ok <==> inv.signers@.contains(spender) && 0 <= amount <= t.allowed(
            inv.sequence,
            from,
            spender,
        ) && amount <= held(t.balances@, from),
        r is Ok ==> held(after.balances@, from) == held(t.balances@, from) - amount && after.supply
            == t.supply - amount,
        held(after.balances@, other) == held(t.balances@, other),
        r is Ok ==> after.allowed(inv.sequence, from, spender) == t.allowed(
            inv.sequence,
            from,
            spender,
        ) - amount,
        after.runs_through(from, spender) == t.runs_through(from, spender),
        after.allowed(inv.sequence, key.from, key.spender) == t.allowed(
            inv.sequence,
            key.from,
            key.spender,
        ),
        after.metadata == t.metadata,
        r is Err ==> after == t,
{
    t.supply_covers_every_balance(from);
}

/// Each refusal of the token names what was missing.
pub proof fn a_token_refuses_for_the_reason_it_names(
    t: Token,
    inv: Invocation,
    spender: Address,
    from: Address,
    to: Address,
    amount: i128,
)
    ensures
        t.transfer_trap(inv, from, to, amount) == Some(Trap::Unauthorized)
            <==> !inv.signers@.contains(from),
        t.transfer_trap(inv, from, to, amount) == Some(Trap::Token(TokenError::NegativeAmount))
            ==> amount < 0,
        t.transfer_trap(inv, from, to, amount) == Some(Trap::Token(TokenError::InsufficientBalance))
            ==> held(t.balances@, from) < amount,
        t.transfer_from_trap(inv, spender, from, to, amount) == Some(
            Trap::Token(TokenError::InsufficientAllowance),
        ) ==> t.allowed(inv.sequence, from, spender) < amount,
        t.transfer_from_trap(inv, spender, from, to, amount) == Some(
            Trap::Token(TokenError::InsufficientBalance),
        ) ==> held(t.balances@, from) < amount <= t.allowed(inv.sequence, from, spender),
        t.burn_trap(inv, from, amount) == Some(Trap::Unauthorized)
            <==> !inv.signers@.contains(from),
        t.burn_from_trap(inv, spender, from, amount) == Some(Trap::Unauthorized)
            <==> !inv.signers@.contains(spender),
{
}

/// A transfer brings the receiver what it takes from the sender and nobody
/// else anything, a mint brings its receiver the amount, a burn takes it from
/// its holder, and no call on another token, or of another kind, brings
/// anything.
pub proof fn a_call_brings_only_what_it_names(
    token: Address,
    other: Address,
    from: Address,
    to: Address,
    who: Address,
    amount: i128,
)
    requires
        from != to,
        other != token,
        who != from && who != to,
    ensures
        brings(Call::Transfer { token, from, to, amount }, token, to) == amount,
        brings(Call::Transfer { token, from, to, amount }, token, from) == -amount,
        brings(Call::Transfer { token, from, to, amount }, token, who) == 0,
        brings(Call::Transfer { token, from: to, to, amount }, token, to) == 0,
        brings(Call::Transfer { token: other, from, to, amount }, token, to) == 0,
        brings(Call::Mint { token, to, amount }, token, to) == amount,
        brings(Call::Mint { token, to, amount }, token, who) == 0,
        brings(Call::Mint { token: other, to, amount }, token, to) == 0,
        brings(Call::Burn { token, from, amount }, token, from) == -amount,
        brings(Call::Burn { token, from, amount }, token, who) == 0,
        brings(Call::Burn { token: other, from, amount }, token, from) == 0,
        brings(Call::Claim { vault: token, from }, token, from) == 0,
{
}

/// What several calls bring is the sum of what each brings.
pub proof fn calls_bring_what_each_brings(
    calls: Seq<Call>,
    call: Call,
    token: Address,
    who: Address,
)
    ensures
        net(seq![], token, who) == 0,
        net(calls.push(call), token, who) == net(calls, token, who) + brings(call, token, who),
{
    assert(calls.push(call).drop_last() =~= calls);
}

/// Every movement is announced as it was made, asks nothing of any other
/// contract, and keeps alive the balances it wrote.
pub proof fn a_movement_is_announced_and_kept_alive(
    t: Token,
    after: Token,
    inv: Invocation,
    spender: Address,
    from: Address,
    to: Address,
    amount: i128,
    expiration_ledger: u32,
    r: Result<Receipt<()>, Trap>,
)
    requires
        r is Ok,
    ensures
        ({
            let effects = r->Ok_0.effects;
            &&& t.transfer_step(after, inv, from, to, amount, r) || t.transfer_from_step(
                after,
                inv,
                spender,
                from,
                to,
                amount,
                r,
            ) ==> {
                &&& effects.calls@.len() == 0
                &&& effects.events@ == seq![Event::Transfer { from, to, amount }]
                &&& effects.rent@.contains(Rent::Balance { of: from })
                &&& effects.rent@.contains(Rent::Balance { of: to })
                &&& effects.rent@.contains(Rent::Instance)
            }
            &&& t.burn_step(after, inv, from, amount, r) || t.burn_unchecked_step(
                after,
                from,
                amount,
                r,
            ) || t.burn_from_step(after, inv, spender, from, amount, r) ==> {
                &&& effects.calls@.len() == 0
                &&& effects.events@ == seq![Event::Burn { from, amount }]
                &&& effects.rent@.contains(Rent::Balance { of: from })
                &&& effects.rent@.contains(Rent::Instance)
            }
            &&& t.mint_step(after, to, amount, r) ==> {
                &&& effects.calls@.len() == 0
                &&& effects.events@ == seq![Event::Mint { to, amount }]
                &&& effects.rent@.contains(Rent::Balance { of: to })
                &&& effects.rent@.contains(Rent::Instance)
            }
            &&& t.approve_step(after, inv, from, spender, amount, expiration_ledger, r) ==> {
                &&& effects.calls@.len() == 0
                &&& effects.events@ == seq![
                    Event::Approve { from, spender, amount, expiration_ledger },
                ]
                &&& forall|ledgers: u32|
                    effects.rent@.contains(Rent::Allowance { from, spender, ledgers }) <==> amount
                        > 0 && ledgers > 0 && inv.sequence + ledgers == expiration_ledger
            }
        }),
{
    let rent = r->Ok_0.effects.rent@;
    if rent.len() >= 1 {
        assert(rent.contains(rent[0]));
    }
    if rent.len() >= 2 {
        assert(rent.contains(rent[1]));
    }
    if rent.len() >= 3 {
        assert(rent.contains(rent[2]));
    }
}

/// To pay is to move an amount that is covered from one balance to another, to
/// issue is to make it on one, and to retire is to destroy it on one that
/// covers it; each moves the supply by what it makes or destroys.
pub proof fn what_it_is_to_pay_issue_and_retire(
    t: Token,
    after: Token,
    from: Address,
    to: Address,
    amount: i128,
    other: Address,
)
    requires
        from != to,
        other != from && other != to,
    ensures
        t.pays(after, from, to, amount) ==> {
            &&& 0 <= amount <= held(t.balances@, from)
            &&& held(after.balances@, from) == held(t.balances@, from) - amount
            &&& held(after.balances@, to) == held(t.balances@, to) + amount
            &&& held(after.balances@, other) == held(t.balances@, other)
            &&& after.supply == t.supply
        },
        t.issues(after, to, amount) ==> {
            &&& amount >= 0
            &&& held(after.balances@, to) == held(t.balances@, to) + amount
            &&& held(after.balances@, other) == held(t.balances@, other)
            &&& after.supply == t.supply + amount
        },
        t.retires(after, from, amount) ==> {
            &&& 0 <= amount <= held(t.balances@, from)
            &&& held(after.balances@, from) == held(t.balances@, from) - amount
            &&& held(after.balances@, other) == held(t.balances@, other)
            &&& after.supply == t.supply - amount
        },
{
}

} // verus!
