//! Laws of calls between contracts.

use crate::address::Address;
use crate::host::{Call, Event, Invocation, Receipt, Rent};
use vstd::prelude::*;

verus! {

/// A call that a contract makes carries the contract's own authorization with
/// those it was given, and no other, at the same time on the same ledger.
pub proof fn a_call_carries_its_callers_signature(
    inv: Invocation,
    n: Invocation,
    callee: Address,
    who: Address,
)
    requires
        inv.opens(n, callee),
    ensures
        n.contract == callee,
        n.signed(inv.contract),
        n.signed(who) <==> who == inv.contract || inv.signers@.contains(who),
        inv.signed(who) <==> inv.signers@.contains(who),
        n.timestamp == inv.timestamp,
        n.sequence == inv.sequence,
{
    let k = inv.signers@.len() as int;
    assert(n.signers@[k] == inv.contract);
    if inv.signers@.contains(who) {
        let i = choose|i: int| 0 <= i < inv.signers@.len() && inv.signers@[i] == who;
        assert(n.signers@[i] == who);
    }
    if n.signers@.contains(who) && who != inv.contract {
        let i = choose|i: int| 0 <= i < n.signers@.len() && n.signers@[i] == who;
        assert(inv.signers@[i] == who);
    }
}

/// A receipt gives one value, and one list each of calls, events and rent.
pub proof fn a_receipt_gives_one_thing<T>(
    d: Receipt<T>,
    value: T,
    calls: Seq<Call>,
    events: Seq<Event>,
    rent: Seq<Rent>,
)
    requires
        d.gives(value, calls, events, rent),
    ensures
        d.value == value,
        d.effects.calls@ == calls,
        d.effects.events@ == events,
        d.effects.rent@ == rent,
{
}

} // verus!
