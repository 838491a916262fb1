//! Laws of the admin role.

use crate::address::Address;
use crate::host::Invocation;
use crate::role::{Role, RoleRefusal};
use vstd::prelude::*;

verus! {

/// To act as admin takes to be the admin and to have signed. Whoever is not
/// the admin is told so, signed or not.
pub proof fn the_admin_acts_with_its_signature(role: Role, inv: Invocation, who: Address)
    ensures
        role.require_refusal(inv, who) is None <==> role.admin == Some(who)
            && inv.signers@.contains(who),
        role.require_refusal(inv, who) == Some(RoleRefusal::Unset) <==> role.admin is None,
        role.require_refusal(inv, who) == Some(RoleRefusal::NotAdmin) <==> role.admin is Some
            && role.admin != Some(who),
        role.require_refusal(inv, who) == Some(RoleRefusal::Unauthorized) <==> role.admin == Some(
            who,
        ) && !inv.signers@.contains(who),
{
}

/// To take the role over takes to be the one it was offered to and to have
/// signed.
pub proof fn the_role_is_taken_by_the_one_it_is_offered_to(
    role: Role,
    inv: Invocation,
    who: Address,
)
    ensures
        role.accept_refusal(inv, who) is None <==> role.pending == Some(who)
            && inv.signers@.contains(who),
        role.accept_refusal(inv, who) == Some(RoleRefusal::NoPending) <==> role.pending is None,
        role.accept_refusal(inv, who) == Some(RoleRefusal::NotPending) <==> role.pending is Some
            && role.pending != Some(who),
        role.accept_refusal(inv, who) == Some(RoleRefusal::Unauthorized) <==> role.pending == Some(
            who,
        ) && !inv.signers@.contains(who),
{
}

/// An offer changes nothing but who it is made to, and an acceptance leaves no
/// offer standing.
pub proof fn an_offer_moves_nothing_until_it_is_taken(role: Role, next: Address)
    ensures
        role.proposed(next).admin == role.admin,
        role.proposed(next).pending == Some(next),
        role.accepted(next).admin == Some(next),
        role.accepted(next).pending is None,
{
}

} // verus!
