//! The admin role, and its handover in two steps.

use crate::address::Address;
use crate::host::Invocation;
use vstd::prelude::*;

verus! {

/// Who administers a contract, and who has been offered the role.
#[derive(Clone, Copy, Debug, PartialEq, Eq, Structural)]
pub struct Role {
    pub admin: Option<Address>,
    pub pending: Option<Address>,
}

/// Why a call on the role is refused.
#[derive(Clone, Copy, Debug, PartialEq, Eq, Structural)]
pub enum RoleRefusal {
    /// The contract has no admin yet.
    Unset,
    /// The address is not the admin.
    NotAdmin,
    /// No handover is in flight.
    NoPending,
    /// The address is not the one proposed.
    NotPending,
    /// The address did not authorize the call.
    Unauthorized,
}

impl Role {
    /// Nobody holds the role.
    pub fn vacant() -> (r: Role)
        ensures
            r == (Role { admin: None, pending: None }),
    {
        Role { admin: None, pending: None }
    }

    /// Why `who` may not act as admin.
    pub open spec fn require_refusal(self, inv: Invocation, who: Address) -> Option<RoleRefusal> {
        match self.admin {
            None => Some(RoleRefusal::Unset),
            Some(admin) => if admin != who {
                Some(RoleRefusal::NotAdmin)
            } else if !inv.signed(who) {
                Some(RoleRefusal::Unauthorized)
            } else {
                None
            },
        }
    }

    /// Checks that `who` is the admin and authorized the call.
    pub fn require(&self, inv: &Invocation, who: Address) -> (r: Result<(), RoleRefusal>)
        ensures
            match r {
                Ok(_) => self.require_refusal(*inv, who) is None,
                Err(e) => self.require_refusal(*inv, who) == Some(e),
            },
    {
        match self.admin {
            None => Err(RoleRefusal::Unset),
            Some(admin) => if admin != who {
                Err(RoleRefusal::NotAdmin)
            } else if !inv.authorized(who) {
                Err(RoleRefusal::Unauthorized)
            } else {
                Ok(())
            },
        }
    }

    /// Why `who` may not take the role over.
    pub open spec fn accept_refusal(self, inv: Invocation, who: Address) -> Option<RoleRefusal> {
        match self.pending {
            None => Some(RoleRefusal::NoPending),
            Some(pending) => if pending != who {
                Some(RoleRefusal::NotPending)
            } else if !inv.signed(who) {
                Some(RoleRefusal::Unauthorized)
            } else {
                None
            },
        }
    }

    /// Checks that `who` is the proposed admin and authorized the call.
    pub fn require_pending(&self, inv: &Invocation, who: Address) -> (r: Result<(), RoleRefusal>)
        ensures
            match r {
                Ok(_) => self.accept_refusal(*inv, who) is None,
                Err(e) => self.accept_refusal(*inv, who) == Some(e),
            },
    {
        match self.pending {
            None => Err(RoleRefusal::NoPending),
            Some(pending) => if pending != who {
                Err(RoleRefusal::NotPending)
            } else if !inv.authorized(who) {
                Err(RoleRefusal::Unauthorized)
            } else {
                Ok(())
            },
        }
    }

    /// The role once `next` has been proposed.
    pub open spec fn proposed(self, next: Address) -> Role {
        Role { admin: self.admin, pending: Some(next) }
    }

    /// The role once `next` has accepted it.
    pub open spec fn accepted(self, next: Address) -> Role {
        Role { admin: Some(next), pending: None }
    }
}

/// The role reaches a new address only if the admin of the day signed the
/// proposal and the new address signed the acceptance; whoever is proposed,
/// nobody else can accept.
pub proof fn a_handover_takes_both_signatures(
    role: Role,
    proposing: Invocation,
    admin: Address,
    next: Address,
    accepting: Invocation,
    who: Address,
)
    requires
        role.require_refusal(proposing, admin) is None,
        role.proposed(next).accept_refusal(accepting, who) is None,
    ensures
        role.admin == Some(admin),
        proposing.signed(admin),
        who == next,
        accepting.signed(next),
        role.proposed(next).admin == role.admin,
        role.proposed(next).accepted(who) == (Role { admin: Some(next), pending: None }),
{
}

/// A proposal replaces any earlier one, and an admin that proposes itself has
/// withdrawn whatever it proposed before.
pub proof fn the_last_proposal_counts(role: Role, admin: Address, first: Address, last: Address)
    requires
        role.admin == Some(admin),
    ensures
        role.proposed(first).proposed(last) == role.proposed(last),
        role.proposed(first).proposed(admin).accepted(admin).admin == role.admin,
{
}

} // verus!
