//! The actions a user is allowed to perform, and their total order.

use vstd::prelude::*;

verus! {

/// The actions a user is allowed to perform, ordered from least to most
/// powerful: `Deny < Read < Modify < Admin`.
#[derive(Clone, Copy, Debug, PartialEq, Eq, Structural)]
pub enum Action {
    Deny,
    Read,
    Modify,
    Admin,
}

impl Action {
    /// The position of this action in the total order.
    pub open spec fn rank(self) -> int {
        match self {
            Action::Deny => 0,
            Action::Read => 1,
            Action::Modify => 2,
            Action::Admin => 3,
        }
    }

    /// Whether this action grants at least the level of `required`.
    pub fn allows(self, required: Action) -> (b: bool)
        ensures
            b == (self.rank() >= required.rank()),
    {
        let own: u8 = match self {
            Action::Deny => 0,
            Action::Read => 1,
            Action::Modify => 2,
            Action::Admin => 3,
        };
        let req: u8 = match required {
            Action::Deny => 0,
            Action::Read => 1,
            Action::Modify => 2,
            Action::Admin => 3,
        };
        own >= req
    }

    /// The lowercase name the action is persisted and displayed under.
    pub fn name(&self) -> (s: &'static str)
        ensures
            self is Deny ==> s@ == "deny"@,
            self is Read ==> s@ == "read"@,
            self is Modify ==> s@ == "modify"@,
            self is Admin ==> s@ == "admin"@,
    {
        match self {
            Action::Deny => "deny",
            Action::Read => "read",
            Action::Modify => "modify",
            Action::Admin => "admin",
        }
    }
}

/// The four actions stand in one strict chain, and `allows` is exactly the
/// reflexive order induced by it.
pub proof fn lemma_action_total_order()
    ensures
        Action::Deny.rank() < Action::Read.rank() < Action::Modify.rank() < Action::Admin.rank(),
        forall|a: Action, b: Action| a.rank() >= b.rank() || b.rank() >= a.rank(),
        forall|a: Action, b: Action| a.rank() == b.rank() ==> a == b,
{
    assert forall|a: Action, b: Action| a.rank() == b.rank() implies a == b by {
        match a {
            Action::Deny => {}
            Action::Read => {}
            Action::Modify => {}
            Action::Admin => {}
        }
    }
}

} // verus!
