//! Who may ask for a bulk deletion.

use vstd::prelude::*;

verus! {

/// The capability to manage the messages of others, as a bit of a role's
/// permission set.
pub const MANAGE_MESSAGES: u64 = 0x2000;

/// The one who asks, by the roles that they hold. Each role is its
/// permission bits, or `None` where the role could not be looked up.
#[derive(Debug)]
pub struct Actor {
    pub roles: Vec<Option<u64>>,
}

/// A role grants a capability if it was found and holds every bit of it.
pub open spec fn grants(role: Option<u64>, capability: u64) -> bool {
    role matches Some(bits) && bits & capability == capability
}

/// Some role among `roles` grants the capability.
pub open spec fn authorized(roles: Seq<Option<u64>>, capability: u64) -> bool {
    exists|i: int| 0 <= i < roles.len() && grants(#[trigger] roles[i], capability)
}

/// Whether the actor holds a role that grants `required_capability`. A role
/// that could not be looked up grants nothing.
pub fn authorize(actor: &Actor, required_capability: u64) -> (ok: bool)
    ensures
        ok == authorized(actor.roles@, required_capability),
{
    let mut i: usize = 0;
    while i < actor.roles.len()
        invariant
            i <= actor.roles.len(),
            forall|k: int| 0 <= k < i ==> !grants(#[trigger] actor.roles@[k], required_capability),
        decreases actor.roles.len() - i,
    {
        match actor.roles[i] {
            Some(bits) => {
                if bits & required_capability == required_capability {
                    return true;
                }
            },
            None => {},
        }
        i += 1;
    }
    false
}

} // verus!
