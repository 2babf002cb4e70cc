//! The authorization check: who may see or change whose data.

use vstd::prelude::*;

use crate::store::User;

verus! {

/// The one privilege rule: a teacher may act on anyone's data, anyone else
/// only on their own.
pub open spec fn can_view_spec(actor: User, target: User) -> bool {
    actor.is_teacher || actor.id == target.id
}

/// Whether `actor` is allowed to see or modify `target`'s resources.
pub fn can_view(actor: &User, target: &User) -> (r: bool)
    ensures
        r == can_view_spec(*actor, *target),
{
    actor.is_teacher || actor.id == target.id
}

} // verus!
