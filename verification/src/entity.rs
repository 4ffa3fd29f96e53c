use vstd::prelude::*;
use bevy::ecs::entity::Entity;

verus! {

/// The engine's handle of an entity. The library carries such handles and
/// tells them apart; what a handle holds stays with the engine.
#[verifier::external_type_specification]
#[verifier::external_body]
pub struct ExEntity(Entity);

/// Whether two handles name the same entity. This is the equality of
/// `bevy::ecs::entity::Entity`, which the engine derives: it compares the
/// generation and the index that make up a handle, so that two handles are
/// equal exactly if they are the same value.
#[verifier::external_body]
pub(crate) fn same_entity(a: Entity, b: Entity) -> (same: bool)
    ensures
        same == (a == b),
{
    a == b
}

} // verus!
