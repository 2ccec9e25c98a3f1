//! What the number an event is registered under stands for.
use vstd::prelude::*;
use crate::structure::entity_id::EntityId;

verus! {

/// The first number the event loop keeps for its own events.
pub const PTB: usize = 0x40;

/// The number an event was registered under, told apart: one of the event
/// loop's own (from `PTB` to `PTB + 0x3f`), or an entity's identifier
/// packed into a number.
pub enum TokenDec {
    ReservedToken(usize),
    Entity(EntityId),
}

impl TokenDec {
    /// Tells the event loop's own numbers from entities.
    pub fn decode(token: usize) -> (d: TokenDec)
        ensures
            (PTB <= token < PTB + 0x40) ==> d == TokenDec::ReservedToken(token),
            !(PTB <= token < PTB + 0x40) ==> d == TokenDec::Entity(EntityId::spec_from_usize(token as int)),
    {
        if PTB <= token && token < PTB + 0x40 {
            TokenDec::ReservedToken(token)
        } else {
            TokenDec::Entity(EntityId::from_usize(token))
        }
    }
}

} // verus!
