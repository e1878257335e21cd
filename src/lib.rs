//! State and distribution engine of a UDP position relay for a 2D game.
//!
//! `protocol` holds the messages exchanged with clients, `relay` the shared
//! game state (player registry, id allocator, bounded queue) together with the
//! decisions of the ingress and flush loops, and `guarantees` what holds of
//! every run of them.
pub mod protocol;
pub mod relay;
pub mod guarantees;
