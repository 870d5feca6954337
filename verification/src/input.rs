//! The application's input-action vocabulary.
//!
//! The core machinery — events, bus, registry — is generic over the
//! action enumeration; this is the concrete set the game maps its keys
//! to. Key polling and key-to-action mapping themselves live with the
//! windowing collaborator, outside this core.

use vstd::prelude::*;

verus! {

/// The actions the game's default key map produces.
#[derive(Clone, Copy, PartialEq, Eq, Structural, Hash, Debug)]
pub enum Action {
    MoveForward,
    MoveBackward,
    MoveLeft,
    MoveRight,
}

} // verus!
