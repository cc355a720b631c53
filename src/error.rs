//! The ways an operation of the engine can refuse to act.
use vstd::prelude::*;

verus! {

#[derive(Debug)]
pub enum GameError {
    /// No object is observable right now; the game goes on.
    NothingToObserve,
    /// An observation was recorded for an object that is not observable, or
    /// was already observed.
    PreconditionError,
    /// The operating system supplied no randomness to seed the game with.
    NoEntropy,
    /// The catalog holds no item under this key.
    UnknownKey(String),
}

} // verus!
