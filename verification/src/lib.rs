//! The lifecycle and assignment engine of a gift-exchange game: an
//! organizer creates a game with a fixed roster of participants, and a
//! later begin transition — allowed at most once per game — pairs every
//! participant with a distinct recipient through a rotate-after-shuffle
//! derangement, commits the pairing atomically, and composes the
//! notification for each gifter.

pub mod data;
pub mod email;
pub mod engine;
pub mod lifecycle;
pub mod store;
