//! Clean names for media files.
//!
//! A file name is matched against the television or the movie pattern, cut
//! into the segments worth keeping, tidied and put together again; a rename
//! is proposed only where the result differs from the name the file has.
//!
//! * [`text`] holds the vocabulary on character sequences that the rest is
//!   stated in.
//! * [`boundary`] is where the regular-expression engine and std are taken on
//!   trust.
//! * [`matcher`] turns the engine's captures into a [`matcher::MatchResult`].
//! * [`transform`] derives the new name from a match.
//! * [`plan`] decides whether a file gets a rename action.
//! * [`session`] holds the decisions of a run: preview, confirm or rename.

pub mod boundary;
pub mod matcher;
pub mod plan;
pub mod session;
pub mod text;
pub mod transform;
