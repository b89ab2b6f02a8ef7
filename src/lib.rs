//! Select commits made since a template repository's head and publish them
//! back to the template as a branch.
//!
//! - `resolve`: the template's `owner/repo` from its URL, its baseline commit,
//!   and the branch names and pull-request URL derived from them.
//! - `collect`: the candidate commits, those authored after the baseline,
//!   oldest first.
//! - `selection` and `keys`: the interactive selection over the candidates.
//! - `publish`: the state machine that turns the selected commits into a
//!   branch on the baseline and pushes it.

pub mod collect;
pub mod commit;
pub mod keys;
pub mod publish;
pub mod resolve;
pub mod selection;
pub mod text;
pub mod timestamp;
