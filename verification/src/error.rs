//! Why an operation was refused.

use vstd::prelude::*;

verus! {

/// The ways in which an operation can fail. Whatever the variant, the
/// operation has changed nothing.
#[derive(Clone, Copy, Debug, PartialEq, Eq, Structural)]
pub enum ErrorCode {
    /// The record at the target address is active: its token is live.
    AlreadyMinted,
    /// The identity is already listed in the registry, for whatever address
    /// and whether or not its token is still live.
    DuplicateIdentity,
    /// A vote was cast before the poll opened.
    VotingNotStarted,
    /// A vote was cast after the poll closed.
    VotingEnded,
    /// The token service failed; the code is the one it reported, passed on
    /// unread.
    TokenService(u64),
}

} // verus!
