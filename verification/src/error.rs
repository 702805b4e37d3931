//! Why an operation, a validation or a decoding was refused.

use vstd::prelude::*;

use crate::model::Satoshis;

verus! {

/// Why a lifecycle operation left the state untouched.
#[derive(Debug, Clone, Copy, PartialEq, Eq, Structural)]
pub enum OperationError {
    /// Members can join only before the first payout.
    AlreadyStarted,
    /// The key is already a member.
    DuplicateMember,
    /// The asked payout round lies beyond the round the new member adds.
    InvalidPayoutRound,
    /// The circle has run all its rounds.
    CircleComplete,
    /// No member has the key.
    MemberNotFound,
    /// The member has already contributed in the current round.
    DuplicateContribution,
    /// The amount is not the circle's contribution per round.
    AmountMismatch { expected: Satoshis, actual: Satoshis },
    /// Some member has not contributed in the current round.
    RoundNotFunded,
    /// The member whose turn it is has been paid before.
    AlreadyPaid,
    /// The payout position points at no member.
    InvalidIndex,
    /// Nothing else stands against the operation, but the number of rounds,
    /// the round or the pool would leave the range of its field.
    OutOfRange,
}

/// The first rule that a state breaks, in the order in which the rules are
/// checked. `member` and `record` are positions in `members` and in that
/// member's `contribution_history`.
#[derive(Debug, Clone, Copy, PartialEq, Eq, Structural)]
pub enum ValidationError {
    NoMembers,
    TotalRoundsMismatch { total_rounds: u32, members: usize },
    RoundOutOfRange { current_round: u32, total_rounds: u32 },
    PayoutIndexOutOfRange { index: usize, members: usize },
    InvalidPayoutRound { member: usize },
    /// Marked as paid although the member's round has not come yet.
    PaidBeforeRound { member: usize },
    InvalidContributionRound { member: usize, record: usize },
    InvalidContributionAmount { member: usize, record: usize },
    /// An earlier record of the same member has the same round.
    DuplicateContribution { member: usize, record: usize },
    PoolMismatch { expected: u128, actual: Satoshis },
}

/// Why one state cannot follow another.
#[derive(Debug, Clone, Copy, PartialEq, Eq, Structural)]
pub enum TransitionError {
    CircleIdMismatch,
    /// The circle has started and the number of members differs.
    MemberCountChanged,
    /// The round neither stays nor advances by one.
    InvalidRoundProgression,
    /// The round stays and the pool shrinks.
    PoolDecreased,
    /// The round advances and the pool is not empty.
    PoolNotReset,
}

/// Why bytes were not read as a circle state.
#[derive(Debug, Clone, Copy, PartialEq, Eq, Structural)]
pub enum DecodeError {
    /// The bytes do not hold one CBOR item.
    Malformed,
    /// The item is not laid out as a circle state.
    NotACircleState,
}

/// Why an operation on an encoded state gave no new encoded state.
#[derive(Debug, Clone, Copy, PartialEq, Eq, Structural)]
pub enum ApplyError {
    /// The bytes were not read as a circle state.
    Decode(DecodeError),
    /// The operation was refused.
    Operation(OperationError),
    /// The encoder reported an error on the new state.
    Encode,
}

} // verus!
