//! What holds of the operations taken together.

use vstd::prelude::*;

use crate::boundary::decoded_state;
use crate::cbor::{cbor_decoding, cbor_encoding};
use crate::decoding::{lemma_state_read_back, tree_state};
use crate::encoding::state_tree;
use crate::error::{DecodeError, OperationError};
use crate::hashing::state_digest;
use crate::lifecycle::{lemma_member_has_position, lemma_member_position};
use crate::model::{lemma_view_has_fixed_widths, CircleState, CircleView, RecordView, Satoshis};
use crate::validation::{lemma_no_error_iff_valid, pool_of_round};

verus! {

impl CircleView {
    /// There is one round per member, the current round is not past the
    /// last, the payout position points at a member, the pool is the sum of
    /// the current round's contributions, and no member has two records for
    /// the same round.
    pub open spec fn counts_and_pool_agree(self) -> bool {
        &&& self.total_rounds == self.members.len()
        &&& self.current_round <= self.total_rounds
        &&& self.current_payout_index < self.members.len()
        &&& self.current_pool == pool_of_round(self.members, self.current_round)
        &&& self.one_record_per_round()
    }
}

/// Validation succeeds exactly when the counts and the pool agree. This is
/// so for every state but one in which they agree while some member's payout
/// round or some record's round or amount is out of range: such a state is
/// refused for that.
pub proof fn law_validation_succeeds_iff_counts_and_pool_agree(state: CircleState)
    requires
        state@.counts_and_pool_agree() ==> state@.payout_rounds_in_range()
            && state@.records_in_range(),
    ensures
        state@.validation_error() is None <==> state@.counts_and_pool_agree(),
{
    lemma_no_error_iff_valid(state@);
}

/// Once the first round is over nobody can join: whoever asks is refused
/// with `AlreadyStarted`.
pub proof fn law_no_member_after_start(state: CircleState, key: Seq<u8>, payout_round: u32)
    requires
        state.current_round > 0,
    ensures
        state@.add_member_error(key, payout_round) == Some(OperationError::AlreadyStarted),
{
}

/// After a member has contributed in a round, a second contribution of the
/// same member in that round is refused with `DuplicateContribution`,
/// whatever its amount; so the pool has grown by the amount exactly once.
pub proof fn law_one_contribution_per_round(
    state: CircleState,
    key: Seq<u8>,
    amount: Satoshis,
    timestamp: u64,
    txid: Seq<u8>,
    second_amount: Satoshis,
)
    requires
        state@.contribution_error(key, amount) is None,
    ensures
        ({
            let after = state@.with_contribution(
                state@.member_position(key),
                RecordView { round: state.current_round, amount, timestamp, txid },
            );
            &&& after.contribution_error(key, second_amount) == Some(
                OperationError::DuplicateContribution,
            )
            &&& after.current_pool == state.current_pool + amount
        }),
{
    let before = state@;
    let i: int = before.member_position(key);
    let record = RecordView { round: state.current_round, amount, timestamp, txid };
    let after = before.with_contribution(i, record);
    lemma_member_has_position(before, key);
    assert(after.is_first_member_with(key, i));
    lemma_member_position(after, key, i);
    let history = after.members[i].contribution_history;
    assert(history[history.len() - 1].round == state.current_round);
}

/// A state that is laid out as a CBOR item and read back is the state it
/// was, field by field.
pub proof fn law_state_reads_back(state: CircleState)
    ensures
        tree_state(state_tree(state@)) == Some(state@),
{
    lemma_view_has_fixed_widths(state);
    lemma_state_read_back(state@);
}

/// Whatever is read back from the item of a state has the digest of that
/// state.
pub proof fn law_state_read_back_keeps_digest(state: CircleState, decoded: CircleState)
    requires
        tree_state(state_tree(state@)) == Some(decoded@),
    ensures
        decoded@ == state@,
        state_digest(decoded@) == state_digest(state@),
{
    law_state_reads_back(state);
}

/// Where the decoder reads the encoder's bytes back as the item that was
/// written, decoding an encoded state gives the state.
pub proof fn law_encoded_state_decodes(state: CircleState, bytes: Seq<u8>)
    requires
        cbor_encoding(state_tree(state@)) == Some(bytes),
        cbor_decoding(bytes) == Some(state_tree(state@)),
    ensures
        decoded_state(bytes) == Ok::<CircleView, DecodeError>(state@),
{
    law_state_reads_back(state);
}

/// The digest depends on nothing but the fields of a state: two states
/// that agree in every field have the same digest.
pub proof fn law_digest_is_stable(a: CircleState, b: CircleState)
    requires
        a@ == b@,
    ensures
        state_digest(a@) == state_digest(b@),
{
}

/// Two states that differ in a field are laid out as different items, so
/// different bytes go into their digests.
pub proof fn law_layout_tells_states_apart(a: CircleState, b: CircleState)
    requires
        a@ != b@,
    ensures
        state_tree(a@) != state_tree(b@),
{
    law_state_reads_back(a);
    law_state_reads_back(b);
}

/// A contribution that is accepted leads to a state that may follow.
pub proof fn law_contribution_is_a_transition(
    state: CircleState,
    key: Seq<u8>,
    amount: Satoshis,
    timestamp: u64,
    txid: Seq<u8>,
)
    requires
        state@.contribution_error(key, amount) is None,
    ensures
        state@.transition_error(
            state@.with_contribution(
                state@.member_position(key),
                RecordView { round: state.current_round, amount, timestamp, txid },
            ),
        ) is None,
{
    lemma_member_has_position(state@, key);
}

/// A payout that is made leads to a state that may follow.
pub proof fn law_payout_is_a_transition(state: CircleState, timestamp: u64)
    requires
        state@.payout_error() is None,
    ensures
        state@.transition_error(state@.after_payout(timestamp)) is None,
{
}

/// A member that is admitted leads to a state that may follow.
pub proof fn law_new_member_is_a_transition(
    state: CircleState,
    key: Seq<u8>,
    payout_round: u32,
    timestamp: u64,
)
    requires
        state@.add_member_error(key, payout_round) is None,
    ensures
        state@.transition_error(state@.with_member(key, payout_round, timestamp)) is None,
{
}

} // verus!
