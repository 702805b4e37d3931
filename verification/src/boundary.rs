//! Operations on states as bytes: one encoded state comes in, exactly one
//! operation is applied, and the new state goes out encoded again.

use vstd::prelude::*;

use crate::cbor::{cbor_decoding, cbor_encoding, CborValue};
use crate::decoding::tree_state;
use crate::encoding::state_tree;
use crate::error::{ApplyError, DecodeError};
use crate::model::{CircleState, CircleView, PubKey, RecordView, Satoshis};

verus! {

/// The state that the bytes hold, or why they hold none.
pub open spec fn decoded_state(bytes: Seq<u8>) -> Result<CircleView, DecodeError> {
    match cbor_decoding(bytes) {
        None => Err(DecodeError::Malformed),
        Some(tree) => match tree_state(tree) {
            None => Err(DecodeError::NotACircleState),
            Some(state) => Ok(state),
        },
    }
}

/// The encoding of a state, or the error that stands for none.
pub open spec fn encoded_state(state: CircleView) -> Result<Seq<u8>, ApplyError> {
    match cbor_encoding(state_tree(state)) {
        Some(bytes) => Ok(bytes),
        None => Err(ApplyError::Encode),
    }
}

/// What admitting a member to an encoded state gives.
pub open spec fn applied_add_member(
    bytes: Seq<u8>,
    key: Seq<u8>,
    payout_round: u32,
    timestamp: u64,
) -> Result<Seq<u8>, ApplyError> {
    match decoded_state(bytes) {
        Err(e) => Err(ApplyError::Decode(e)),
        Ok(state) => match state.add_member_error(key, payout_round) {
            Some(e) => Err(ApplyError::Operation(e)),
            None => encoded_state(state.with_member(key, payout_round, timestamp)),
        },
    }
}

/// What recording a contribution in an encoded state gives.
pub open spec fn applied_record_contribution(
    bytes: Seq<u8>,
    key: Seq<u8>,
    amount: Satoshis,
    timestamp: u64,
    txid: Seq<u8>,
) -> Result<Seq<u8>, ApplyError> {
    match decoded_state(bytes) {
        Err(e) => Err(ApplyError::Decode(e)),
        Ok(state) => match state.contribution_error(key, amount) {
            Some(e) => Err(ApplyError::Operation(e)),
            None => encoded_state(
                state.with_contribution(
                    state.member_position(key),
                    RecordView { round: state.current_round, amount, timestamp, txid },
                ),
            ),
        },
    }
}

/// Whether the bytes returned are the ones the specification gives.
pub open spec fn same_outcome(result: Result<Vec<u8>, ApplyError>, expected: Result<
    Seq<u8>,
    ApplyError,
>) -> bool {
    match expected {
        Ok(bytes) => result is Ok && result->Ok_0@ == bytes,
        Err(e) => result is Err && result->Err_0 == e,
    }
}

impl CircleState {
    /// The state as CBOR bytes, or `None` where the encoder reports an error.
    pub fn encode(&self) -> (bytes: Option<Vec<u8>>)
        ensures
            match bytes {
                Some(b) => cbor_encoding(state_tree(self@)) == Some(b@),
                None => cbor_encoding(state_tree(self@)) is None,
            },
    {
        self.to_cbor().to_bytes()
    }

    /// The state that the bytes hold. Bytes that hold no CBOR item are
    /// refused as malformed, and an item that is not laid out as a circle
    /// state is refused as such.
    pub fn decode(bytes: &[u8]) -> (result: Result<CircleState, DecodeError>)
        ensures
            match decoded_state(bytes@) {
                Ok(s) => result is Ok && result->Ok_0@ == s,
                Err(e) => result is Err && result->Err_0 == e,
            },
    {
        match CborValue::from_bytes(bytes) {
            Some(value) => CircleState::from_cbor(&value),
            None => Err(DecodeError::Malformed),
        }
    }
}

/// A new circle whose creator is its first member, to be paid in round 0.
pub fn create_circle(
    circle_id: [u8; 32],
    contribution_per_round: Satoshis,
    round_duration: u64,
    created_at: u64,
    creator: PubKey,
) -> (state: CircleState)
    ensures
        state@ == (CircleView {
            circle_id: circle_id@,
            members: Seq::empty(),
            current_round: 0,
            total_rounds: 0,
            contribution_per_round,
            current_payout_index: 0,
            current_pool: 0,
            created_at,
            round_started_at: created_at,
            round_duration,
            is_complete: false,
            prev_state_hash: Seq::new(32, |k: int| 0u8),
        }).with_member(creator@, 0, created_at),
{
    let mut state =
        CircleState::new(circle_id, contribution_per_round, round_duration, created_at);
    let _ = state.add_member(creator, 0, created_at);
    state
}

/// Admits a member to an encoded state and encodes the result. The bytes
/// are decoded, the member is admitted as `add_member` does it, and the new
/// state is encoded; whatever fails first is reported.
pub fn apply_add_member(
    state_bytes: &[u8],
    pubkey: PubKey,
    payout_round: u32,
    timestamp: u64,
) -> (result: Result<Vec<u8>, ApplyError>)
    ensures
        same_outcome(result, applied_add_member(state_bytes@, pubkey@, payout_round, timestamp)),
{
    let mut state = match CircleState::decode(state_bytes) {
        Ok(state) => state,
        Err(e) => {
            return Err(ApplyError::Decode(e));
        },
    };
    match state.add_member(pubkey, payout_round, timestamp) {
        Err(e) => {
            return Err(ApplyError::Operation(e));
        },
        Ok(()) => {},
    }
    match state.encode() {
        Some(bytes) => Ok(bytes),
        None => Err(ApplyError::Encode),
    }
}

/// Records a contribution in an encoded state and encodes the result. The
/// bytes are decoded, the contribution is recorded as `record_contribution`
/// does it, and the new state is encoded; whatever fails first is reported.
pub fn apply_record_contribution(
    state_bytes: &[u8],
    pubkey: &PubKey,
    amount: Satoshis,
    timestamp: u64,
    txid: [u8; 32],
) -> (result: Result<Vec<u8>, ApplyError>)
    ensures
        same_outcome(
            result,
            applied_record_contribution(state_bytes@, pubkey@, amount, timestamp, txid@),
        ),
{
    let mut state = match CircleState::decode(state_bytes) {
        Ok(state) => state,
        Err(e) => {
            return Err(ApplyError::Decode(e));
        },
    };
    match state.record_contribution(pubkey, amount, timestamp, txid) {
        Err(e) => {
            return Err(ApplyError::Operation(e));
        },
        Ok(()) => {},
    }
    match state.encode() {
        Some(bytes) => Ok(bytes),
        None => Err(ApplyError::Encode),
    }
}

} // verus!
