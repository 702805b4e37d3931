//! How a circle state is laid out as a CBOR item: every struct is a map from
//! its field names to its fields, in the order of declaration, and every
//! byte string is an array of small integers.

use vstd::prelude::*;

use crate::cbor::{lemma_array_view, lemma_dict_view, CborTree, CborValue};
use crate::model::{
    CircleState, CircleView, ContributionRecord, Member, MemberView, RecordView,
};

verus! {

/// Bytes as an array of integers.
pub open spec fn bytes_tree(bytes: Seq<u8>) -> CborTree {
    CborTree::Array(bytes.map_values(|b: u8| CborTree::Unsigned(b as u64)))
}

/// A contribution record as a map of its four fields.
pub open spec fn record_tree(record: RecordView) -> CborTree {
    CborTree::Dict(
        seq![
            (CborTree::Text("round"@), CborTree::Unsigned(record.round as u64)),
            (CborTree::Text("amount"@), CborTree::Unsigned(record.amount)),
            (CborTree::Text("timestamp"@), CborTree::Unsigned(record.timestamp)),
            (CborTree::Text("txid"@), bytes_tree(record.txid)),
        ],
    )
}

/// A member as a map of its six fields.
pub open spec fn member_tree(member: MemberView) -> CborTree {
    CborTree::Dict(
        seq![
            (CborTree::Text("pubkey"@), bytes_tree(member.pubkey)),
            (
                CborTree::Text("contribution_amount"@),
                CborTree::Unsigned(member.contribution_amount),
            ),
            (
                CborTree::Text("contribution_history"@),
                CborTree::Array(
                    member.contribution_history.map_values(|r: RecordView| record_tree(r)),
                ),
            ),
            (CborTree::Text("has_received_payout"@), CborTree::Bool(member.has_received_payout)),
            (CborTree::Text("payout_round"@), CborTree::Unsigned(member.payout_round as u64)),
            (CborTree::Text("joined_at"@), CborTree::Unsigned(member.joined_at)),
        ],
    )
}

/// A circle state as a map of its twelve fields.
pub open spec fn state_tree(state: CircleView) -> CborTree {
    CborTree::Dict(
        seq![
            (CborTree::Text("circle_id"@), bytes_tree(state.circle_id)),
            (
                CborTree::Text("members"@),
                CborTree::Array(state.members.map_values(|m: MemberView| member_tree(m))),
            ),
            (CborTree::Text("current_round"@), CborTree::Unsigned(state.current_round as u64)),
            (CborTree::Text("total_rounds"@), CborTree::Unsigned(state.total_rounds as u64)),
            (
                CborTree::Text("contribution_per_round"@),
                CborTree::Unsigned(state.contribution_per_round),
            ),
            (
                CborTree::Text("current_payout_index"@),
                CborTree::Unsigned(state.current_payout_index as u64),
            ),
            (CborTree::Text("current_pool"@), CborTree::Unsigned(state.current_pool)),
            (CborTree::Text("created_at"@), CborTree::Unsigned(state.created_at)),
            (CborTree::Text("round_started_at"@), CborTree::Unsigned(state.round_started_at)),
            (CborTree::Text("round_duration"@), CborTree::Unsigned(state.round_duration)),
            (CborTree::Text("is_complete"@), CborTree::Bool(state.is_complete)),
            (CborTree::Text("prev_state_hash"@), bytes_tree(state.prev_state_hash)),
        ],
    )
}

fn text_value(text: &str) -> (value: CborValue)
    ensures
        value@ == CborTree::Text(text@),
{
    CborValue::Text(text.to_owned())
}

fn bytes_value(bytes: &[u8]) -> (value: CborValue)
    ensures
        value@ == bytes_tree(bytes@),
{
    let mut items: Vec<CborValue> = Vec::new();
    let mut k: usize = 0;
    while k < bytes.len()
        invariant
            0 <= k <= bytes.len(),
            items@.len() == k,
            forall|e: int|
                0 <= e < k ==> (#[trigger] items@[e])@ == CborTree::Unsigned(bytes@[e] as u64),
        decreases bytes.len() - k,
    {
        items.push(CborValue::Unsigned(bytes[k] as u64));
        k += 1;
    }
    proof {
        lemma_array_view(items, bytes@.map_values(|b: u8| CborTree::Unsigned(b as u64)));
    }
    CborValue::Array(items)
}

impl ContributionRecord {
    /// The record as a CBOR item.
    pub fn to_cbor(&self) -> (value: CborValue)
        ensures
            value@ == record_tree(self@),
    {
        let mut entries: Vec<(CborValue, CborValue)> = Vec::new();
        entries.push((text_value("round"), CborValue::Unsigned(self.round as u64)));
        entries.push((text_value("amount"), CborValue::Unsigned(self.amount)));
        entries.push((text_value("timestamp"), CborValue::Unsigned(self.timestamp)));
        entries.push((text_value("txid"), bytes_value(self.txid.as_slice())));
        proof {
            lemma_dict_view(entries, record_tree(self@)->Dict_0);
        }
        CborValue::Dict(entries)
    }
}

impl Member {
    /// The member as a CBOR item.
    pub fn to_cbor(&self) -> (value: CborValue)
        ensures
            value@ == member_tree(self@),
    {
        let mut records: Vec<CborValue> = Vec::new();
        let mut k: usize = 0;
        while k < self.contribution_history.len()
            invariant
                0 <= k <= self.contribution_history.len(),
                records@.len() == k,
                forall|e: int|
                    0 <= e < k ==> (#[trigger] records@[e])@ == record_tree(
                        self.contribution_history@[e]@,
                    ),
            decreases self.contribution_history.len() - k,
        {
            records.push(self.contribution_history[k].to_cbor());
            k += 1;
        }
        proof {
            lemma_array_view(
                records,
                self@.contribution_history.map_values(|r: RecordView| record_tree(r)),
            );
        }
        let mut entries: Vec<(CborValue, CborValue)> = Vec::new();
        entries.push((text_value("pubkey"), bytes_value(self.pubkey.as_bytes())));
        entries.push(
            (text_value("contribution_amount"), CborValue::Unsigned(self.contribution_amount)),
        );
        entries.push((text_value("contribution_history"), CborValue::Array(records)));
        entries.push(
            (text_value("has_received_payout"), CborValue::Bool(self.has_received_payout)),
        );
        entries.push((text_value("payout_round"), CborValue::Unsigned(self.payout_round as u64)));
        entries.push((text_value("joined_at"), CborValue::Unsigned(self.joined_at)));
        proof {
            lemma_dict_view(entries, member_tree(self@)->Dict_0);
        }
        CborValue::Dict(entries)
    }
}

impl CircleState {
    /// The state as a CBOR item.
    pub fn to_cbor(&self) -> (value: CborValue)
        ensures
            value@ == state_tree(self@),
    {
        let mut members: Vec<CborValue> = Vec::new();
        let mut k: usize = 0;
        while k < self.members.len()
            invariant
                0 <= k <= self.members.len(),
                members@.len() == k,
                forall|e: int|
                    0 <= e < k ==> (#[trigger] members@[e])@ == member_tree(self.members@[e]@),
            decreases self.members.len() - k,
        {
            members.push(self.members[k].to_cbor());
            k += 1;
        }
        proof {
            lemma_array_view(members, self@.members.map_values(|m: MemberView| member_tree(m)));
        }
        let mut entries: Vec<(CborValue, CborValue)> = Vec::new();
        entries.push((text_value("circle_id"), bytes_value(self.circle_id.as_slice())));
        entries.push((text_value("members"), CborValue::Array(members)));
        entries.push((text_value("current_round"), CborValue::Unsigned(self.current_round as u64)));
        entries.push((text_value("total_rounds"), CborValue::Unsigned(self.total_rounds as u64)));
        entries.push(
            (
                text_value("contribution_per_round"),
                CborValue::Unsigned(self.contribution_per_round),
            ),
        );
        entries.push(
            (
                text_value("current_payout_index"),
                CborValue::Unsigned(self.current_payout_index as u64),
            ),
        );
        entries.push((text_value("current_pool"), CborValue::Unsigned(self.current_pool)));
        entries.push((text_value("created_at"), CborValue::Unsigned(self.created_at)));
        entries.push((text_value("round_started_at"), CborValue::Unsigned(self.round_started_at)));
        entries.push((text_value("round_duration"), CborValue::Unsigned(self.round_duration)));
        entries.push((text_value("is_complete"), CborValue::Bool(self.is_complete)));
        entries.push((text_value("prev_state_hash"), bytes_value(self.prev_state_hash.as_slice())));
        proof {
            lemma_dict_view(entries, state_tree(self@)->Dict_0);
        }
        CborValue::Dict(entries)
    }
}

} // verus!
