//! Reading a circle state back from its CBOR item. An item is a circle state
//! only if it is laid out exactly as `state_tree` lays one out: the same
//! keys in the same order, integers within the range of their field, byte
//! strings of the right length.

use vstd::prelude::*;

use crate::cbor::{
    entries_view, items_view, lemma_array_view, lemma_dict_view, CborTree, CborValue,
};
use crate::error::DecodeError;
use crate::encoding::{bytes_tree, member_tree, record_tree, state_tree};
use crate::model::{
    CircleState, CircleView, ContributionRecord, Member, MemberView, PubKey, RecordView,
};

verus! {

/// The integer that an item stands for.
pub open spec fn tree_u64(tree: CborTree) -> Option<u64> {
    match tree {
        CborTree::Unsigned(n) => Some(n),
        _ => None,
    }
}

/// The integer that an item stands for, where it fits 32 bits.
pub open spec fn tree_u32(tree: CborTree) -> Option<u32> {
    match tree {
        CborTree::Unsigned(n) => if n <= u32::MAX {
            Some(n as u32)
        } else {
            None
        },
        _ => None,
    }
}

/// The position that an item stands for, where it fits a `usize`.
pub open spec fn tree_index(tree: CborTree) -> Option<usize> {
    match tree {
        CborTree::Unsigned(n) => if n <= usize::MAX {
            Some(n as usize)
        } else {
            None
        },
        _ => None,
    }
}

/// The boolean that an item stands for.
pub open spec fn tree_bool(tree: CborTree) -> Option<bool> {
    match tree {
        CborTree::Bool(b) => Some(b),
        _ => None,
    }
}

/// The byte that an item stands for, where it fits 8 bits.
pub open spec fn tree_byte(tree: CborTree) -> Option<u8> {
    match tree {
        CborTree::Unsigned(n) => if n <= u8::MAX {
            Some(n as u8)
        } else {
            None
        },
        _ => None,
    }
}

/// The bytes that an array of small integers stands for.
pub open spec fn tree_bytes(tree: CborTree) -> Option<Seq<u8>> {
    match tree {
        CborTree::Array(items) => if forall|k: int|
            0 <= k < items.len() ==> tree_byte(#[trigger] items[k]) is Some {
            Some(items.map_values(|item: CborTree| tree_byte(item).unwrap()))
        } else {
            None
        },
        _ => None,
    }
}

/// Bytes of which there are exactly 32.
pub open spec fn tree_bytes32(tree: CborTree) -> Option<Seq<u8>> {
    match tree_bytes(tree) {
        Some(bytes) => if bytes.len() == 32 {
            Some(bytes)
        } else {
            None
        },
        None => None,
    }
}

/// The value of entry `k`, provided its key is the given text.
pub open spec fn entry_value(entries: Seq<(CborTree, CborTree)>, k: int, name: Seq<char>) -> Option<
    CborTree,
> {
    if 0 <= k < entries.len() && entries[k].0 == CborTree::Text(name) {
        Some(entries[k].1)
    } else {
        None
    }
}

/// The value of entry `k` under the given key, or `Unsupported`, which
/// stands for no field.
pub open spec fn field(entries: Seq<(CborTree, CborTree)>, k: int, name: Seq<char>) -> CborTree {
    match entry_value(entries, k, name) {
        Some(value) => value,
        None => CborTree::Unsupported,
    }
}

/// The record that an item stands for.
pub open spec fn tree_record(tree: CborTree) -> Option<RecordView> {
    match tree {
        CborTree::Dict(e) => {
            let round = tree_u32(field(e, 0, "round"@));
            let amount = tree_u64(field(e, 1, "amount"@));
            let timestamp = tree_u64(field(e, 2, "timestamp"@));
            let txid = tree_bytes32(field(e, 3, "txid"@));
            if e.len() == 4 && round is Some && amount is Some && timestamp is Some
                && txid is Some {
                Some(
                    RecordView {
                        round: round.unwrap(),
                        amount: amount.unwrap(),
                        timestamp: timestamp.unwrap(),
                        txid: txid.unwrap(),
                    },
                )
            } else {
                None
            }
        },
        _ => None,
    }
}

/// The history that an array of records stands for.
pub open spec fn tree_records(tree: CborTree) -> Option<Seq<RecordView>> {
    match tree {
        CborTree::Array(items) => if forall|k: int|
            0 <= k < items.len() ==> tree_record(#[trigger] items[k]) is Some {
            Some(items.map_values(|item: CborTree| tree_record(item).unwrap()))
        } else {
            None
        },
        _ => None,
    }
}

/// The member that an item stands for.
pub open spec fn tree_member(tree: CborTree) -> Option<MemberView> {
    match tree {
        CborTree::Dict(e) => {
            let pubkey = tree_bytes(field(e, 0, "pubkey"@));
            let contribution_amount = tree_u64(field(e, 1, "contribution_amount"@));
            let contribution_history = tree_records(field(e, 2, "contribution_history"@));
            let has_received_payout = tree_bool(field(e, 3, "has_received_payout"@));
            let payout_round = tree_u32(field(e, 4, "payout_round"@));
            let joined_at = tree_u64(field(e, 5, "joined_at"@));
            if e.len() == 6 && pubkey is Some && contribution_amount is Some
                && contribution_history is Some && has_received_payout is Some
                && payout_round is Some && joined_at is Some {
                Some(
                    MemberView {
                        pubkey: pubkey.unwrap(),
                        contribution_amount: contribution_amount.unwrap(),
                        contribution_history: contribution_history.unwrap(),
                        has_received_payout: has_received_payout.unwrap(),
                        payout_round: payout_round.unwrap(),
                        joined_at: joined_at.unwrap(),
                    },
                )
            } else {
                None
            }
        },
        _ => None,
    }
}

/// The members that an array of members stands for.
pub open spec fn tree_members(tree: CborTree) -> Option<Seq<MemberView>> {
    match tree {
        CborTree::Array(items) => if forall|k: int|
            0 <= k < items.len() ==> tree_member(#[trigger] items[k]) is Some {
            Some(items.map_values(|item: CborTree| tree_member(item).unwrap()))
        } else {
            None
        },
        _ => None,
    }
}

/// The circle state that an item stands for, or `None` for an item that is
/// not laid out as one.
pub open spec fn tree_state(tree: CborTree) -> Option<CircleView> {
    match tree {
        CborTree::Dict(e) => {
            let circle_id = tree_bytes32(field(e, 0, "circle_id"@));
            let members = tree_members(field(e, 1, "members"@));
            let current_round = tree_u32(field(e, 2, "current_round"@));
            let total_rounds = tree_u32(field(e, 3, "total_rounds"@));
            let contribution_per_round = tree_u64(field(e, 4, "contribution_per_round"@));
            let current_payout_index = tree_index(field(e, 5, "current_payout_index"@));
            let current_pool = tree_u64(field(e, 6, "current_pool"@));
            let created_at = tree_u64(field(e, 7, "created_at"@));
            let round_started_at = tree_u64(field(e, 8, "round_started_at"@));
            let round_duration = tree_u64(field(e, 9, "round_duration"@));
            let is_complete = tree_bool(field(e, 10, "is_complete"@));
            let prev_state_hash = tree_bytes32(field(e, 11, "prev_state_hash"@));
            if e.len() == 12 && circle_id is Some && members is Some && current_round is Some
                && total_rounds is Some && contribution_per_round is Some
                && current_payout_index is Some && current_pool is Some && created_at is Some
                && round_started_at is Some && round_duration is Some && is_complete is Some
                && prev_state_hash is Some {
                Some(
                    CircleView {
                        circle_id: circle_id.unwrap(),
                        members: members.unwrap(),
                        current_round: current_round.unwrap(),
                        total_rounds: total_rounds.unwrap(),
                        contribution_per_round: contribution_per_round.unwrap(),
                        current_payout_index: current_payout_index.unwrap(),
                        current_pool: current_pool.unwrap(),
                        created_at: created_at.unwrap(),
                        round_started_at: round_started_at.unwrap(),
                        round_duration: round_duration.unwrap(),
                        is_complete: is_complete.unwrap(),
                        prev_state_hash: prev_state_hash.unwrap(),
                    },
                )
            } else {
                None
            }
        },
        _ => None,
    }
}

fn read_u64(value: &CborValue) -> (n: Option<u64>)
    ensures
        n == tree_u64(value@),
{
    match value {
        CborValue::Unsigned(n) => Some(*n),
        _ => None,
    }
}

fn read_u32(value: &CborValue) -> (n: Option<u32>)
    ensures
        n == tree_u32(value@),
{
    match value {
        CborValue::Unsigned(n) => if *n <= u32::MAX as u64 {
            Some(*n as u32)
        } else {
            None
        },
        _ => None,
    }
}

fn read_index(value: &CborValue) -> (n: Option<usize>)
    ensures
        n == tree_index(value@),
{
    match value {
        CborValue::Unsigned(n) => if *n <= usize::MAX as u64 {
            Some(*n as usize)
        } else {
            None
        },
        _ => None,
    }
}

fn read_bool(value: &CborValue) -> (b: Option<bool>)
    ensures
        b == tree_bool(value@),
{
    match value {
        CborValue::Bool(b) => Some(*b),
        _ => None,
    }
}

fn read_byte(value: &CborValue) -> (b: Option<u8>)
    ensures
        b == tree_byte(value@),
{
    match value {
        CborValue::Unsigned(n) => if *n <= u8::MAX as u64 {
            Some(*n as u8)
        } else {
            None
        },
        _ => None,
    }
}

#[verifier::loop_isolation(false)]
fn read_bytes(value: &CborValue) -> (bytes: Option<Vec<u8>>)
    ensures
        match bytes {
            Some(b) => tree_bytes(value@) == Some(b@),
            None => tree_bytes(value@) is None,
        },
{
    match value {
        CborValue::Array(items) => {
            proof {
                lemma_array_view(*items, items_view(items@));
            }
            let mut bytes: Vec<u8> = Vec::new();
            let mut k: usize = 0;
            while k < items.len()
                invariant
                    0 <= k <= items.len(),
                    bytes@.len() == k,
                    forall|e: int|
                        0 <= e < k ==> tree_byte(#[trigger] items_view(items@)[e]) == Some(
                            bytes@[e],
                        ),
                decreases items.len() - k,
            {
                match read_byte(&items[k]) {
                    Some(b) => {
                        bytes.push(b);
                    },
                    None => {
                        assert(tree_byte(items_view(items@)[k as int]) is None);
                        return None;
                    },
                }
                k += 1;
            }
            assert(items_view(items@).map_values(|item: CborTree| tree_byte(item).unwrap())
                =~= bytes@);
            Some(bytes)
        },
        _ => None,
    }
}

#[verifier::loop_isolation(false)]
fn read_bytes32(value: &CborValue) -> (bytes: Option<[u8; 32]>)
    ensures
        match bytes {
            Some(b) => tree_bytes32(value@) == Some(b@),
            None => tree_bytes32(value@) is None,
        },
{
    match read_bytes(value) {
        Some(read) => {
            if read.len() != 32 {
                return None;
            }
            let mut bytes = [0u8; 32];
            let mut k: usize = 0;
            while k < 32
                invariant
                    0 <= k <= 32,
                    forall|e: int| 0 <= e < k ==> bytes@[e] == read@[e],
                decreases 32 - k,
            {
                bytes[k] = read[k];
                k += 1;
            }
            Some(bytes)
        },
        None => None,
    }
}

/// The value of entry `k` under the given key, where the entry is there and
/// has that key.
fn entry<'a>(entries: &'a Vec<(CborValue, CborValue)>, k: usize, name: &str) -> (value: Option<
    &'a CborValue,
>)
    ensures
        match value {
            Some(v) => entry_value(entries_view(entries@), k as int, name@) == Some(v@),
            None => entry_value(entries_view(entries@), k as int, name@) is None,
        },
{
    if k >= entries.len() {
        return None;
    }
    match &entries[k].0 {
        CborValue::Text(key) => {
            let wanted = name.to_owned();
            if *key == wanted {
                Some(&entries[k].1)
            } else {
                None
            }
        },
        _ => None,
    }
}

fn u64_field(entries: &Vec<(CborValue, CborValue)>, k: usize, name: &str) -> (n: Option<u64>)
    ensures
        n == tree_u64(field(entries_view(entries@), k as int, name@)),
{
    match entry(entries, k, name) {
        Some(value) => read_u64(value),
        None => None,
    }
}

fn u32_field(entries: &Vec<(CborValue, CborValue)>, k: usize, name: &str) -> (n: Option<u32>)
    ensures
        n == tree_u32(field(entries_view(entries@), k as int, name@)),
{
    match entry(entries, k, name) {
        Some(value) => read_u32(value),
        None => None,
    }
}

fn index_field(entries: &Vec<(CborValue, CborValue)>, k: usize, name: &str) -> (n: Option<usize>)
    ensures
        n == tree_index(field(entries_view(entries@), k as int, name@)),
{
    match entry(entries, k, name) {
        Some(value) => read_index(value),
        None => None,
    }
}

fn bool_field(entries: &Vec<(CborValue, CborValue)>, k: usize, name: &str) -> (b: Option<bool>)
    ensures
        b == tree_bool(field(entries_view(entries@), k as int, name@)),
{
    match entry(entries, k, name) {
        Some(value) => read_bool(value),
        None => None,
    }
}

fn bytes_field(entries: &Vec<(CborValue, CborValue)>, k: usize, name: &str) -> (bytes: Option<
    Vec<u8>,
>)
    ensures
        match bytes {
            Some(b) => tree_bytes(field(entries_view(entries@), k as int, name@)) == Some(b@),
            None => tree_bytes(field(entries_view(entries@), k as int, name@)) is None,
        },
{
    match entry(entries, k, name) {
        Some(value) => read_bytes(value),
        None => None,
    }
}

fn bytes32_field(entries: &Vec<(CborValue, CborValue)>, k: usize, name: &str) -> (bytes: Option<
    [u8; 32],
>)
    ensures
        match bytes {
            Some(b) => tree_bytes32(field(entries_view(entries@), k as int, name@)) == Some(b@),
            None => tree_bytes32(field(entries_view(entries@), k as int, name@)) is None,
        },
{
    match entry(entries, k, name) {
        Some(value) => read_bytes32(value),
        None => None,
    }
}

impl ContributionRecord {
    /// The record that the item stands for, or `None` for an item that is
    /// not laid out as a record.
    pub fn from_cbor(value: &CborValue) -> (record: Option<ContributionRecord>)
        ensures
            match record {
                Some(r) => tree_record(value@) == Some(r@),
                None => tree_record(value@) is None,
            },
    {
        match value {
            CborValue::Dict(entries) => {
                proof {
                    lemma_dict_view(*entries, entries_view(entries@));
                }
                if entries.len() != 4 {
                    return None;
                }
                let round = u32_field(entries, 0, "round");
                let amount = u64_field(entries, 1, "amount");
                let timestamp = u64_field(entries, 2, "timestamp");
                let txid = bytes32_field(entries, 3, "txid");
                match (round, amount, timestamp, txid) {
                    (Some(round), Some(amount), Some(timestamp), Some(txid)) => Some(
                        ContributionRecord { round, amount, timestamp, txid },
                    ),
                    _ => None,
                }
            },
            _ => None,
        }
    }
}

#[verifier::loop_isolation(false)]
fn read_records(value: &CborValue) -> (records: Option<Vec<ContributionRecord>>)
    ensures
        match records {
            Some(r) => tree_records(value@) == Some(r@.map_values(|x: ContributionRecord| x@)),
            None => tree_records(value@) is None,
        },
{
    match value {
        CborValue::Array(items) => {
            proof {
                lemma_array_view(*items, items_view(items@));
            }
            let mut records: Vec<ContributionRecord> = Vec::new();
            let mut k: usize = 0;
            while k < items.len()
                invariant
                    0 <= k <= items.len(),
                    records@.len() == k,
                    forall|e: int|
                        0 <= e < k ==> tree_record(#[trigger] items_view(items@)[e]) == Some(
                            records@[e]@,
                        ),
                decreases items.len() - k,
            {
                match ContributionRecord::from_cbor(&items[k]) {
                    Some(record) => {
                        records.push(record);
                    },
                    None => {
                        assert(tree_record(items_view(items@)[k as int]) is None);
                        return None;
                    },
                }
                k += 1;
            }
            assert(items_view(items@).map_values(|item: CborTree| tree_record(item).unwrap())
                =~= records@.map_values(|x: ContributionRecord| x@));
            Some(records)
        },
        _ => None,
    }
}

impl Member {
    /// The member that the item stands for, or `None` for an item that is
    /// not laid out as a member.
    pub fn from_cbor(value: &CborValue) -> (member: Option<Member>)
        ensures
            match member {
                Some(m) => tree_member(value@) == Some(m@),
                None => tree_member(value@) is None,
            },
    {
        match value {
            CborValue::Dict(entries) => {
                proof {
                    lemma_dict_view(*entries, entries_view(entries@));
                }
                if entries.len() != 6 {
                    return None;
                }
                let pubkey = bytes_field(entries, 0, "pubkey");
                let contribution_amount = u64_field(entries, 1, "contribution_amount");
                let contribution_history = match entry(entries, 2, "contribution_history") {
                    Some(history) => read_records(history),
                    None => None,
                };
                let has_received_payout = bool_field(entries, 3, "has_received_payout");
                let payout_round = u32_field(entries, 4, "payout_round");
                let joined_at = u64_field(entries, 5, "joined_at");
                match (
                    pubkey,
                    contribution_amount,
                    contribution_history,
                    has_received_payout,
                    payout_round,
                    joined_at,
                ) {
                    (
                        Some(pubkey),
                        Some(contribution_amount),
                        Some(contribution_history),
                        Some(has_received_payout),
                        Some(payout_round),
                        Some(joined_at),
                    ) => Some(
                        Member {
                            pubkey: PubKey(pubkey),
                            contribution_amount,
                            contribution_history,
                            has_received_payout,
                            payout_round,
                            joined_at,
                        },
                    ),
                    _ => None,
                }
            },
            _ => None,
        }
    }
}

#[verifier::loop_isolation(false)]
fn read_members(value: &CborValue) -> (members: Option<Vec<Member>>)
    ensures
        match members {
            Some(m) => tree_members(value@) == Some(m@.map_values(|x: Member| x@)),
            None => tree_members(value@) is None,
        },
{
    match value {
        CborValue::Array(items) => {
            proof {
                lemma_array_view(*items, items_view(items@));
            }
            let mut members: Vec<Member> = Vec::new();
            let mut k: usize = 0;
            while k < items.len()
                invariant
                    0 <= k <= items.len(),
                    members@.len() == k,
                    forall|e: int|
                        0 <= e < k ==> tree_member(#[trigger] items_view(items@)[e]) == Some(
                            members@[e]@,
                        ),
                decreases items.len() - k,
            {
                match Member::from_cbor(&items[k]) {
                    Some(member) => {
                        members.push(member);
                    },
                    None => {
                        assert(tree_member(items_view(items@)[k as int]) is None);
                        return None;
                    },
                }
                k += 1;
            }
            assert(items_view(items@).map_values(|item: CborTree| tree_member(item).unwrap())
                =~= members@.map_values(|x: Member| x@));
            Some(members)
        },
        _ => None,
    }
}

impl CircleState {
    /// The state that the item stands for. An item that is not laid out as
    /// a circle state is refused.
    pub fn from_cbor(value: &CborValue) -> (result: Result<CircleState, DecodeError>)
        ensures
            match tree_state(value@) {
                Some(s) => result is Ok && result->Ok_0@ == s,
                None => result is Err && result->Err_0 == DecodeError::NotACircleState,
            },
    {
        match value {
            CborValue::Dict(entries) => {
                proof {
                    lemma_dict_view(*entries, entries_view(entries@));
                }
                if entries.len() != 12 {
                    return Err(DecodeError::NotACircleState);
                }
                let circle_id = bytes32_field(entries, 0, "circle_id");
                let members = match entry(entries, 1, "members") {
                    Some(members) => read_members(members),
                    None => None,
                };
                let current_round = u32_field(entries, 2, "current_round");
                let total_rounds = u32_field(entries, 3, "total_rounds");
                let contribution_per_round = u64_field(entries, 4, "contribution_per_round");
                let current_payout_index = index_field(entries, 5, "current_payout_index");
                let current_pool = u64_field(entries, 6, "current_pool");
                let created_at = u64_field(entries, 7, "created_at");
                let round_started_at = u64_field(entries, 8, "round_started_at");
                let round_duration = u64_field(entries, 9, "round_duration");
                let is_complete = bool_field(entries, 10, "is_complete");
                let prev_state_hash = bytes32_field(entries, 11, "prev_state_hash");
                match (
                    circle_id,
                    members,
                    current_round,
                    total_rounds,
                    contribution_per_round,
                    current_payout_index,
                ) {
                    (
                        Some(circle_id),
                        Some(members),
                        Some(current_round),
                        Some(total_rounds),
                        Some(contribution_per_round),
                        Some(current_payout_index),
                    ) => match (
                        current_pool,
                        created_at,
                        round_started_at,
                        round_duration,
                        is_complete,
                        prev_state_hash,
                    ) {
                        (
                            Some(current_pool),
                            Some(created_at),
                            Some(round_started_at),
                            Some(round_duration),
                            Some(is_complete),
                            Some(prev_state_hash),
                        ) => Ok(
                            CircleState {
                                circle_id,
                                members,
                                current_round,
                                total_rounds,
                                contribution_per_round,
                                current_payout_index,
                                current_pool,
                                created_at,
                                round_started_at,
                                round_duration,
                                is_complete,
                                prev_state_hash,
                            },
                        ),
                        _ => Err(DecodeError::NotACircleState),
                    },
                    _ => Err(DecodeError::NotACircleState),
                }
            },
            _ => Err(DecodeError::NotACircleState),
        }
    }
}

/// Bytes laid out as an item are read back as they were.
pub proof fn lemma_bytes_read_back(bytes: Seq<u8>)
    ensures
        tree_bytes(bytes_tree(bytes)) == Some(bytes),
{
    let items = bytes.map_values(|b: u8| CborTree::Unsigned(b as u64));
    assert forall|k: int| 0 <= k < items.len() implies tree_byte(#[trigger] items[k]) == Some(
        bytes[k],
    ) by {}
}

/// A record laid out as an item is read back as it was.
pub proof fn lemma_record_read_back(record: RecordView)
    requires
        record.txid.len() == 32,
    ensures
        tree_record(record_tree(record)) == Some(record),
{
    lemma_bytes_read_back(record.txid);
}

/// A member laid out as an item is read back as it was.
pub proof fn lemma_member_read_back(member: MemberView)
    requires
        member.has_fixed_widths(),
    ensures
        tree_member(member_tree(member)) == Some(member),
{
    lemma_bytes_read_back(member.pubkey);
    let items = member.contribution_history.map_values(|r: RecordView| record_tree(r));
    assert forall|k: int| 0 <= k < items.len() implies tree_record(#[trigger] items[k]) == Some(
        member.contribution_history[k],
    ) by {
        lemma_record_read_back(member.contribution_history[k]);
    }
    assert(items.map_values(|item: CborTree| tree_record(item).unwrap())
        =~= member.contribution_history);
}

/// A state laid out as an item is read back as it was.
pub proof fn lemma_state_read_back(state: CircleView)
    requires
        state.has_fixed_widths(),
    ensures
        tree_state(state_tree(state)) == Some(state),
{
    lemma_bytes_read_back(state.circle_id);
    lemma_bytes_read_back(state.prev_state_hash);
    let items = state.members.map_values(|m: MemberView| member_tree(m));
    assert forall|k: int| 0 <= k < items.len() implies tree_member(#[trigger] items[k]) == Some(
        state.members[k],
    ) by {
        lemma_member_read_back(state.members[k]);
    }
    assert(items.map_values(|item: CborTree| tree_member(item).unwrap()) =~= state.members);
}

} // verus!
