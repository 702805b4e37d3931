//! The data a circle is made of, and the mathematical view of each type.

use vstd::prelude::*;

verus! {

/// An amount of the smallest currency unit.
pub type Satoshis = u64;

/// A compressed public key, the identity of a member. Two keys are the same
/// member when their bytes are equal.
#[derive(Debug)]
pub struct PubKey(pub Vec<u8>);

impl View for PubKey {
    type V = Seq<u8>;

    open spec fn view(&self) -> Seq<u8> {
        self.0@
    }
}

impl PartialEq for PubKey {
    fn eq(&self, other: &PubKey) -> (same: bool) {
        let same = self.0 == other.0;
        proof {
            assert(same == (self.0@ =~= other.0@));
        }
        same
    }
}

impl Eq for PubKey {}

impl vstd::std_specs::cmp::PartialEqSpecImpl for PubKey {
    open spec fn obeys_eq_spec() -> bool {
        true
    }

    open spec fn eq_spec(&self, other: &PubKey) -> bool {
        self@ == other@
    }
}

impl Clone for PubKey {
    fn clone(&self) -> (copy: PubKey)
        ensures
            copy@ == self@,
    {
        PubKey(self.0.clone())
    }
}

impl PubKey {
    /// The bytes of the key.
    pub fn as_bytes(&self) -> (bytes: &[u8])
        ensures
            bytes@ == self@,
    {
        self.0.as_slice()
    }

    /// The key that holds exactly the given 33 bytes.
    pub fn from_bytes(bytes: [u8; 33]) -> (key: PubKey)
        ensures
            key@ == bytes@,
    {
        PubKey(vstd::slice::slice_to_vec(bytes.as_slice()))
    }
}

/// One member's contribution for one round.
#[derive(Debug, Clone, Copy, PartialEq, Eq)]
pub struct ContributionRecord {
    pub round: u32,
    pub amount: Satoshis,
    pub timestamp: u64,
    /// The transaction that carried the contribution.
    pub txid: [u8; 32],
}

/// A contribution record as a mathematical value.
pub struct RecordView {
    pub round: u32,
    pub amount: Satoshis,
    pub timestamp: u64,
    pub txid: Seq<u8>,
}

impl View for ContributionRecord {
    type V = RecordView;

    open spec fn view(&self) -> RecordView {
        RecordView {
            round: self.round,
            amount: self.amount,
            timestamp: self.timestamp,
            txid: self.txid@,
        }
    }
}

/// A member of the circle and what it has paid in so far.
#[derive(Debug, PartialEq, Eq)]
pub struct Member {
    pub pubkey: PubKey,
    /// The amount this member owes each round.
    pub contribution_amount: Satoshis,
    /// The contributions made, oldest first.
    pub contribution_history: Vec<ContributionRecord>,
    pub has_received_payout: bool,
    /// The round this member asked to be paid in when it joined.
    pub payout_round: u32,
    /// Unix seconds.
    pub joined_at: u64,
}

/// A member as a mathematical value.
pub struct MemberView {
    pub pubkey: Seq<u8>,
    pub contribution_amount: Satoshis,
    pub contribution_history: Seq<RecordView>,
    pub has_received_payout: bool,
    pub payout_round: u32,
    pub joined_at: u64,
}

impl View for Member {
    type V = MemberView;

    open spec fn view(&self) -> MemberView {
        MemberView {
            pubkey: self.pubkey@,
            contribution_amount: self.contribution_amount,
            contribution_history: self.contribution_history@.map_values(
                |r: ContributionRecord| r@,
            ),
            has_received_payout: self.has_received_payout,
            payout_round: self.payout_round,
            joined_at: self.joined_at,
        }
    }
}

impl Clone for Member {
    /// A copy that agrees with the member in every field.
    fn clone(&self) -> (copy: Member)
        ensures
            copy@ == self@,
    {
        let mut history: Vec<ContributionRecord> = Vec::new();
        let mut k: usize = 0;
        while k < self.contribution_history.len()
            invariant
                0 <= k <= self.contribution_history.len(),
                history@.len() == k,
                forall|e: int| 0 <= e < k ==> history@[e] == self.contribution_history@[e],
            decreases self.contribution_history.len() - k,
        {
            history.push(self.contribution_history[k]);
            k += 1;
        }
        assert(history@ =~= self.contribution_history@);
        Member {
            pubkey: self.pubkey.clone(),
            contribution_amount: self.contribution_amount,
            contribution_history: history,
            has_received_payout: self.has_received_payout,
            payout_round: self.payout_round,
            joined_at: self.joined_at,
        }
    }
}

/// The whole state of a circle. Each operation takes one state to the next;
/// an operation that fails leaves the state as it was.
#[derive(Debug)]
pub struct CircleState {
    pub circle_id: [u8; 32],
    /// The members in the order they joined.
    pub members: Vec<Member>,
    /// The round now being collected, starting at 0.
    pub current_round: u32,
    /// One round per member.
    pub total_rounds: u32,
    pub contribution_per_round: Satoshis,
    /// The position in `members` of whoever is paid next.
    pub current_payout_index: usize,
    /// What has been contributed in the current round.
    pub current_pool: Satoshis,
    /// Unix seconds.
    pub created_at: u64,
    /// Unix seconds.
    pub round_started_at: u64,
    /// Seconds.
    pub round_duration: u64,
    pub is_complete: bool,
    /// The digest of the state that the last payout completed.
    pub prev_state_hash: [u8; 32],
}

/// A circle state as a mathematical value.
pub struct CircleView {
    pub circle_id: Seq<u8>,
    pub members: Seq<MemberView>,
    pub current_round: u32,
    pub total_rounds: u32,
    pub contribution_per_round: Satoshis,
    pub current_payout_index: usize,
    pub current_pool: Satoshis,
    pub created_at: u64,
    pub round_started_at: u64,
    pub round_duration: u64,
    pub is_complete: bool,
    pub prev_state_hash: Seq<u8>,
}

impl MemberView {
    /// Every transaction id in the history has 32 bytes.
    pub open spec fn has_fixed_widths(self) -> bool {
        forall|j: int|
            0 <= j < self.contribution_history.len() ==> (
            #[trigger] self.contribution_history[j]).txid.len() == 32
    }
}

impl CircleView {
    /// The circle's id, the digest and every transaction id have 32 bytes,
    /// as they do in every state that exists in memory.
    pub open spec fn has_fixed_widths(self) -> bool {
        &&& self.circle_id.len() == 32
        &&& self.prev_state_hash.len() == 32
        &&& forall|i: int|
            0 <= i < self.members.len() ==> (#[trigger] self.members[i]).has_fixed_widths()
    }
}

impl View for CircleState {
    type V = CircleView;

    open spec fn view(&self) -> CircleView {
        CircleView {
            circle_id: self.circle_id@,
            members: self.members@.map_values(|m: Member| m@),
            current_round: self.current_round,
            total_rounds: self.total_rounds,
            contribution_per_round: self.contribution_per_round,
            current_payout_index: self.current_payout_index,
            current_pool: self.current_pool,
            created_at: self.created_at,
            round_started_at: self.round_started_at,
            round_duration: self.round_duration,
            is_complete: self.is_complete,
            prev_state_hash: self.prev_state_hash@,
        }
    }
}

impl Clone for CircleState {
    /// A copy that agrees with the state in every field.
    fn clone(&self) -> (copy: CircleState)
        ensures
            copy@ == self@,
    {
        let mut members: Vec<Member> = Vec::new();
        let mut k: usize = 0;
        while k < self.members.len()
            invariant
                0 <= k <= self.members.len(),
                members@.len() == k,
                forall|e: int| 0 <= e < k ==> (#[trigger] members@[e])@ == self.members@[e]@,
            decreases self.members.len() - k,
        {
            members.push(self.members[k].clone());
            k += 1;
        }
        assert(members@.map_values(|m: Member| m@) =~= self.members@.map_values(|m: Member| m@));
        CircleState {
            circle_id: self.circle_id,
            members,
            current_round: self.current_round,
            total_rounds: self.total_rounds,
            contribution_per_round: self.contribution_per_round,
            current_payout_index: self.current_payout_index,
            current_pool: self.current_pool,
            created_at: self.created_at,
            round_started_at: self.round_started_at,
            round_duration: self.round_duration,
            is_complete: self.is_complete,
            prev_state_hash: self.prev_state_hash,
        }
    }
}

/// The view of a state has the widths that the state's types fix.
pub proof fn lemma_view_has_fixed_widths(state: CircleState)
    ensures
        state@.has_fixed_widths(),
{
}

} // verus!
