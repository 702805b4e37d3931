//! The operations that take a circle from one state to the next: creating
//! it, admitting a member, recording a contribution, paying a round out.

use vstd::prelude::*;

use crate::error::OperationError;
use crate::hashing::state_digest;
use crate::history::{find_record, has_record_for, history_view};
use crate::model::{
    CircleState, CircleView, ContributionRecord, Member, MemberView, PubKey, RecordView, Satoshis,
};

verus! {

impl CircleView {
    /// Whether some member has the key.
    pub open spec fn has_member(self, key: Seq<u8>) -> bool {
        exists|i: int| 0 <= i < self.members.len() && (#[trigger] self.members[i]).pubkey == key
    }

    /// Whether member `i` is the first one with the key.
    pub open spec fn is_first_member_with(self, key: Seq<u8>, i: int) -> bool {
        &&& 0 <= i < self.members.len()
        &&& self.members[i].pubkey == key
        &&& forall|e: int| 0 <= e < i ==> (#[trigger] self.members[e]).pubkey != key
    }

    /// The position of the first member with the key, where there is one.
    pub open spec fn member_position(self, key: Seq<u8>) -> int {
        choose|i: int| self.is_first_member_with(key, i)
    }

    /// Why the key cannot join with the given payout round, if it cannot.
    pub open spec fn add_member_error(self, key: Seq<u8>, payout_round: u32) -> Option<
        OperationError,
    > {
        if self.current_round > 0 {
            Some(OperationError::AlreadyStarted)
        } else if self.has_member(key) {
            Some(OperationError::DuplicateMember)
        } else if payout_round > self.members.len() {
            Some(OperationError::InvalidPayoutRound)
        } else if self.members.len() >= u32::MAX {
            Some(OperationError::OutOfRange)
        } else {
            None
        }
    }

    /// The state with one more member at the end, and one more round.
    pub open spec fn with_member(
        self,
        key: Seq<u8>,
        payout_round: u32,
        timestamp: u64,
    ) -> CircleView {
        CircleView {
            members: self.members.push(
                MemberView {
                    pubkey: key,
                    contribution_amount: self.contribution_per_round,
                    contribution_history: Seq::empty(),
                    has_received_payout: false,
                    payout_round,
                    joined_at: timestamp,
                },
            ),
            total_rounds: (self.members.len() + 1) as u32,
            ..self
        }
    }

    /// Why the member with the key cannot contribute the amount now, if it
    /// cannot.
    pub open spec fn contribution_error(self, key: Seq<u8>, amount: Satoshis) -> Option<
        OperationError,
    > {
        if self.is_complete {
            Some(OperationError::CircleComplete)
        } else if !self.has_member(key) {
            Some(OperationError::MemberNotFound)
        } else if has_record_for(
            self.members[self.member_position(key)].contribution_history,
            self.current_round,
        ) {
            Some(OperationError::DuplicateContribution)
        } else if amount != self.contribution_per_round {
            Some(
                OperationError::AmountMismatch {
                    expected: self.contribution_per_round,
                    actual: amount,
                },
            )
        } else if self.current_pool + amount > u64::MAX {
            Some(OperationError::OutOfRange)
        } else {
            None
        }
    }

    /// The state with one more record at the end of member `i`'s history,
    /// and the record's amount added to the pool.
    pub open spec fn with_contribution(self, i: int, record: RecordView) -> CircleView {
        CircleView {
            members: self.members.update(
                i,
                MemberView {
                    contribution_history: self.members[i].contribution_history.push(record),
                    ..self.members[i]
                },
            ),
            current_pool: (self.current_pool + record.amount) as u64,
            ..self
        }
    }

    /// Whether every member has a record for the current round.
    pub open spec fn is_fully_funded(self) -> bool {
        forall|i: int|
            0 <= i < self.members.len() ==> has_record_for(
                (#[trigger] self.members[i]).contribution_history,
                self.current_round,
            )
    }

    /// Why the current round cannot be paid out, if it cannot.
    pub open spec fn payout_error(self) -> Option<OperationError> {
        if self.is_complete {
            Some(OperationError::CircleComplete)
        } else if !self.is_fully_funded() {
            Some(OperationError::RoundNotFunded)
        } else if self.current_payout_index >= self.members.len() {
            Some(OperationError::InvalidIndex)
        } else if self.members[self.current_payout_index as int].has_received_payout {
            Some(OperationError::AlreadyPaid)
        } else if self.current_round >= u32::MAX {
            Some(OperationError::OutOfRange)
        } else {
            None
        }
    }

    /// The state with the member whose turn it is marked as paid.
    pub open spec fn with_recipient_paid(self) -> CircleView {
        let i: int = self.current_payout_index as int;
        CircleView {
            members: self.members.update(
                i,
                MemberView { has_received_payout: true, ..self.members[i] },
            ),
            ..self
        }
    }

    /// The state after a payout at the given time: the recipient is marked
    /// as paid, the digest of the state as it then stands is kept, and only
    /// then the pool is emptied, the round advanced, the turn passed on to
    /// the next position and the round's start set.
    pub open spec fn after_payout(self, timestamp: u64) -> CircleView {
        let paid = self.with_recipient_paid();
        CircleView {
            prev_state_hash: state_digest(paid),
            current_pool: 0,
            current_round: (self.current_round + 1) as u32,
            current_payout_index: ((self.current_payout_index + 1) % (
            self.members.len() as int)) as usize,
            round_started_at: timestamp,
            is_complete: self.current_round + 1 >= self.total_rounds,
            ..paid
        }
    }
}

/// Among the members up to position `j`, where member `j` has the key, one
/// is the first with the key.
proof fn lemma_first_member_before(state: CircleView, key: Seq<u8>, j: int)
    requires
        0 <= j < state.members.len(),
        state.members[j].pubkey == key,
    ensures
        exists|i: int| state.is_first_member_with(key, i),
    decreases j,
{
    if exists|e: int| 0 <= e < j && (#[trigger] state.members[e]).pubkey == key {
        let e: int = choose|e: int| 0 <= e < j && (#[trigger] state.members[e]).pubkey == key;
        lemma_first_member_before(state, key, e);
    } else {
        assert(state.is_first_member_with(key, j));
    }
}

/// Where some member has the key, the member's position is that of the
/// first one with it.
pub proof fn lemma_member_has_position(state: CircleView, key: Seq<u8>)
    requires
        state.has_member(key),
    ensures
        state.is_first_member_with(key, state.member_position(key)),
{
    let j: int = choose|j: int|
        0 <= j < state.members.len() && (#[trigger] state.members[j]).pubkey == key;
    lemma_first_member_before(state, key, j);
}

/// At most one member is the first with a given key.
pub proof fn lemma_member_position(state: CircleView, key: Seq<u8>, i: int)
    requires
        state.is_first_member_with(key, i),
    ensures
        state.member_position(key) == i,
        state.has_member(key),
{
}

/// What a search among the members says of their views.
proof fn lemma_find_member(
    state: CircleView,
    members: Seq<Member>,
    key: Seq<u8>,
    found: Option<usize>,
)
    requires
        state.members == members.map_values(|m: Member| m@),
        match found {
            Some(i) => {
                &&& 0 <= i < members.len()
                &&& members[i as int].pubkey@ == key
                &&& forall|e: int| 0 <= e < i ==> (#[trigger] members[e]).pubkey@ != key
            },
            None => forall|e: int|
                0 <= e < members.len() ==> (#[trigger] members[e]).pubkey@ != key,
        },
    ensures
        match found {
            Some(i) => state.is_first_member_with(key, i as int) && state.member_position(key) == i
                && state.has_member(key),
            None => !state.has_member(key),
        },
{
    if let Some(i) = found {
        lemma_member_position(state, key, i as int);
    }
}

/// The position of the first member with the key.
fn find_member(members: &Vec<Member>, key: &PubKey) -> (found: Option<usize>)
    ensures
        match found {
            Some(i) => {
                &&& 0 <= i < members@.len()
                &&& members@[i as int].pubkey@ == key@
                &&& forall|e: int| 0 <= e < i ==> (#[trigger] members@[e]).pubkey@ != key@
            },
            None => forall|e: int|
                0 <= e < members@.len() ==> (#[trigger] members@[e]).pubkey@ != key@,
        },
{
    let mut i: usize = 0;
    while i < members.len()
        invariant
            0 <= i <= members.len(),
            forall|e: int| 0 <= e < i ==> (#[trigger] members@[e]).pubkey@ != key@,
        decreases members.len() - i,
    {
        if members[i].pubkey == *key {
            return Some(i);
        }
        i += 1;
    }
    None
}

impl CircleState {
    /// A circle without members, in round 0, with an empty pool.
    pub fn new(
        circle_id: [u8; 32],
        contribution_per_round: Satoshis,
        round_duration: u64,
        created_at: u64,
    ) -> (state: CircleState)
        ensures
            state@ == (CircleView {
                circle_id: circle_id@,
                members: Seq::empty(),
                current_round: 0,
                total_rounds: 0,
                contribution_per_round,
                current_payout_index: 0,
                current_pool: 0,
                created_at,
                round_started_at: created_at,
                round_duration,
                is_complete: false,
                prev_state_hash: Seq::new(32, |k: int| 0u8),
            }),
    {
        let state = CircleState {
            circle_id,
            members: Vec::new(),
            current_round: 0,
            total_rounds: 0,
            contribution_per_round,
            current_payout_index: 0,
            current_pool: 0,
            created_at,
            round_started_at: created_at,
            round_duration,
            is_complete: false,
            prev_state_hash: [0u8; 32],
        };
        assert(state@.members =~= Seq::empty());
        assert(state@.prev_state_hash =~= Seq::new(32, |k: int| 0u8));
        state
    }

    /// Why the key cannot join with the given payout round, if it cannot:
    /// the circle has started, the key is a member already, the payout
    /// round is greater than the number of members so far, or one more
    /// member would be more than the 32 bits of `total_rounds` can count, in
    /// this order.
    pub fn check_add_member(&self, pubkey: &PubKey, payout_round: u32) -> (error: Option<
        OperationError,
    >)
        ensures
            error == self@.add_member_error(pubkey@, payout_round),
    {
        if self.current_round > 0 {
            return Some(OperationError::AlreadyStarted);
        }
        let found = find_member(&self.members, pubkey);
        proof {
            lemma_find_member(self@, self.members@, pubkey@, found);
        }
        if found.is_some() {
            return Some(OperationError::DuplicateMember);
        }
        if payout_round as usize > self.members.len() {
            return Some(OperationError::InvalidPayoutRound);
        }
        if self.members.len() >= u32::MAX as usize {
            return Some(OperationError::OutOfRange);
        }
        None
    }

    /// Admits a member. This is possible only before the first payout, for a
    /// key that is not yet a member, and with a payout round no greater than
    /// the number of members so far. The new member owes the circle's
    /// contribution per round, has no history and has not been paid; the
    /// circle gets one more round. A circle whose rounds could not be
    /// counted any further refuses with `OutOfRange`. A refusal leaves the
    /// state as it was.
    pub fn add_member(&mut self, pubkey: PubKey, payout_round: u32, timestamp: u64) -> (result:
        Result<(), OperationError>)
        ensures
            match old(self)@.add_member_error(pubkey@, payout_round) {
                Some(e) => result == Err::<(), OperationError>(e) && *final(self) == *old(self),
                None => result is Ok && final(self)@ == old(self)@.with_member(
                    pubkey@,
                    payout_round,
                    timestamp,
                ),
            },
    {
        match self.check_add_member(&pubkey, payout_round) {
            Some(error) => {
                return Err(error);
            },
            None => {},
        }
        let member = Member {
            pubkey,
            contribution_amount: self.contribution_per_round,
            contribution_history: Vec::new(),
            has_received_payout: false,
            payout_round,
            joined_at: timestamp,
        };
        assert(member@.contribution_history =~= Seq::empty());
        self.members.push(member);
        self.total_rounds = self.members.len() as u32;
        assert(self@.members =~= old(self)@.with_member(pubkey@, payout_round, timestamp).members);
        Ok(())
    }

    /// Whether the member with the key can contribute the amount now. Gives
    /// the position of the first member with the key, or why it cannot: the
    /// circle is complete, no member has the key, the member has a record
    /// for the current round, the amount is not the circle's contribution
    /// per round, or the pool would grow beyond 64 bits, in this order.
    pub fn check_contribution(&self, pubkey: &PubKey, amount: Satoshis) -> (outcome: Result<
        usize,
        OperationError,
    >)
        ensures
            match self@.contribution_error(pubkey@, amount) {
                Some(e) => outcome == Err::<usize, OperationError>(e),
                None => {
                    &&& outcome matches Ok(i)
                    &&& i < self.members@.len()
                    &&& i == self@.member_position(pubkey@)
                },
            },
    {
        if self.is_complete {
            return Err(OperationError::CircleComplete);
        }
        let found = find_member(&self.members, pubkey);
        proof {
            lemma_find_member(self@, self.members@, pubkey@, found);
        }
        let i: usize = match found {
            Some(i) => i,
            None => {
                return Err(OperationError::MemberNotFound);
            },
        };
        assert(self@.members[i as int].contribution_history == history_view(
            self.members@[i as int].contribution_history@,
        ));
        if find_record(&self.members[i].contribution_history, self.current_round).is_some() {
            return Err(OperationError::DuplicateContribution);
        }
        if amount != self.contribution_per_round {
            return Err(
                OperationError::AmountMismatch {
                    expected: self.contribution_per_round,
                    actual: amount,
                },
            );
        }
        if self.current_pool > u64::MAX - amount {
            return Err(OperationError::OutOfRange);
        }
        Ok(i)
    }

    /// Records a contribution of the first member with the key for the
    /// current round. This is possible while the circle is not complete, for
    /// a member that has no record for the current round yet, and for
    /// exactly the circle's contribution per round. The record is put at the
    /// end of the member's history and its amount is added to the pool. A
    /// contribution that the pool cannot hold is refused with `OutOfRange`:
    /// the pool never wraps. A refusal leaves the state as it was.
    pub fn record_contribution(
        &mut self,
        pubkey: &PubKey,
        amount: Satoshis,
        timestamp: u64,
        txid: [u8; 32],
    ) -> (result: Result<(), OperationError>)
        ensures
            match old(self)@.contribution_error(pubkey@, amount) {
                Some(e) => result == Err::<(), OperationError>(e) && *final(self) == *old(self),
                None => result is Ok && final(self)@ == old(self)@.with_contribution(
                    old(self)@.member_position(pubkey@),
                    RecordView { round: old(self).current_round, amount, timestamp, txid: txid@ },
                ),
            },
            result is Ok ==> final(self).current_pool == old(self).current_pool + amount,
    {
        let i: usize = match self.check_contribution(pubkey, amount) {
            Ok(i) => i,
            Err(error) => {
                return Err(error);
            },
        };
        let record = ContributionRecord { round: self.current_round, amount, timestamp, txid };
        self.members[i].contribution_history.push(record);
        self.current_pool = self.current_pool + amount;
        proof {
            let expected = old(self)@.with_contribution(i as int, record@);
            assert(self@.members[i as int].contribution_history
                =~= expected.members[i as int].contribution_history);
            assert(self@.members =~= expected.members);
        }
        Ok(())
    }

    /// Why the current round cannot be paid out, if it cannot: the circle is
    /// complete, some member has not contributed in the current round, the
    /// payout position points at no member, the member it points at has
    /// been paid before, or the round is the last that 32 bits can count, in
    /// this order.
    pub fn check_payout(&self) -> (error: Option<OperationError>)
        ensures
            error == self@.payout_error(),
    {
        if self.is_complete {
            return Some(OperationError::CircleComplete);
        }
        if !self.is_round_fully_funded() {
            return Some(OperationError::RoundNotFunded);
        }
        if self.current_payout_index >= self.members.len() {
            return Some(OperationError::InvalidIndex);
        }
        if self.members[self.current_payout_index].has_received_payout {
            return Some(OperationError::AlreadyPaid);
        }
        if self.current_round == u32::MAX {
            return Some(OperationError::OutOfRange);
        }
        None
    }

    /// Pays the current round out to the member whose turn it is by
    /// position; the payout round a member asked for when joining plays no
    /// part. This is possible while the circle is not complete, once every
    /// member has contributed in the current round, where the payout
    /// position points at a member, and where that member has not been paid
    /// before. The recipient is marked as paid, the digest of the state as
    /// it then stands becomes `prev_state_hash`, and then the pool is
    /// emptied, the round advanced, the turn passed on and the round's start
    /// set to the given time; the circle is complete once the round reaches
    /// the number of rounds. Returns the recipient and the pool paid out. A
    /// round that cannot be counted any further refuses with `OutOfRange`.
    /// A refusal leaves the state as it was.
    pub fn execute_payout(&mut self, timestamp: u64) -> (result: Result<
        (PubKey, Satoshis),
        OperationError,
    >)
        ensures
            match old(self)@.payout_error() {
                Some(e) => result == Err::<(PubKey, Satoshis), OperationError>(e) && *final(self)
                    == *old(self),
                None => {
                    &&& result matches Ok((recipient, amount))
                    &&& recipient@ == old(self)@.members[old(
                        self,
                    ).current_payout_index as int].pubkey
                    &&& amount == old(self).current_pool
                    &&& final(self)@ == old(self)@.after_payout(timestamp)
                },
            },
    {
        match self.check_payout() {
            Some(error) => {
                return Err(error);
            },
            None => {},
        }
        let index: usize = self.current_payout_index;
        let count: usize = self.members.len();
        assert(index < count);
        let payout_amount: Satoshis = self.current_pool;
        let recipient = self.members[index].pubkey.clone();
        self.members[index].has_received_payout = true;
        proof {
            let paid = old(self)@.with_recipient_paid();
            assert(self@.members =~= paid.members);
        }
        self.prev_state_hash = self.state_hash();
        self.current_pool = 0;
        self.current_round = self.current_round + 1;
        self.current_payout_index = (index + 1) % count;
        self.round_started_at = timestamp;
        if self.current_round >= self.total_rounds {
            self.is_complete = true;
        }
        Ok((recipient, payout_amount))
    }

    /// Whether every member has contributed in the current round.
    pub fn is_round_fully_funded(&self) -> (funded: bool)
        ensures
            funded == self@.is_fully_funded(),
    {
        let mut i: usize = 0;
        while i < self.members.len()
            invariant
                0 <= i <= self.members.len(),
                forall|e: int|
                    0 <= e < i ==> has_record_for(
                        (#[trigger] self@.members[e]).contribution_history,
                        self.current_round,
                    ),
            decreases self.members.len() - i,
        {
            assert(self@.members[i as int].contribution_history == history_view(
                self.members@[i as int].contribution_history@,
            ));
            if find_record(&self.members[i].contribution_history, self.current_round).is_none() {
                return false;
            }
            i += 1;
        }
        true
    }
}

} // verus!
