//! Whether a state is consistent in itself, and whether one state may follow
//! another.

use vstd::prelude::*;

use crate::error::{TransitionError, ValidationError};
use crate::history::{
    contribution_in_round, find_record, history_view, lemma_amount_of_first_record,
    lemma_amount_without_record,
};
use crate::model::{CircleState, CircleView, Member, MemberView};

verus! {

/// The sum, over the members from position `from` on, of what each has
/// contributed in the given round.
pub open spec fn pool_from(members: Seq<MemberView>, round: u32, from: int) -> nat
    decreases members.len() - from,
{
    if from < 0 || from >= members.len() {
        0
    } else {
        contribution_in_round(members[from].contribution_history, round) + pool_from(
            members,
            round,
            from + 1,
        )
    }
}

/// The sum of what the members have contributed in the given round.
pub open spec fn pool_of_round(members: Seq<MemberView>, round: u32) -> nat {
    pool_from(members, round, 0)
}

impl CircleView {
    /// The rule, if any, that record `j` of member `i` breaks: its round lies
    /// within the circle's rounds, its amount is the contribution per round,
    /// and no earlier record of the member is for the same round.
    pub open spec fn record_error(self, i: int, j: int) -> Option<ValidationError> {
        let history = self.members[i].contribution_history;
        if history[j].round >= self.total_rounds {
            Some(
                ValidationError::InvalidContributionRound {
                    member: i as usize,
                    record: j as usize,
                },
            )
        } else if history[j].amount != self.contribution_per_round {
            Some(
                ValidationError::InvalidContributionAmount {
                    member: i as usize,
                    record: j as usize,
                },
            )
        } else if exists|k: int| 0 <= k < j && (#[trigger] history[k]).round == history[j].round {
            Some(ValidationError::DuplicateContribution { member: i as usize, record: j as usize })
        } else {
            None
        }
    }

    /// The first error among the records of member `i` from position `from` on.
    pub open spec fn records_error_from(self, i: int, from: int) -> Option<ValidationError>
        decreases self.members[i].contribution_history.len() - from,
    {
        if from < 0 || from >= self.members[i].contribution_history.len() {
            None
        } else if self.record_error(i, from) is Some {
            self.record_error(i, from)
        } else {
            self.records_error_from(i, from + 1)
        }
    }

    /// The first rule that member `i` breaks: its payout round lies within the
    /// circle's rounds, a paid member's round is past, and then its records in
    /// order.
    pub open spec fn member_error(self, i: int) -> Option<ValidationError> {
        let member = self.members[i];
        if member.payout_round >= self.total_rounds {
            Some(ValidationError::InvalidPayoutRound { member: i as usize })
        } else if member.has_received_payout && member.payout_round >= self.current_round {
            Some(ValidationError::PaidBeforeRound { member: i as usize })
        } else {
            self.records_error_from(i, 0)
        }
    }

    /// The first error among the members from position `from` on.
    pub open spec fn members_error_from(self, from: int) -> Option<ValidationError>
        decreases self.members.len() - from,
    {
        if from < 0 || from >= self.members.len() {
            None
        } else if self.member_error(from) is Some {
            self.member_error(from)
        } else {
            self.members_error_from(from + 1)
        }
    }

    /// The first rule that the state breaks, in the order in which they are
    /// checked, or `None` for a consistent state.
    pub open spec fn validation_error(self) -> Option<ValidationError> {
        if self.members.len() == 0 {
            Some(ValidationError::NoMembers)
        } else if self.total_rounds != self.members.len() {
            Some(
                ValidationError::TotalRoundsMismatch {
                    total_rounds: self.total_rounds,
                    members: self.members.len() as usize,
                },
            )
        } else if self.current_round > self.total_rounds {
            Some(
                ValidationError::RoundOutOfRange {
                    current_round: self.current_round,
                    total_rounds: self.total_rounds,
                },
            )
        } else if self.current_payout_index >= self.members.len() {
            Some(
                ValidationError::PayoutIndexOutOfRange {
                    index: self.current_payout_index,
                    members: self.members.len() as usize,
                },
            )
        } else if self.members_error_from(0) is Some {
            self.members_error_from(0)
        } else if self.current_pool != pool_of_round(self.members, self.current_round) {
            Some(
                ValidationError::PoolMismatch {
                    expected: pool_of_round(self.members, self.current_round) as u128,
                    actual: self.current_pool,
                },
            )
        } else {
            None
        }
    }

    /// Every payout round lies within the circle's rounds, and the round of a
    /// paid member is past.
    pub open spec fn payout_rounds_in_range(self) -> bool {
        forall|i: int|
            0 <= i < self.members.len() ==> {
                &&& (#[trigger] self.members[i]).payout_round < self.total_rounds
                &&& self.members[i].has_received_payout ==> self.members[i].payout_round
                    < self.current_round
            }
    }

    /// Every record is for a round of the circle and has the circle's amount.
    pub open spec fn records_in_range(self) -> bool {
        forall|i: int, j: int|
            0 <= i < self.members.len() && 0 <= j < self.members[i].contribution_history.len() ==> {
                &&& (#[trigger] self.members[i].contribution_history[j]).round < self.total_rounds
                &&& self.members[i].contribution_history[j].amount == self.contribution_per_round
            }
    }

    /// No member has two records for the same round.
    pub open spec fn one_record_per_round(self) -> bool {
        forall|i: int, j: int, k: int|
            0 <= i < self.members.len() && 0 <= k < j < self.members[i].contribution_history.len()
                ==> (#[trigger] self.members[i].contribution_history[k]).round != (
            #[trigger] self.members[i].contribution_history[j]).round
    }

    /// The rules of a consistent state, all at once.
    pub open spec fn is_valid(self) -> bool {
        &&& self.members.len() > 0
        &&& self.total_rounds == self.members.len()
        &&& self.current_round <= self.total_rounds
        &&& self.current_payout_index < self.members.len()
        &&& self.payout_rounds_in_range()
        &&& self.records_in_range()
        &&& self.one_record_per_round()
        &&& self.current_pool == pool_of_round(self.members, self.current_round)
    }

    /// The rule, if any, that forbids `next` as a successor of this state.
    pub open spec fn transition_error(self, next: CircleView) -> Option<TransitionError> {
        if self.circle_id != next.circle_id {
            Some(TransitionError::CircleIdMismatch)
        } else if self.current_round > 0 && self.members.len() != next.members.len() {
            Some(TransitionError::MemberCountChanged)
        } else if next.current_round != self.current_round && next.current_round
            != self.current_round + 1 {
            Some(TransitionError::InvalidRoundProgression)
        } else if next.current_round == self.current_round {
            if next.current_pool < self.current_pool {
                Some(TransitionError::PoolDecreased)
            } else {
                None
            }
        } else if next.current_pool != 0 {
            Some(TransitionError::PoolNotReset)
        } else {
            None
        }
    }
}

/// Whether two 32-byte values hold the same bytes.
pub fn same_bytes32(a: &[u8; 32], b: &[u8; 32]) -> (same: bool)
    ensures
        same == (a@ == b@),
{
    let mut k: usize = 0;
    while k < 32
        invariant
            0 <= k <= 32,
            forall|e: int| 0 <= e < k ==> a@[e] == b@[e],
        decreases 32 - k,
    {
        if a[k] != b[k] {
            return false;
        }
        k += 1;
    }
    assert(a@ =~= b@);
    true
}

/// The sum of what the members have contributed in the given round.
fn sum_round_contributions(members: &Vec<Member>, round: u32) -> (sum: u128)
    ensures
        sum == pool_of_round(members@.map_values(|m: Member| m@), round),
{
    let ghost views = members@.map_values(|m: Member| m@);
    let mut sum: u128 = 0;
    let mut i: usize = 0;
    while i < members.len()
        invariant
            0 <= i <= members.len(),
            views == members@.map_values(|m: Member| m@),
            sum + pool_from(views, round, i as int) == pool_from(views, round, 0),
            sum <= i * u64::MAX,
        decreases members.len() - i,
    {
        let history = &members[i].contribution_history;
        let ghost records = views[i as int].contribution_history;
        let found = find_record(history, round);
        let amount: u64 = match found {
            Some(k) => {
                proof {
                    lemma_amount_of_first_record(records, round, 0, k as int);
                }
                history[k].amount
            },
            None => {
                proof {
                    lemma_amount_without_record(records, round, 0);
                }
                0
            },
        };
        assert((i + 1) * u64::MAX <= usize::MAX * u64::MAX) by (nonlinear_arith)
            requires
                i + 1 <= usize::MAX,
        ;
        assert(usize::MAX * u64::MAX <= u64::MAX * u64::MAX) by (nonlinear_arith)
            requires
                usize::MAX <= u64::MAX,
        ;
        sum = sum + amount as u128;
        i += 1;
    }
    sum
}

impl CircleState {
    /// Checks the whole state for consistency and reports the first rule it
    /// breaks. The rules are taken in this order: there are members; there is
    /// one round per member; the current round is not past the last; the
    /// payout position points at a member; then member by member the payout
    /// round and the records in order; last, the pool is the sum of the
    /// current round's contributions.
    #[verifier::loop_isolation(false)]
    pub fn validate(&self) -> (result: Result<(), ValidationError>)
        ensures
            result == match self@.validation_error() {
                Some(e) => Err::<(), ValidationError>(e),
                None => Ok(()),
            },
            result is Ok <==> self@.is_valid(),
    {
        proof {
            lemma_no_error_iff_valid(self@);
        }
        let n: usize = self.members.len();
        if n == 0 {
            return Err(ValidationError::NoMembers);
        }
        if self.total_rounds as usize != n {
            return Err(
                ValidationError::TotalRoundsMismatch {
                    total_rounds: self.total_rounds,
                    members: n,
                },
            );
        }
        if self.current_round > self.total_rounds {
            return Err(
                ValidationError::RoundOutOfRange {
                    current_round: self.current_round,
                    total_rounds: self.total_rounds,
                },
            );
        }
        if self.current_payout_index >= n {
            return Err(
                ValidationError::PayoutIndexOutOfRange {
                    index: self.current_payout_index,
                    members: n,
                },
            );
        }
        // One flag per round, all down between two members.
        let mut seen: Vec<bool> = Vec::new();
        while seen.len() < n
            invariant
                seen@.len() <= n,
                forall|r: int| 0 <= r < seen@.len() ==> !seen@[r],
            decreases n - seen@.len(),
        {
            seen.push(false);
        }
        let mut i: usize = 0;
        while i < n
            invariant
                0 <= i <= n,
                n == self.members@.len(),
                n == self.total_rounds,
                seen@.len() == n,
                forall|r: int| 0 <= r < n ==> !seen@[r],
                self@.members_error_from(0) == self@.members_error_from(i as int),
            decreases n - i,
        {
            let member = &self.members[i];
            if member.payout_round >= self.total_rounds {
                return Err(ValidationError::InvalidPayoutRound { member: i });
            }
            if member.has_received_payout && member.payout_round >= self.current_round {
                return Err(ValidationError::PaidBeforeRound { member: i });
            }
            let history = &member.contribution_history;
            let ghost records = member@.contribution_history;
            let mut j: usize = 0;
            while j < history.len()
                invariant
                    0 <= j <= history.len(),
                    0 <= i < n,
                    n == self.total_rounds,
                    seen@.len() == n,
                    self@.members[i as int] == member@,
                    records == member@.contribution_history,
                    records == history_view(history@),
                    self@.records_error_from(i as int, 0) == self@.records_error_from(
                        i as int,
                        j as int,
                    ),
                    forall|k: int| 0 <= k < j ==> (#[trigger] records[k]).round < n,
                    forall|r: int|
                        0 <= r < n ==> (#[trigger] seen@[r] <==> exists|k: int|
                            0 <= k < j && (#[trigger] records[k]).round == r),
                decreases history.len() - j,
            {
                let record = &history[j];
                if record.round >= self.total_rounds {
                    return Err(ValidationError::InvalidContributionRound { member: i, record: j });
                }
                if record.amount != self.contribution_per_round {
                    return Err(
                        ValidationError::InvalidContributionAmount { member: i, record: j },
                    );
                }
                if seen[record.round as usize] {
                    return Err(ValidationError::DuplicateContribution { member: i, record: j });
                }
                seen.set(record.round as usize, true);
                j += 1;
            }
            // Take the flags down again.
            let mut c: usize = 0;
            while c < history.len()
                invariant
                    0 <= c <= history.len(),
                    seen@.len() == n,
                    records == history_view(history@),
                    forall|k: int| 0 <= k < records.len() ==> (#[trigger] records[k]).round < n,
                    forall|r: int|
                        0 <= r < n && #[trigger] seen@[r] ==> exists|k: int|
                            c <= k < records.len() && (#[trigger] records[k]).round == r,
                decreases history.len() - c,
            {
                assert(records[c as int] == history[c as int]@);
                seen.set(history[c].round as usize, false);
                c += 1;
            }
            i += 1;
        }
        let expected: u128 = sum_round_contributions(&self.members, self.current_round);
        if self.current_pool as u128 != expected {
            return Err(
                ValidationError::PoolMismatch { expected, actual: self.current_pool },
            );
        }
        Ok(())
    }

    /// Checks that `next_state` may follow this state: the circle is the
    /// same; once the circle has started the number of members stays; the
    /// round stays or advances by one; within a round the pool does not
    /// shrink, and a new round starts with an empty pool. Nothing else is
    /// compared.
    pub fn validate_transition(&self, next_state: &CircleState) -> (result: Result<
        (),
        TransitionError,
    >)
        ensures
            result == match self@.transition_error(next_state@) {
                Some(e) => Err::<(), TransitionError>(e),
                None => Ok(()),
            },
    {
        if !same_bytes32(&self.circle_id, &next_state.circle_id) {
            return Err(TransitionError::CircleIdMismatch);
        }
        if self.current_round > 0 && self.members.len() != next_state.members.len() {
            return Err(TransitionError::MemberCountChanged);
        }
        let stays = next_state.current_round == self.current_round;
        let advances = self.current_round < u32::MAX && next_state.current_round
            == self.current_round + 1;
        if !stays && !advances {
            return Err(TransitionError::InvalidRoundProgression);
        }
        if stays {
            if next_state.current_pool < self.current_pool {
                return Err(TransitionError::PoolDecreased);
            }
        } else if next_state.current_pool != 0 {
            return Err(TransitionError::PoolNotReset);
        }
        Ok(())
    }
}

/// The records of member `i` from `from` on are free of errors exactly when
/// each of them is.
pub proof fn lemma_records_error_from(s: CircleView, i: int, from: int)
    requires
        0 <= from,
    ensures
        s.records_error_from(i, from) is None <==> forall|j: int|
            from <= j < s.members[i].contribution_history.len() ==> s.record_error(i, j) is None,
    decreases s.members[i].contribution_history.len() - from,
{
    if from < s.members[i].contribution_history.len() {
        lemma_records_error_from(s, i, from + 1);
    }
}

/// The members from `from` on are free of errors exactly when each of them is.
pub proof fn lemma_members_error_from(s: CircleView, from: int)
    requires
        0 <= from,
    ensures
        s.members_error_from(from) is None <==> forall|i: int|
            from <= i < s.members.len() ==> s.member_error(i) is None,
    decreases s.members.len() - from,
{
    if from < s.members.len() {
        lemma_members_error_from(s, from + 1);
    }
}

/// A state breaks no rule exactly when it is consistent.
pub proof fn lemma_no_error_iff_valid(s: CircleView)
    ensures
        s.validation_error() is None <==> s.is_valid(),
{
    lemma_members_error_from(s, 0);
    assert forall|i: int| 0 <= i < s.members.len() implies (s.records_error_from(i, 0) is None
        <==> forall|j: int|
        0 <= j < s.members[i].contribution_history.len() ==> s.record_error(i, j) is None) by {
        lemma_records_error_from(s, i, 0);
    }
    if s.validation_error() is None {
        assert forall|i: int| 0 <= i < s.members.len() implies {
            &&& (#[trigger] s.members[i]).payout_round < s.total_rounds
            &&& s.members[i].has_received_payout ==> s.members[i].payout_round < s.current_round
        } by {
            assert(s.member_error(i) is None);
        }
        assert forall|i: int, j: int|
            0 <= i < s.members.len() && 0 <= j < s.members[i].contribution_history.len() implies {
            &&& (#[trigger] s.members[i].contribution_history[j]).round < s.total_rounds
            &&& s.members[i].contribution_history[j].amount == s.contribution_per_round
        } by {
            assert(s.member_error(i) is None);
            assert(s.record_error(i, j) is None);
        }
        assert forall|i: int, j: int, k: int|
            0 <= i < s.members.len() && 0 <= k < j < s.members[i].contribution_history.len()
            implies (#[trigger] s.members[i].contribution_history[k]).round != (
        #[trigger] s.members[i].contribution_history[j]).round by {
            assert(s.member_error(i) is None);
            assert(s.record_error(i, j) is None);
        }
    }
    if s.is_valid() {
        assert forall|i: int| 0 <= i < s.members.len() implies s.member_error(i) is None by {
            assert forall|j: int|
                0 <= j < s.members[i].contribution_history.len() implies s.record_error(i, j)
                is None by {
                let history = s.members[i].contribution_history;
                assert forall|k: int| 0 <= k < j implies (#[trigger] history[k]).round
                    != history[j].round by {}
            }
        }
    }
}

} // verus!
