//! What holds of every state that the operations lead to from a new circle,
//! and why such a state, once it has a member, passes validation; and when
//! an operation on a consistent state gives a consistent state again.

use vstd::prelude::*;

use vstd::arithmetic::div_mod::{lemma_mod_self_0, lemma_small_mod};

use crate::history::{
    contribution_in_round, has_record_for, lemma_amount_of_first_record,
    lemma_amount_without_record,
};
use crate::lifecycle::lemma_member_has_position;
use crate::model::{CircleState, CircleView, MemberView, RecordView, Satoshis};
use crate::validation::{lemma_no_error_iff_valid, pool_from, pool_of_round};

verus! {

impl CircleView {
    /// No two members have the same key.
    pub open spec fn keys_are_distinct(self) -> bool {
        forall|i: int, j: int|
            0 <= i < j < self.members.len() ==> (#[trigger] self.members[i]).pubkey != (
            #[trigger] self.members[j]).pubkey
    }

    /// Member `i` owes the circle's contribution, asked for a round no later
    /// than its own position, and has been paid exactly if its position is
    /// already past.
    pub open spec fn member_is_in_step(self, i: int) -> bool {
        let member = self.members[i];
        &&& member.contribution_amount == self.contribution_per_round
        &&& member.payout_round <= i
        &&& member.has_received_payout == (i < self.current_round)
    }

    /// Record `j` of member `i` is for a round that has begun, lies within
    /// the circle's rounds and has the circle's amount.
    pub open spec fn record_is_in_step(self, i: int, j: int) -> bool {
        let record = self.members[i].contribution_history[j];
        &&& record.round <= self.current_round
        &&& record.round < self.total_rounds
        &&& record.amount == self.contribution_per_round
    }

    /// What the operations keep true from a new circle on: there is one
    /// round per member; the circle is complete exactly when it has members
    /// and the round has reached their number; the turn is at the position
    /// of the current round; keys are distinct; every member and every
    /// record is in step; no member has two records for one round; and the
    /// pool is the sum of the current round's contributions.
    pub open spec fn is_coherent(self) -> bool {
        &&& self.total_rounds == self.members.len()
        &&& self.current_round <= self.total_rounds
        &&& self.is_complete == (self.total_rounds > 0 && self.current_round == self.total_rounds)
        &&& self.current_payout_index == (if self.current_round < self.total_rounds {
            self.current_round as int
        } else {
            0
        })
        &&& self.keys_are_distinct()
        &&& forall|i: int| 0 <= i < self.members.len() ==> #[trigger] self.member_is_in_step(i)
        &&& forall|i: int, j: int|
            0 <= i < self.members.len() && 0 <= j < self.members[i].contribution_history.len()
                ==> #[trigger] self.record_is_in_step(i, j)
        &&& self.one_record_per_round()
        &&& self.current_pool == pool_of_round(self.members, self.current_round)
    }
}

/// Adding a member without history leaves every sum as it was.
pub proof fn lemma_pool_with_new_member(
    members: Seq<MemberView>,
    member: MemberView,
    round: u32,
    from: int,
)
    requires
        0 <= from <= members.len(),
        member.contribution_history.len() == 0,
    ensures
        pool_from(members.push(member), round, from) == pool_from(members, round, from),
    decreases members.len() - from,
{
    let longer = members.push(member);
    if from < members.len() {
        lemma_pool_with_new_member(members, member, round, from + 1);
        assert(longer[from] == members[from]);
    } else {
        assert(longer[from] == member);
        assert(pool_from(longer, round, from + 1) == 0);
    }
}

/// Replacing member `i` by one that counts for `delta` more in the round
/// raises the sums that include it by `delta`.
pub proof fn lemma_pool_with_changed_member(
    members: Seq<MemberView>,
    i: int,
    changed: MemberView,
    round: u32,
    delta: nat,
    from: int,
)
    requires
        0 <= i < members.len(),
        0 <= from <= members.len(),
        contribution_in_round(changed.contribution_history, round) == contribution_in_round(
            members[i].contribution_history,
            round,
        ) + delta,
    ensures
        pool_from(members.update(i, changed), round, from) == pool_from(members, round, from) + (
        if from <= i {
            delta
        } else {
            0
        }),
    decreases members.len() - from,
{
    let updated = members.update(i, changed);
    if from < members.len() {
        lemma_pool_with_changed_member(members, i, changed, round, delta, from + 1);
        if from != i {
            assert(updated[from] == members[from]);
        }
    }
}

/// Members without a record for the round sum up to nothing in it.
pub proof fn lemma_pool_without_records(members: Seq<MemberView>, round: u32, from: int)
    requires
        0 <= from,
        forall|i: int|
            from <= i < members.len() ==> !has_record_for(
                (#[trigger] members[i]).contribution_history,
                round,
            ),
    ensures
        pool_from(members, round, from) == 0,
    decreases members.len() - from,
{
    if from < members.len() {
        lemma_pool_without_records(members, round, from + 1);
        let history = members[from].contribution_history;
        assert(!has_record_for(history, round));
        assert forall|k: int| 0 <= k < history.len() implies (#[trigger] history[k]).round
            != round by {}
        lemma_amount_without_record(history, round, 0);
    }
}

/// A new circle is coherent.
pub proof fn law_new_circle_is_coherent(state: CircleState)
    requires
        state@.members.len() == 0,
        state.current_round == 0,
        state.total_rounds == 0,
        state.current_payout_index == 0,
        state.current_pool == 0,
        !state.is_complete,
    ensures
        state@.is_coherent(),
{
}

/// Admitting a member keeps a circle coherent.
pub proof fn law_new_member_keeps_coherence(
    state: CircleState,
    key: Seq<u8>,
    payout_round: u32,
    timestamp: u64,
)
    requires
        state@.is_coherent(),
        state@.add_member_error(key, payout_round) is None,
    ensures
        state@.with_member(key, payout_round, timestamp).is_coherent(),
{
    let before = state@;
    let after = before.with_member(key, payout_round, timestamp);
    let count: int = before.members.len() as int;
    assert forall|i: int, j: int| 0 <= i < j < after.members.len() implies (
    #[trigger] after.members[i]).pubkey != (#[trigger] after.members[j]).pubkey by {
        if j < count {
            assert(before.members[i].pubkey != before.members[j].pubkey);
        } else {
            assert(before.members[i].pubkey != key);
        }
    }
    assert forall|i: int| 0 <= i < after.members.len() implies #[trigger] after.member_is_in_step(
        i,
    ) by {
        if i < count {
            assert(before.member_is_in_step(i));
        }
    }
    assert forall|i: int, j: int|
        0 <= i < after.members.len() && 0 <= j < after.members[i].contribution_history.len()
        implies #[trigger] after.record_is_in_step(i, j) by {
        assert(before.record_is_in_step(i, j));
    }
    assert(after.one_record_per_round()) by {
        assert forall|i: int, j: int, k: int|
            0 <= i < after.members.len() && 0 <= k < j
                < after.members[i].contribution_history.len() implies (
        #[trigger] after.members[i].contribution_history[k]).round != (
        #[trigger] after.members[i].contribution_history[j]).round by {
            assert(before.members[i].contribution_history[k].round
                != before.members[i].contribution_history[j].round);
        }
    }
    lemma_pool_with_new_member(before.members, after.members[count], before.current_round, 0);
    assert(after.members =~= before.members.push(after.members[count]));
}

/// Recording a contribution keeps a circle coherent.
pub proof fn law_contribution_keeps_coherence(
    state: CircleState,
    key: Seq<u8>,
    amount: Satoshis,
    timestamp: u64,
    txid: Seq<u8>,
)
    requires
        state@.is_coherent(),
        state@.contribution_error(key, amount) is None,
    ensures
        state@.with_contribution(
            state@.member_position(key),
            RecordView { round: state.current_round, amount, timestamp, txid },
        ).is_coherent(),
{
    let before = state@;
    let p: int = before.member_position(key);
    let record = RecordView { round: state.current_round, amount, timestamp, txid };
    let after = before.with_contribution(p, record);
    lemma_member_has_position(before, key);
    let old_history = before.members[p].contribution_history;
    let new_history = after.members[p].contribution_history;
    let last: int = old_history.len() as int;
    assert forall|k: int| 0 <= k < last implies (#[trigger] old_history[k]).round
        != state.current_round by {}
    assert forall|i: int, j: int| 0 <= i < j < after.members.len() implies (
    #[trigger] after.members[i]).pubkey != (#[trigger] after.members[j]).pubkey by {
        assert(before.members[i].pubkey != before.members[j].pubkey);
    }
    assert forall|i: int| 0 <= i < after.members.len() implies #[trigger] after.member_is_in_step(
        i,
    ) by {
        assert(before.member_is_in_step(i));
    }
    assert forall|i: int, j: int|
        0 <= i < after.members.len() && 0 <= j < after.members[i].contribution_history.len()
        implies #[trigger] after.record_is_in_step(i, j) by {
        if i == p && j == last {
        } else {
            assert(before.record_is_in_step(i, j));
        }
    }
    assert(after.one_record_per_round()) by {
        assert forall|i: int, j: int, k: int|
            0 <= i < after.members.len() && 0 <= k < j
                < after.members[i].contribution_history.len() implies (
        #[trigger] after.members[i].contribution_history[k]).round != (
        #[trigger] after.members[i].contribution_history[j]).round by {
            if i == p && j == last {
                assert(old_history[k].round != state.current_round);
            } else {
                assert(before.members[i].contribution_history[k].round
                    != before.members[i].contribution_history[j].round);
            }
        }
    }
    lemma_amount_without_record(old_history, state.current_round, 0);
    assert forall|k: int| 0 <= k < last implies (#[trigger] new_history[k]).round
        != state.current_round by {
        assert(new_history[k] == old_history[k]);
    }
    lemma_amount_of_first_record(new_history, state.current_round, 0, last);
    lemma_pool_with_changed_member(
        before.members,
        p,
        after.members[p],
        state.current_round,
        amount as nat,
        0,
    );
}

/// Paying a round out keeps a circle coherent.
pub proof fn law_payout_keeps_coherence(state: CircleState, timestamp: u64)
    requires
        state@.is_coherent(),
        state@.payout_error() is None,
    ensures
        state@.after_payout(timestamp).is_coherent(),
{
    let before = state@;
    let after = before.after_payout(timestamp);
    let turn: int = before.current_payout_index as int;
    let count: nat = before.members.len();
    assert(turn == before.current_round);
    if turn + 1 < count {
        lemma_small_mod((turn + 1) as nat, count);
    } else {
        lemma_mod_self_0(count as int);
    }
    assert forall|i: int, j: int| 0 <= i < j < after.members.len() implies (
    #[trigger] after.members[i]).pubkey != (#[trigger] after.members[j]).pubkey by {
        assert(before.members[i].pubkey != before.members[j].pubkey);
    }
    assert forall|i: int| 0 <= i < after.members.len() implies #[trigger] after.member_is_in_step(
        i,
    ) by {
        assert(before.member_is_in_step(i));
    }
    assert forall|i: int, j: int|
        0 <= i < after.members.len() && 0 <= j < after.members[i].contribution_history.len()
        implies #[trigger] after.record_is_in_step(i, j) by {
        assert(before.record_is_in_step(i, j));
    }
    assert(after.one_record_per_round()) by {
        assert forall|i: int, j: int, k: int|
            0 <= i < after.members.len() && 0 <= k < j
                < after.members[i].contribution_history.len() implies (
        #[trigger] after.members[i].contribution_history[k]).round != (
        #[trigger] after.members[i].contribution_history[j]).round by {
            assert(before.members[i].contribution_history[k].round
                != before.members[i].contribution_history[j].round);
        }
    }
    assert forall|i: int| 0 <= i < after.members.len() implies !has_record_for(
        (#[trigger] after.members[i]).contribution_history,
        after.current_round,
    ) by {
        let history = after.members[i].contribution_history;
        assert forall|k: int| 0 <= k < history.len() implies (#[trigger] history[k]).round
            != after.current_round by {
            assert(before.record_is_in_step(i, k));
        }
    }
    lemma_pool_without_records(after.members, after.current_round, 0);
}

/// A coherent circle with at least one member is consistent, so validation
/// accepts every state that the operations lead to once the first member
/// has joined.
pub proof fn law_coherent_circle_is_valid(state: CircleState)
    requires
        state@.is_coherent(),
        state@.members.len() > 0,
    ensures
        state@.is_valid(),
        state@.validation_error() is None,
{
    let s = state@;
    assert forall|i: int| 0 <= i < s.members.len() implies {
        &&& (#[trigger] s.members[i]).payout_round < s.total_rounds
        &&& s.members[i].has_received_payout ==> s.members[i].payout_round < s.current_round
    } by {
        assert(s.member_is_in_step(i));
    }
    assert forall|i: int, j: int|
        0 <= i < s.members.len() && 0 <= j < s.members[i].contribution_history.len() implies {
        &&& (#[trigger] s.members[i].contribution_history[j]).round < s.total_rounds
        &&& s.members[i].contribution_history[j].amount == s.contribution_per_round
    } by {
        assert(s.record_is_in_step(i, j));
    }
    lemma_no_error_iff_valid(s);
}

/// Admitting a member to a consistent circle gives a consistent circle.
pub proof fn law_new_member_keeps_validity(
    state: CircleState,
    key: Seq<u8>,
    payout_round: u32,
    timestamp: u64,
)
    requires
        state@.is_valid(),
        state@.add_member_error(key, payout_round) is None,
    ensures
        state@.with_member(key, payout_round, timestamp).is_valid(),
{
    let before = state@;
    let after = before.with_member(key, payout_round, timestamp);
    let count: int = before.members.len() as int;
    assert forall|i: int| 0 <= i < after.members.len() implies {
        &&& (#[trigger] after.members[i]).payout_round < after.total_rounds
        &&& after.members[i].has_received_payout ==> after.members[i].payout_round
            < after.current_round
    } by {
        if i < count {
            assert(after.members[i] == before.members[i]);
        }
    }
    assert forall|i: int, j: int|
        0 <= i < after.members.len() && 0 <= j < after.members[i].contribution_history.len()
        implies {
        &&& (#[trigger] after.members[i].contribution_history[j]).round < after.total_rounds
        &&& after.members[i].contribution_history[j].amount == after.contribution_per_round
    } by {
        assert(before.members[i].contribution_history[j].round < before.total_rounds);
    }
    assert forall|i: int, j: int, k: int|
        0 <= i < after.members.len() && 0 <= k < j < after.members[i].contribution_history.len()
        implies (#[trigger] after.members[i].contribution_history[k]).round != (
    #[trigger] after.members[i].contribution_history[j]).round by {
        assert(before.members[i].contribution_history[k].round
            != before.members[i].contribution_history[j].round);
    }
    lemma_pool_with_new_member(before.members, after.members[count], before.current_round, 0);
    assert(after.members =~= before.members.push(after.members[count]));
}

/// Recording a contribution in a consistent circle gives a consistent
/// circle, provided the current round is one of the circle's rounds.
pub proof fn law_contribution_keeps_validity(
    state: CircleState,
    key: Seq<u8>,
    amount: Satoshis,
    timestamp: u64,
    txid: Seq<u8>,
)
    requires
        state@.is_valid(),
        state@.contribution_error(key, amount) is None,
        state.current_round < state.total_rounds,
    ensures
        state@.with_contribution(
            state@.member_position(key),
            RecordView { round: state.current_round, amount, timestamp, txid },
        ).is_valid(),
{
    let before = state@;
    let p: int = before.member_position(key);
    let record = RecordView { round: state.current_round, amount, timestamp, txid };
    let after = before.with_contribution(p, record);
    lemma_member_has_position(before, key);
    let old_history = before.members[p].contribution_history;
    let new_history = after.members[p].contribution_history;
    let last: int = old_history.len() as int;
    assert forall|k: int| 0 <= k < last implies (#[trigger] old_history[k]).round
        != state.current_round by {}
    assert forall|i: int| 0 <= i < after.members.len() implies {
        &&& (#[trigger] after.members[i]).payout_round < after.total_rounds
        &&& after.members[i].has_received_payout ==> after.members[i].payout_round
            < after.current_round
    } by {
        assert(before.members[i].payout_round < before.total_rounds);
    }
    assert forall|i: int, j: int|
        0 <= i < after.members.len() && 0 <= j < after.members[i].contribution_history.len()
        implies {
        &&& (#[trigger] after.members[i].contribution_history[j]).round < after.total_rounds
        &&& after.members[i].contribution_history[j].amount == after.contribution_per_round
    } by {
        if i == p && j == last {
        } else {
            assert(before.members[i].contribution_history[j].round < before.total_rounds);
        }
    }
    assert forall|i: int, j: int, k: int|
        0 <= i < after.members.len() && 0 <= k < j < after.members[i].contribution_history.len()
        implies (#[trigger] after.members[i].contribution_history[k]).round != (
    #[trigger] after.members[i].contribution_history[j]).round by {
        if i == p && j == last {
            assert(old_history[k].round != state.current_round);
        } else {
            assert(before.members[i].contribution_history[k].round
                != before.members[i].contribution_history[j].round);
        }
    }
    lemma_amount_without_record(old_history, state.current_round, 0);
    assert forall|k: int| 0 <= k < last implies (#[trigger] new_history[k]).round
        != state.current_round by {
        assert(new_history[k] == old_history[k]);
    }
    lemma_amount_of_first_record(new_history, state.current_round, 0, last);
    lemma_pool_with_changed_member(
        before.members,
        p,
        after.members[p],
        state.current_round,
        amount as nat,
        0,
    );
}

/// Paying a round out of a consistent circle gives a consistent circle,
/// provided the current round is one of the circle's rounds, the recipient
/// asked for a round no later than the current one, and nobody has a record
/// for the round that begins.
pub proof fn law_payout_keeps_validity(state: CircleState, timestamp: u64)
    requires
        state@.is_valid(),
        state@.payout_error() is None,
        state.current_round < state.total_rounds,
        state@.members[state.current_payout_index as int].payout_round <= state.current_round,
        forall|i: int|
            0 <= i < state@.members.len() ==> !has_record_for(
                (#[trigger] state@.members[i]).contribution_history,
                (state.current_round + 1) as u32,
            ),
    ensures
        state@.after_payout(timestamp).is_valid(),
{
    let before = state@;
    let after = before.after_payout(timestamp);
    let turn: int = before.current_payout_index as int;
    let count: nat = before.members.len();
    if turn + 1 < count {
        lemma_small_mod((turn + 1) as nat, count);
    } else {
        lemma_mod_self_0(count as int);
    }
    assert forall|i: int| 0 <= i < after.members.len() implies {
        &&& (#[trigger] after.members[i]).payout_round < after.total_rounds
        &&& after.members[i].has_received_payout ==> after.members[i].payout_round
            < after.current_round
    } by {
        assert(before.members[i].payout_round < before.total_rounds);
    }
    assert forall|i: int, j: int|
        0 <= i < after.members.len() && 0 <= j < after.members[i].contribution_history.len()
        implies {
        &&& (#[trigger] after.members[i].contribution_history[j]).round < after.total_rounds
        &&& after.members[i].contribution_history[j].amount == after.contribution_per_round
    } by {
        assert(before.members[i].contribution_history[j].round < before.total_rounds);
    }
    assert forall|i: int, j: int, k: int|
        0 <= i < after.members.len() && 0 <= k < j < after.members[i].contribution_history.len()
        implies (#[trigger] after.members[i].contribution_history[k]).round != (
    #[trigger] after.members[i].contribution_history[j]).round by {
        assert(before.members[i].contribution_history[k].round
            != before.members[i].contribution_history[j].round);
    }
    assert forall|i: int| 0 <= i < after.members.len() implies !has_record_for(
        (#[trigger] after.members[i]).contribution_history,
        after.current_round,
    ) by {
        assert(after.members[i].contribution_history
            == before.members[i].contribution_history);
    }
    lemma_pool_without_records(after.members, after.current_round, 0);
}

} // verus!
