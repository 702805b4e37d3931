//! Questions about one member's contribution history.

use vstd::prelude::*;

use crate::model::{ContributionRecord, RecordView};

verus! {

/// Whether some record of the history is for the given round.
pub open spec fn has_record_for(history: Seq<RecordView>, round: u32) -> bool {
    exists|k: int| 0 <= k < history.len() && (#[trigger] history[k]).round == round
}

/// Whether record `k` is the first one for the given round.
pub open spec fn is_first_record_for(history: Seq<RecordView>, round: u32, k: int) -> bool {
    &&& 0 <= k < history.len()
    &&& history[k].round == round
    &&& forall|e: int| 0 <= e < k ==> (#[trigger] history[e]).round != round
}

/// The amount of the first record for the given round at or after position
/// `from`, and 0 where there is none.
pub open spec fn amount_from(history: Seq<RecordView>, round: u32, from: int) -> nat
    decreases history.len() - from,
{
    if from < 0 || from >= history.len() {
        0
    } else if history[from].round == round {
        history[from].amount as nat
    } else {
        amount_from(history, round, from + 1)
    }
}

/// What the history counts for in the given round: the amount of its first
/// record for that round, and 0 where it has none.
pub open spec fn contribution_in_round(history: Seq<RecordView>, round: u32) -> nat {
    amount_from(history, round, 0)
}

/// A history without a record for the round counts for nothing in it.
pub proof fn lemma_amount_without_record(history: Seq<RecordView>, round: u32, from: int)
    requires
        0 <= from,
        forall|k: int| from <= k < history.len() ==> (#[trigger] history[k]).round != round,
    ensures
        amount_from(history, round, from) == 0,
    decreases history.len() - from,
{
    if from < history.len() {
        lemma_amount_without_record(history, round, from + 1);
    }
}

/// A history counts in a round for the amount of its first record for it.
pub proof fn lemma_amount_of_first_record(
    history: Seq<RecordView>,
    round: u32,
    from: int,
    k: int,
)
    requires
        0 <= from <= k < history.len(),
        history[k].round == round,
        forall|e: int| from <= e < k ==> (#[trigger] history[e]).round != round,
    ensures
        amount_from(history, round, from) == history[k].amount,
    decreases k - from,
{
    if from < k {
        lemma_amount_of_first_record(history, round, from + 1, k);
    }
}

/// The view of a history given as a vector.
pub open spec fn history_view(history: Seq<ContributionRecord>) -> Seq<RecordView> {
    history.map_values(|r: ContributionRecord| r@)
}

/// The position of the first record for the given round.
pub fn find_record(history: &Vec<ContributionRecord>, round: u32) -> (found: Option<usize>)
    ensures
        match found {
            Some(k) => is_first_record_for(history_view(history@), round, k as int),
            None => !has_record_for(history_view(history@), round),
        },
{
    let mut k: usize = 0;
    while k < history.len()
        invariant
            0 <= k <= history.len(),
            forall|e: int| 0 <= e < k ==> (#[trigger] history_view(history@)[e]).round != round,
        decreases history.len() - k,
    {
        if history[k].round == round {
            return Some(k);
        }
        k += 1;
    }
    None
}

} // verus!
