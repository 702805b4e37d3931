//! The check a ledger asks for before it accepts a transaction: at least one
//! output carries data for the app that is more than nothing. What the data
//! says is not looked at.

use vstd::prelude::*;

verus! {

/// What one output of a transaction carries for the app.
#[derive(Debug, Clone, Copy, PartialEq, Eq, Structural)]
pub enum AppData {
    /// The output has no entry for the app.
    Missing,
    /// The output has an entry for the app, and the entry is empty.
    Empty,
    /// The output has an entry for the app that holds something.
    Filled,
}

/// Why a transaction's outputs are refused.
#[derive(Debug, Clone, Copy, PartialEq, Eq, Structural)]
pub enum LedgerError {
    /// No output has an entry for the app.
    NoAppData,
    /// Some output has an entry for the app, and every such entry is empty.
    EmptyAppData,
}

/// Whether some output has an entry for the app that holds something.
pub open spec fn has_filled_entry(outs: Seq<AppData>) -> bool {
    exists|i: int| 0 <= i < outs.len() && #[trigger] outs[i] == AppData::Filled
}

/// Whether some output has an entry for the app, empty or not.
pub open spec fn has_entry(outs: Seq<AppData>) -> bool {
    exists|i: int| 0 <= i < outs.len() && #[trigger] outs[i] != AppData::Missing
}

/// Why the outputs are refused, if they are. One entry that holds something
/// is enough, wherever it stands among the outputs.
pub open spec fn outputs_error(outs: Seq<AppData>) -> Option<LedgerError> {
    if has_filled_entry(outs) {
        None
    } else if has_entry(outs) {
        Some(LedgerError::EmptyAppData)
    } else {
        Some(LedgerError::NoAppData)
    }
}

/// Checks the outputs of a transaction, given as what each carries for the
/// app. They are accepted where at least one output has an entry for the
/// app that holds something; otherwise they are refused, for want of any
/// entry or because every entry is empty.
pub fn check_outputs(outs: &[AppData]) -> (result: Result<(), LedgerError>)
    ensures
        result == match outputs_error(outs@) {
            Some(e) => Err::<(), LedgerError>(e),
            None => Ok(()),
        },
        result is Ok <==> exists|i: int| 0 <= i < outs@.len() && outs@[i] == AppData::Filled,
        result == Err::<(), LedgerError>(LedgerError::NoAppData) <==> forall|i: int|
            0 <= i < outs@.len() ==> outs@[i] == AppData::Missing,
        result == Err::<(), LedgerError>(LedgerError::EmptyAppData) <==> (exists|i: int|
            0 <= i < outs@.len() && outs@[i] == AppData::Empty) && forall|i: int|
            0 <= i < outs@.len() ==> outs@[i] != AppData::Filled,
{
    let mut any_entry: bool = false;
    let mut k: usize = 0;
    while k < outs.len()
        invariant
            0 <= k <= outs.len(),
            forall|e: int| 0 <= e < k ==> outs@[e] != AppData::Filled,
            any_entry <==> exists|e: int| 0 <= e < k && outs@[e] == AppData::Empty,
        decreases outs.len() - k,
    {
        match outs[k] {
            AppData::Missing => {},
            AppData::Empty => {
                any_entry = true;
            },
            AppData::Filled => {
                return Ok(());
            },
        }
        k += 1;
    }
    if any_entry {
        Err(LedgerError::EmptyAppData)
    } else {
        Err(LedgerError::NoAppData)
    }
}

/// Whether the ledger accepts the outputs: whether at least one of them has
/// an entry for the app that holds something.
pub fn outputs_accepted(outs: &[AppData]) -> (accepted: bool)
    ensures
        accepted == (outputs_error(outs@) is None),
        accepted <==> exists|i: int| 0 <= i < outs@.len() && outs@[i] == AppData::Filled,
{
    check_outputs(outs).is_ok()
}

} // verus!
