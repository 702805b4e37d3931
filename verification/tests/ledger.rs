use charmcircle::ledger::{check_outputs, outputs_accepted, AppData, LedgerError};

#[test]
fn outputs_without_app_data_are_refused() {
    assert_eq!(check_outputs(&[]), Err(LedgerError::NoAppData));
    assert_eq!(check_outputs(&[AppData::Missing, AppData::Missing]), Err(LedgerError::NoAppData));
    assert!(!outputs_accepted(&[]));
    assert!(!outputs_accepted(&[AppData::Missing]));
}

#[test]
fn one_filled_entry_is_enough() {
    assert_eq!(check_outputs(&[AppData::Filled]), Ok(()));
    assert_eq!(check_outputs(&[AppData::Missing, AppData::Filled, AppData::Empty]), Ok(()));
    // An empty entry before the filled one does not stand against it.
    assert_eq!(check_outputs(&[AppData::Empty, AppData::Filled]), Ok(()));
    assert_eq!(check_outputs(&[AppData::Missing, AppData::Empty, AppData::Filled]), Ok(()));
    assert_eq!(
        check_outputs(&[AppData::Empty, AppData::Missing, AppData::Empty, AppData::Filled]),
        Ok(())
    );
    assert!(outputs_accepted(&[AppData::Missing, AppData::Filled]));
    assert!(outputs_accepted(&[AppData::Empty, AppData::Filled]));
    assert!(outputs_accepted(&[AppData::Filled, AppData::Empty]));
}

#[test]
fn entries_that_are_all_empty_are_refused() {
    assert_eq!(check_outputs(&[AppData::Empty]), Err(LedgerError::EmptyAppData));
    assert_eq!(
        check_outputs(&[AppData::Missing, AppData::Empty, AppData::Missing]),
        Err(LedgerError::EmptyAppData)
    );
    assert_eq!(
        check_outputs(&[AppData::Empty, AppData::Empty]),
        Err(LedgerError::EmptyAppData)
    );
    assert!(!outputs_accepted(&[AppData::Empty, AppData::Missing]));
}
