use desktop_host::cheques::{cheque_status_change, ChequeStatusError};

#[test]
fn cheque_moves_follow_its_life() {
    assert_eq!(cheque_status_change("registered", "deposited"), Ok(()));
    assert_eq!(cheque_status_change("registered", "transferred"), Ok(()));
    assert_eq!(cheque_status_change("registered", "cancelled"), Ok(()));
    assert_eq!(cheque_status_change("deposited", "cleared"), Ok(()));
    assert_eq!(cheque_status_change("deposited", "bounced"), Ok(()));
    assert_eq!(cheque_status_change("transferred", "cleared"), Ok(()));
    assert_eq!(cheque_status_change("transferred", "bounced"), Ok(()));
}

#[test]
fn cheque_moves_refused() {
    assert_eq!(cheque_status_change("registered", "lost"), Err(ChequeStatusError::UnknownStatus));
    assert_eq!(cheque_status_change("registered", "cleared"), Err(ChequeStatusError::MoveNotAllowed));
    assert_eq!(cheque_status_change("deposited", "cancelled"), Err(ChequeStatusError::MoveNotAllowed));
    assert_eq!(cheque_status_change("deposited", "registered"), Err(ChequeStatusError::MoveNotAllowed));
}

#[test]
fn settled_cheques_are_final() {
    for from in ["cleared", "bounced", "cancelled"] {
        for to in ["registered", "deposited", "transferred", "cleared", "bounced", "cancelled"] {
            assert_eq!(cheque_status_change(from, to), Err(ChequeStatusError::MoveNotAllowed));
        }
    }
}
