//! The life of a cheque: the statuses it can be in and the moves between
//! them. A cheque is registered, then deposited or handed on, then cleared
//! or bounced; only a registered cheque can be cancelled.
use vstd::prelude::*;
use crate::text::same_text;

verus! {

/// Why a cheque's change of status was refused.
#[derive(Debug, Clone, Copy, PartialEq, Eq, Structural)]
pub enum ChequeStatusError {
    /// CHK-008: the new status is not a cheque status.
    UnknownStatus,
    /// CHK-010: the cheque cannot move from its status to the new one.
    MoveNotAllowed,
}

/// The statuses of a cheque.
pub open spec fn is_cheque_status(s: Seq<char>) -> bool {
    s == "registered"@ || s == "deposited"@ || s == "transferred"@ || s == "cleared"@ || s == "bounced"@
        || s == "cancelled"@
}

/// The moves a cheque may make: a registered cheque is deposited, handed on
/// or cancelled; a deposited or handed-on cheque clears or bounces.
pub open spec fn cheque_move_allowed(from: Seq<char>, to: Seq<char>) -> bool {
    ||| from == "registered"@ && (to == "deposited"@ || to == "transferred"@ || to == "cancelled"@)
    ||| (from == "deposited"@ || from == "transferred"@) && (to == "cleared"@ || to == "bounced"@)
}

/// Checks a cheque's change of status from `current` to `target`.
pub fn cheque_status_change(current: &str, target: &str) -> (r: Result<(), ChequeStatusError>)
    ensures
        r == (if !is_cheque_status(target@) {
            Err(ChequeStatusError::UnknownStatus)
        } else if cheque_move_allowed(current@, target@) {
            Ok(())
        } else {
            Err(ChequeStatusError::MoveNotAllowed)
        }),
{
    let known = same_text(target, "registered") || same_text(target, "deposited") || same_text(target, "transferred")
        || same_text(target, "cleared") || same_text(target, "bounced") || same_text(target, "cancelled");
    if !known {
        return Err(ChequeStatusError::UnknownStatus);
    }
    let from_registered = same_text(current, "registered");
    let from_moved = same_text(current, "deposited") || same_text(current, "transferred");
    let allowed = (from_registered && (same_text(target, "deposited") || same_text(target, "transferred")
        || same_text(target, "cancelled"))) || (from_moved && (same_text(target, "cleared") || same_text(
        target,
        "bounced",
    )));
    if allowed {
        Ok(())
    } else {
        Err(ChequeStatusError::MoveNotAllowed)
    }
}

/// A cleared, bounced or cancelled cheque is final: no move leads out of
/// it; and no move ever leads a cheque back to registered.
pub proof fn lemma_cheque_final_statuses(from: Seq<char>, to: Seq<char>)
    ensures
        !cheque_move_allowed("cleared"@, to),
        !cheque_move_allowed("bounced"@, to),
        !cheque_move_allowed("cancelled"@, to),
        !cheque_move_allowed(from, "registered"@),
{
    reveal_strlit("registered");
    reveal_strlit("deposited");
    reveal_strlit("transferred");
    reveal_strlit("cleared");
    reveal_strlit("bounced");
    reveal_strlit("cancelled");
    assert("cancelled"@[0] != "deposited"@[0]);
    assert("cleared"@.len() != "registered"@.len());
    assert("cleared"@.len() != "deposited"@.len());
    assert("cleared"@.len() != "transferred"@.len());
    assert("bounced"@.len() != "registered"@.len());
    assert("bounced"@.len() != "deposited"@.len());
    assert("bounced"@.len() != "transferred"@.len());
    assert("cancelled"@.len() != "registered"@.len());
    assert("cancelled"@.len() != "transferred"@.len());
    assert("registered"@.len() != "deposited"@.len());
    assert("registered"@.len() != "transferred"@.len());
    assert("registered"@.len() != "cancelled"@.len());
    assert("registered"@.len() != "cleared"@.len());
    assert("registered"@.len() != "bounced"@.len());
}

} // verus!
