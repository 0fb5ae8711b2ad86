//! Keyboard decisions of the Today view's calendar grid.
use vstd::prelude::*;
use crate::date::{CalendarDate, first_ordinal, last_ordinal, lemma_ordinal_injective};
use crate::keys::{Key, is_char, key_is_char};

verus! {

/// What a key pressed on a day cell asks for.
#[derive(Debug, Clone, Copy, PartialEq, Eq, Structural)]
pub enum CellKeyAction {
    /// Move the selection (and the view) to this date.
    SelectDate(CalendarDate),
    /// Select this date and open its daily note.
    OpenDate(CalendarDate),
    /// The key means nothing on a day cell.
    Ignore,
}

/// The arrow keys move the selection by a day or a week.
pub open spec fn arrow_step(key: Key) -> int {
    match key {
        Key::ArrowLeft => -1,
        Key::ArrowRight => 1,
        Key::ArrowUp => -7,
        Key::ArrowDown => 7,
        _ => 0,
    }
}

/// The key is one of the four arrows.
pub open spec fn is_arrow(key: Key) -> bool {
    key is ArrowLeft || key is ArrowRight || key is ArrowUp || key is ArrowDown
}

/// Enter or Space open the day's note.
pub open spec fn opens_cell(key: Key) -> bool {
    key is Enter || is_char(key, ' ')
}

/// Decides what a key pressed on the day cell of `current_date` does.
pub fn cell_key_action(key: &Key, current_date: CalendarDate) -> (action: CellKeyAction)
    requires
        current_date.is_valid(),
        first_ordinal() <= current_date.ordinal() + arrow_step(*key) <= last_ordinal(),
    ensures
        is_arrow(*key) ==> (action matches CellKeyAction::SelectDate(target) && target.is_valid()
            && target.ordinal() == current_date.ordinal() + arrow_step(*key)),
        opens_cell(*key) ==> action == CellKeyAction::OpenDate(current_date),
        !is_arrow(*key) && !opens_cell(*key) ==> action == CellKeyAction::Ignore,
{
    match key {
        Key::ArrowLeft => CellKeyAction::SelectDate(current_date.add_days(-1)),
        Key::ArrowRight => CellKeyAction::SelectDate(current_date.add_days(1)),
        Key::ArrowUp => CellKeyAction::SelectDate(current_date.add_days(-7)),
        Key::ArrowDown => CellKeyAction::SelectDate(current_date.add_days(7)),
        Key::Enter => CellKeyAction::OpenDate(current_date),
        _ => {
            if key_is_char(key, ' ') {
                CellKeyAction::OpenDate(current_date)
            } else {
                CellKeyAction::Ignore
            }
        },
    }
}

/// An arrow followed by the opposite arrow lands on the starting day:
/// stepping by `step` and then by `-step` gives back the same date.
pub proof fn lemma_opposite_arrows_return(start: CalendarDate, step: int, moved: CalendarDate, back: CalendarDate)
    requires
        start.is_valid(),
        moved.is_valid(),
        back.is_valid(),
        moved.ordinal() == start.ordinal() + step,
        back.ordinal() == moved.ordinal() - step,
    ensures
        back == start,
{
    lemma_ordinal_injective(back, start);
}

} // verus!
