//! Click-through of the transparent parts of the dashboard.
//!
//! The frontend reports the screen rectangles of its cards, and a background
//! loop polls the cursor position independently of the webview. Whether the
//! cursor is over a card is computed by the shell; this module decides when
//! the window's click-through flag is switched, which happens only when the
//! cursor crosses a card boundary.

use vstd::prelude::*;

verus! {

/// The window ignores the cursor (is click-through) until the cursor is
/// first seen over a card.
pub const IGNORE_CURSOR_AT_START: bool = true;

/// The result of one poll of the cursor.
#[derive(Clone, Copy, PartialEq, Eq, Structural, Debug)]
pub struct HitTestStep {
    /// Whether the window ignores the cursor from now on.
    pub ignore_cursor: bool,
    /// The value to hand to the window's click-through switch, where it must
    /// be switched at all.
    pub switch_to: Option<bool>,
}

/// The decision for one poll: `last_ignore` is what the window was last set
/// to, `over_card` whether the cursor is over some card.
pub open spec fn hit_test_decision(last_ignore: bool, over_card: bool) -> HitTestStep {
    HitTestStep {
        ignore_cursor: !over_card,
        switch_to: if !over_card != last_ignore {
            Some(!over_card)
        } else {
            None
        },
    }
}

/// Decides one poll of the click-through loop.
pub fn hit_test_step(last_ignore: bool, over_card: bool) -> (s: HitTestStep)
    ensures
        s == hit_test_decision(last_ignore, over_card),
{
    let should_ignore = !over_card;
    if should_ignore != last_ignore {
        HitTestStep { ignore_cursor: should_ignore, switch_to: Some(should_ignore) }
    } else {
        HitTestStep { ignore_cursor: should_ignore, switch_to: None }
    }
}

/// The click-through flag the window has after `step` was carried out, where
/// it had `window` before.
pub open spec fn window_after(window: bool, step: HitTestStep) -> bool {
    match step.switch_to {
        Some(b) => b,
        None => window,
    }
}

/// The loop's remembered flag always is the window's flag: if it was before
/// a poll, it is after, and then the cursor is over a card exactly when the
/// window takes clicks.
pub proof fn lemma_remembered_flag_matches_window(window: bool, over_card: bool)
    ensures
        window_after(window, hit_test_decision(window, over_card)) == hit_test_decision(
            window,
            over_card,
        ).ignore_cursor,
        hit_test_decision(window, over_card).ignore_cursor == !over_card,
{
}

/// The window is only switched when the cursor crosses a card boundary:
/// polling again while it stays on the same side switches nothing.
pub proof fn lemma_no_switch_without_crossing(last_ignore: bool, over_card: bool)
    ensures
        hit_test_decision(hit_test_decision(last_ignore, over_card).ignore_cursor, over_card).switch_to
            is None,
        hit_test_decision(last_ignore, over_card).switch_to is Some <==> (!over_card != last_ignore),
{
}

/// When the window is switched, it is switched to ignore the cursor exactly
/// when the cursor is not over a card.
pub proof fn lemma_switch_value(last_ignore: bool, over_card: bool)
    ensures
        hit_test_decision(last_ignore, over_card).switch_to matches Some(b) ==> b == !over_card,
        last_ignore && over_card ==> hit_test_decision(last_ignore, over_card).switch_to == Some(
            false,
        ),
        !last_ignore && !over_card ==> hit_test_decision(last_ignore, over_card).switch_to == Some(
            true,
        ),
{
}

} // verus!
