//! Inserting recognized text by clipboard paste: the order of the steps, and
//! the key strokes of the paste shortcut.
use vstd::prelude::*;

verus! {

/// How recognized text is pasted into the active target.
#[derive(Debug, Clone, Copy, PartialEq, Eq, Structural)]
pub struct ClipboardInserter {
    pub restore_clipboard: bool,
    pub delay_before_paste_ms: u64,
    pub delay_before_restore_ms: u64,
}

/// One step of inserting text after it was put on the clipboard.
#[derive(Debug, Clone, Copy, PartialEq, Eq, Structural)]
pub enum InsertAction {
    SleepBeforePaste(u64),
    FocusWindow(isize),
    SleepAfterFocus(u64),
    Paste,
    SleepBeforeRestore(u64),
    RestoreClipboard,
}

/// A key of the paste shortcut.
#[derive(Debug, Clone, Copy, PartialEq, Eq, Structural)]
pub enum Key {
    Control,
    V,
}

/// A key stroke of the paste shortcut.
#[derive(Debug, Clone, Copy, PartialEq, Eq, Structural)]
pub enum KeyAction {
    Press(Key),
    Release(Key),
}

/// How long to wait after focusing the target window.
pub const FOCUS_SETTLE_MS: u64 = 40;

/// The steps of an insertion: wait, focus the target window when there is
/// one (a zero handle is none), wait for it, paste, and, when the previous
/// clipboard text is kept and there was one, wait and restore it.
pub open spec fn insert_plan(
    inserter: ClipboardInserter,
    target_window: Option<isize>,
    has_previous_text: bool,
) -> Seq<InsertAction> {
    let focus = match target_window {
        Some(w) => if w != 0 {
            seq![InsertAction::FocusWindow(w), InsertAction::SleepAfterFocus(FOCUS_SETTLE_MS)]
        } else {
            Seq::empty()
        },
        None => Seq::empty(),
    };
    let restore = if inserter.restore_clipboard && has_previous_text {
        seq![
            InsertAction::SleepBeforeRestore(inserter.delay_before_restore_ms),
            InsertAction::RestoreClipboard,
        ]
    } else {
        Seq::empty()
    };
    seq![InsertAction::SleepBeforePaste(inserter.delay_before_paste_ms)] + focus + seq![
        InsertAction::Paste,
    ] + restore
}

/// The steps that insert text once it is on the clipboard.
pub fn plan_insert_actions(
    inserter: &ClipboardInserter,
    target_window: Option<isize>,
    has_previous_text: bool,
) -> (actions: Vec<InsertAction>)
    ensures
        actions@ == insert_plan(*inserter, target_window, has_previous_text),
{
    let mut actions: Vec<InsertAction> = Vec::new();
    actions.push(InsertAction::SleepBeforePaste(inserter.delay_before_paste_ms));
    if let Some(window) = target_window {
        if window != 0 {
            actions.push(InsertAction::FocusWindow(window));
            actions.push(InsertAction::SleepAfterFocus(FOCUS_SETTLE_MS));
        }
    }
    actions.push(InsertAction::Paste);
    if inserter.restore_clipboard && has_previous_text {
        actions.push(InsertAction::SleepBeforeRestore(inserter.delay_before_restore_ms));
        actions.push(InsertAction::RestoreClipboard);
    }
    proof {
        assert(actions@ =~= insert_plan(*inserter, target_window, has_previous_text));
    }
    actions
}

/// The key strokes of Ctrl+V: press Control, press V, release V, release Control.
pub fn ctrl_v_key_sequence() -> (keys: [KeyAction; 4])
    ensures
        keys@ == seq![
            KeyAction::Press(Key::Control),
            KeyAction::Press(Key::V),
            KeyAction::Release(Key::V),
            KeyAction::Release(Key::Control),
        ],
{
    let keys = [
        KeyAction::Press(Key::Control),
        KeyAction::Press(Key::V),
        KeyAction::Release(Key::V),
        KeyAction::Release(Key::Control),
    ];
    proof {
        assert(keys@ =~= seq![
            KeyAction::Press(Key::Control),
            KeyAction::Press(Key::V),
            KeyAction::Release(Key::V),
            KeyAction::Release(Key::Control),
        ]);
    }
    keys
}

/// Every insertion pastes exactly once, and restores the clipboard only after
/// the paste.
pub proof fn law_plan_pastes_once_before_restore(
    inserter: ClipboardInserter,
    target_window: Option<isize>,
    has_previous_text: bool,
)
    ensures
        ({
            let plan = insert_plan(inserter, target_window, has_previous_text);
            &&& exists|p: int|
                0 <= p < plan.len() && plan[p] == InsertAction::Paste && (forall|q: int|
                    0 <= q < plan.len() && q != p ==> plan[q] != InsertAction::Paste) && (forall|
                    q: int,
                |
                    0 <= q < plan.len() && plan[q] == InsertAction::RestoreClipboard ==> p < q)
            &&& plan[0] == InsertAction::SleepBeforePaste(inserter.delay_before_paste_ms)
        }),
{
    let plan = insert_plan(inserter, target_window, has_previous_text);
    let focused = match target_window {
        Some(w) => w != 0,
        None => false,
    };
    let p: int = if focused {
        3
    } else {
        1
    };
    assert(plan[p] == InsertAction::Paste);
    assert forall|q: int| 0 <= q < plan.len() && q != p implies plan[q] != InsertAction::Paste by {}
    assert forall|q: int|
        0 <= q < plan.len() && plan[q] == InsertAction::RestoreClipboard implies p < q by {}
}

} // verus!
