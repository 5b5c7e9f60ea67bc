//! Quick Switch: the focus state machine that decides when an Open/Save
//! dialog should be navigated to the folder of the last Explorer window.
//!
//! The sequence is strict: an Explorer window (`CabinetWClass`) gains focus,
//! then a file dialog (`#32770`) gains focus. Transient shell windows in
//! between are ignored; any other window resets the sequence.

use vstd::prelude::*;

use crate::chars::{char_vec, push_char, str_eq};

verus! {

/// The window class of File Explorer windows.
pub open spec fn explorer_class() -> Seq<char> {
    "CabinetWClass"@
}

/// The window class of standard file dialogs.
pub open spec fn dialog_class() -> Seq<char> {
    "#32770"@
}

/// Shell windows that take the foreground for a moment during ordinary
/// window switching (taskbars, desktop, switchers) without the user leaving
/// the Explorer-to-dialog sequence.
pub open spec fn is_passthrough(class: Seq<char>) -> bool {
    ||| class == "Shell_TrayWnd"@
    ||| class == "Shell_SecondaryTrayWnd"@
    ||| class == "Progman"@
    ||| class == "WorkerW"@
    ||| class == "XamlExplorerHostIslandWindow"@
    ||| class == "TaskListThumbnailWnd"@
    ||| class == "MultitaskingViewFrame"@
    ||| class == "ForegroundStaging"@
}

/// Checks if a window class belongs to the transient shell windows.
pub fn is_passthrough_class(class: &str) -> (r: bool)
    ensures
        r == is_passthrough(class@),
{
    str_eq(class, "Shell_TrayWnd") || str_eq(class, "Shell_SecondaryTrayWnd") || str_eq(
        class,
        "Progman",
    ) || str_eq(class, "WorkerW") || str_eq(class, "XamlExplorerHostIslandWindow") || str_eq(
        class,
        "TaskListThumbnailWnd",
    ) || str_eq(class, "MultitaskingViewFrame") || str_eq(class, "ForegroundStaging")
}

/// A directory path with a trailing backslash (the empty path stays empty).
pub open spec fn with_trailing_backslash(path: Seq<char>) -> Seq<char> {
    if path.len() > 0 && path.last() != '\\' {
        path.push('\\')
    } else {
        path
    }
}

/// Ensures a directory path ends with a backslash, for dialog injection.
pub fn ensure_trailing_backslash(path: String) -> (r: String)
    ensures
        r@ == with_trailing_backslash(path@),
{
    let v = char_vec(path.as_str());
    let mut path = path;
    if v.len() > 0 && v[v.len() - 1] != '\\' {
        push_char(&mut path, '\\');
    }
    path
}

/// What the state machine asks for: navigate the dialog window `dialog` to
/// the folder shown by the Explorer window `explorer` (window handles as
/// integers).
#[derive(Debug, Clone, Copy, PartialEq, Eq, Structural)]
pub struct Navigation {
    pub explorer: usize,
    pub dialog: usize,
}

/// One step of the focus state machine: the remembered Explorer window
/// after a foreground change to window `fg` (0 for none) of class `class`,
/// and the navigation it asks for.
///
/// - disabled: forget the Explorer window;
/// - no window: keep the state;
/// - an Explorer window: remember it;
/// - a file dialog: forget the Explorer window and, when one was
///   remembered, navigate the dialog to it;
/// - a transient shell window: keep the state;
/// - any other window: forget the Explorer window.
pub open spec fn focus_step(last: Option<usize>, enabled: bool, fg: usize, class: Seq<char>) -> (
    Option<usize>,
    Option<Navigation>,
) {
    if !enabled {
        (None, None)
    } else if fg == 0 {
        (last, None)
    } else if class == explorer_class() {
        (Some(fg), None)
    } else if class == dialog_class() {
        match last {
            Some(e) => (None, Some(Navigation { explorer: e, dialog: fg })),
            None => (None, None),
        }
    } else if is_passthrough(class) {
        (last, None)
    } else {
        (None, None)
    }
}

/// Focus state: the Explorer window that last took the foreground, if no
/// other application window has taken it since.
#[derive(Debug, Clone, Copy, PartialEq, Eq, Structural)]
pub struct FocusState {
    pub last_explorer_hwnd: Option<usize>,
}

impl FocusState {
    /// The initial state: no Explorer window recorded.
    pub fn new() -> (r: Self)
        ensures
            r.last_explorer_hwnd is None,
    {
        FocusState { last_explorer_hwnd: None }
    }

    /// Handles a foreground change to window `fg` (0 for none) of class
    /// `class`, with Quick Switch `enabled` or not (see [`focus_step`]).
    pub fn on_foreground(&mut self, enabled: bool, fg: usize, class: &str) -> (r: Option<Navigation>)
        ensures
            (final(self).last_explorer_hwnd, r) == focus_step(old(self).last_explorer_hwnd, enabled, fg, class@),
    {
        proof {
            reveal_strlit("CabinetWClass");
            reveal_strlit("#32770");
            assert("CabinetWClass"@.len() == 13);
            assert(explorer_class() != dialog_class());
        }
        if !enabled {
            self.last_explorer_hwnd = None;
            return None;
        }
        if fg == 0 {
            return None;
        }
        if str_eq(class, "CabinetWClass") {
            self.last_explorer_hwnd = Some(fg);
            None
        } else if str_eq(class, "#32770") {
            match self.last_explorer_hwnd {
                Some(explorer) => {
                    self.last_explorer_hwnd = None;
                    Some(Navigation { explorer, dialog: fg })
                },
                None => None,
            }
        } else if is_passthrough_class(class) {
            None
        } else {
            self.last_explorer_hwnd = None;
            None
        }
    }
}

/// A foreground change: whether Quick Switch is enabled, the window (0 for
/// none) and its class.
pub type FocusEvent = (bool, usize, Seq<char>);

/// The remembered Explorer window after a series of foreground changes.
pub open spec fn focus_run(last: Option<usize>, events: Seq<FocusEvent>) -> Option<usize>
    decreases events.len(),
{
    if events.len() == 0 {
        last
    } else {
        let ev = events.last();
        focus_step(focus_run(last, events.drop_last()), ev.0, ev.1, ev.2).0
    }
}

/// A foreground change that leaves the sequence intact: Quick Switch is
/// enabled and the change is to no window or to a transient shell window.
pub open spec fn is_neutral(ev: FocusEvent) -> bool {
    ev.0 && (ev.1 == 0 || (ev.2 != explorer_class() && ev.2 != dialog_class() && is_passthrough(ev.2)))
}

/// Explorer window `e` took the foreground (with Quick Switch enabled) and
/// only neutral changes followed.
pub open spec fn explorer_pending(events: Seq<FocusEvent>, e: usize) -> bool {
    exists|k: int|
        0 <= k < events.len() && #[trigger] events[k].0 && events[k].1 == e && e != 0 && events[k].2 == explorer_class()
            && forall|j: int| k < j < events.len() ==> is_neutral(#[trigger] events[j])
}

/// The strict two-step sequence: starting from the initial state, an
/// Explorer window is remembered exactly when it was the last window to
/// take the foreground apart from transient shell windows (and Quick Switch
/// stayed enabled).
pub proof fn lemma_focus_sequence(events: Seq<FocusEvent>, e: usize)
    ensures
        focus_run(None, events) == Some(e) <==> explorer_pending(events, e),
    decreases events.len(),
{
    if events.len() == 0 {
        return;
    }
    let n = events.len() - 1;
    let prev = events.drop_last();
    let ev = events.last();
    lemma_focus_sequence(prev, e);
    assert(explorer_class() != dialog_class()) by {
        reveal_strlit("CabinetWClass");
        reveal_strlit("#32770");
        assert("CabinetWClass"@.len() == 13);
    }
    if ev.0 && ev.1 != 0 && ev.2 == explorer_class() {
        if ev.1 == e {
            assert(events[n].0);
        }
        if explorer_pending(events, e) {
            let k = choose|k: int|
                0 <= k < events.len() && #[trigger] events[k].0 && events[k].1 == e && e != 0 && events[k].2
                    == explorer_class() && forall|j: int| k < j < events.len() ==> is_neutral(#[trigger] events[j]);
            if k < n {
                assert(is_neutral(events[n]));
            }
        }
    } else if is_neutral(ev) {
        if explorer_pending(prev, e) {
            let k = choose|k: int|
                0 <= k < prev.len() && #[trigger] prev[k].0 && prev[k].1 == e && e != 0 && prev[k].2
                    == explorer_class() && forall|j: int| k < j < prev.len() ==> is_neutral(#[trigger] prev[j]);
            assert(events[k] == prev[k]);
            assert forall|j: int| k < j < events.len() implies is_neutral(#[trigger] events[j]) by {
                if j < n {
                    assert(events[j] == prev[j]);
                }
            }
            assert(events[k].0);
        }
        if explorer_pending(events, e) {
            let k = choose|k: int|
                0 <= k < events.len() && #[trigger] events[k].0 && events[k].1 == e && e != 0 && events[k].2
                    == explorer_class() && forall|j: int| k < j < events.len() ==> is_neutral(#[trigger] events[j]);
            assert(k < n);
            assert(prev[k] == events[k]);
            assert forall|j: int| k < j < prev.len() implies is_neutral(#[trigger] prev[j]) by {
                assert(prev[j] == events[j]);
            }
            assert(prev[k].0);
        }
    } else {
        if explorer_pending(events, e) {
            let k = choose|k: int|
                0 <= k < events.len() && #[trigger] events[k].0 && events[k].1 == e && e != 0 && events[k].2
                    == explorer_class() && forall|j: int| k < j < events.len() ==> is_neutral(#[trigger] events[j]);
            if k < n {
                assert(is_neutral(events[n]));
            }
        }
    }
}

/// A file dialog that takes the foreground is navigated exactly when an
/// Explorer window is pending, and then to that window.
pub proof fn lemma_dialog_navigates(events: Seq<FocusEvent>, dialog: usize, e: usize)
    requires
        dialog != 0,
    ensures
        focus_step(focus_run(None, events), true, dialog, dialog_class()).1 == Some(
            Navigation { explorer: e, dialog },
        ) <==> explorer_pending(events, e),
{
    lemma_focus_sequence(events, e);
    assert(explorer_class() != dialog_class()) by {
        reveal_strlit("CabinetWClass");
        reveal_strlit("#32770");
        assert("CabinetWClass"@.len() == 13);
    }
}

} // verus!
