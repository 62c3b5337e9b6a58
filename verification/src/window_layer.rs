//! Pinning the widget window to the desktop's background layer.
//!
//! The window stays an independent top-level window that is slotted into the
//! z-order directly behind the window owning the desktop icons. Explorer
//! rebuilds that window hierarchy on a restart and on display or DPI changes;
//! this module decides which window messages call for pinning again.

use vstd::prelude::*;

verus! {

/// `WM_DISPLAYCHANGE`: the display resolution changed.
pub const WM_DISPLAYCHANGE: u32 = 126u32;

/// `WM_DPICHANGED`: the DPI of the window's monitor changed.
pub const WM_DPICHANGED: u32 = 736u32;

/// Whether message `msg` may mean that the desktop's window hierarchy was
/// rebuilt: the `TaskbarCreated` broadcast (whose registered id is
/// `taskbar_created`, 0 while it is not registered), or a display or DPI
/// change.
pub open spec fn layer_relevant(msg: u32, taskbar_created: u32) -> bool {
    ||| taskbar_created != 0 && msg == taskbar_created
    ||| msg == WM_DISPLAYCHANGE
    ||| msg == WM_DPICHANGED
}

/// Decides whether the window is pinned again after receiving `msg`.
pub fn is_layer_relevant_message(msg: u32, taskbar_created: u32) -> (r: bool)
    ensures
        r == layer_relevant(msg, taskbar_created),
{
    (taskbar_created != 0 && msg == taskbar_created) || msg == WM_DISPLAYCHANGE || msg
        == WM_DPICHANGED
}

/// Display and DPI changes always call for pinning again, whether or not
/// `TaskbarCreated` is registered; the registered `TaskbarCreated` message
/// does too; an unregistered id (0) matches nothing; and no other message
/// calls for it.
pub proof fn lemma_relevant_messages(msg: u32, taskbar_created: u32)
    ensures
        layer_relevant(126u32, taskbar_created),
        layer_relevant(736u32, taskbar_created),
        taskbar_created != 0 ==> layer_relevant(taskbar_created, taskbar_created),
        layer_relevant(msg, 0) <==> (msg == 126u32 || msg == 736u32),
        msg != 126u32 && msg != 736u32 && msg != taskbar_created ==> !layer_relevant(
            msg,
            taskbar_created,
        ),
{
}

} // verus!
