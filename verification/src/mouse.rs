//! What the virtual pointer does for each of its operations, as the
//! sequence of device actions it performs, stopping at the first that
//! fails.

use vstd::prelude::*;

verus! {

/// One action written to the virtual pointer device.
#[derive(Clone, Copy, Debug, PartialEq, Eq, Structural)]
pub enum PointerAction {
    /// Set both absolute axes.
    MoveTo { x: i32, y: i32 },
    /// Press the left button.
    Press,
    /// Release the left button.
    Release,
}

/// Milliseconds to wait after a button action, so that the compositor sees
/// press and release as separate events.
pub const BUTTON_SETTLE_MS: u64 = 18;

/// Milliseconds to wait after creating the device, so that the compositor
/// notices it before it is used.
pub const DEVICE_SETTLE_MS: u64 = 100;

/// Milliseconds to wait after performing `action`.
pub fn settle_after(action: &PointerAction) -> (r: u64)
    ensures
        r == (match *action {
            PointerAction::MoveTo { .. } => 0,
            _ => BUTTON_SETTLE_MS,
        }),
{
    match action {
        PointerAction::MoveTo { .. } => 0,
        _ => BUTTON_SETTLE_MS,
    }
}

/// The range of an absolute axis that spans `extent` screen pixels.
pub fn axis_range(extent: i32) -> (r: (i32, i32))
    requires
        extent > i32::MIN,
    ensures
        r == (0i32, (extent - 1) as i32),
{
    (0, extent - 1)
}

/// A left click: press, then release.
pub fn click_actions() -> (r: Vec<PointerAction>)
    ensures
        r@ == seq![PointerAction::Press, PointerAction::Release],
{
    let mut v: Vec<PointerAction> = Vec::new();
    v.push(PointerAction::Press);
    v.push(PointerAction::Release);
    v
}

/// A left drag from one point to another: move to the start, press, move
/// to the end, release.
pub fn drag_actions(x_from: i32, y_from: i32, x_to: i32, y_to: i32) -> (r: Vec<PointerAction>)
    ensures
        r@ == seq![
            PointerAction::MoveTo { x: x_from, y: y_from },
            PointerAction::Press,
            PointerAction::MoveTo { x: x_to, y: y_to },
            PointerAction::Release,
        ],
{
    let mut v: Vec<PointerAction> = Vec::new();
    v.push(PointerAction::MoveTo { x: x_from, y: y_from });
    v.push(PointerAction::Press);
    v.push(PointerAction::MoveTo { x: x_to, y: y_to });
    v.push(PointerAction::Release);
    v
}

} // verus!
