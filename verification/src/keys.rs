//! What a key press asks of the launcher once no menu has taken it, and
//! which part of the window frame a point is over.
use crate::launcher::{VK_DOWN, VK_ESCAPE, VK_LEFT, VK_RETURN, VK_RIGHT, VK_UP};
use crate::layout::{Rect, MAX_DPI};
use vstd::prelude::*;

verus! {

/// Virtual-key code of the Delete key.
pub const VK_DELETE: u32 = 0x2E;

/// Virtual-key code of the `F` key.
pub const VK_F: u32 = 0x46;

/// The launcher operation a key press triggers.
#[derive(PartialEq, Eq, Structural, Debug, Clone, Copy)]
pub enum KeyCommand {
    Nothing,
    CloseSearch,
    CancelTextInput,
    ConfirmTextInput,
    MoveSelection(isize),
    CaptureHotkey,
    EnterSearch,
    Escape,
    RunSelected,
    DeleteSelected,
}

/// A key pressed while the text box has the focus: Escape leaves the search
/// or cancels the dialog, Return confirms, Up and Down move the selection
/// by a row; other keys belong to the text box.
pub open spec fn editing_command(key: u32, searching: bool, columns: int) -> KeyCommand {
    if key == VK_ESCAPE {
        if searching {
            KeyCommand::CloseSearch
        } else {
            KeyCommand::CancelTextInput
        }
    } else if key == VK_RETURN {
        KeyCommand::ConfirmTextInput
    } else if key == VK_UP {
        KeyCommand::MoveSelection((-columns) as isize)
    } else if key == VK_DOWN {
        KeyCommand::MoveSelection(columns as isize)
    } else {
        KeyCommand::Nothing
    }
}

/// A key pressed with the launcher itself focused: every key goes to a
/// hotkey being captured; otherwise Ctrl+F searches, Escape steps back,
/// Return runs, Delete removes, and the arrows move the selection.
pub open spec fn launcher_command(key: u32, capturing: bool, ctrl: bool, columns: int) -> KeyCommand {
    if capturing {
        KeyCommand::CaptureHotkey
    } else if key == VK_F && ctrl {
        KeyCommand::EnterSearch
    } else if key == VK_ESCAPE {
        KeyCommand::Escape
    } else if key == VK_RETURN {
        KeyCommand::RunSelected
    } else if key == VK_DELETE {
        KeyCommand::DeleteSelected
    } else if key == VK_LEFT {
        KeyCommand::MoveSelection(-1isize)
    } else if key == VK_RIGHT {
        KeyCommand::MoveSelection(1isize)
    } else if key == VK_UP {
        KeyCommand::MoveSelection((-columns) as isize)
    } else if key == VK_DOWN {
        KeyCommand::MoveSelection(columns as isize)
    } else {
        KeyCommand::Nothing
    }
}

/// The command for a key press: the text box's keys while it has the focus,
/// the launcher's otherwise.
pub open spec fn key_command_spec(
    key: u32,
    editing: bool,
    searching: bool,
    capturing: bool,
    ctrl: bool,
    columns: int,
) -> KeyCommand {
    if editing {
        editing_command(key, searching, columns)
    } else {
        launcher_command(key, capturing, ctrl, columns)
    }
}

/// Exec `key_command_spec`. `searching` tells whether the text box is the
/// search field, `capturing` whether a new hotkey is being recorded, and
/// `columns` how many items a grid row holds.
pub fn key_command(
    key: u32,
    editing: bool,
    searching: bool,
    capturing: bool,
    ctrl: bool,
    columns: usize,
) -> (r: KeyCommand)
    requires
        columns <= isize::MAX,
    ensures
        r == key_command_spec(key, editing, searching, capturing, ctrl, columns as int),
{
    let row = columns as isize;
    if editing {
        if key == VK_ESCAPE {
            if searching {
                KeyCommand::CloseSearch
            } else {
                KeyCommand::CancelTextInput
            }
        } else if key == VK_RETURN {
            KeyCommand::ConfirmTextInput
        } else if key == VK_UP {
            KeyCommand::MoveSelection(-row)
        } else if key == VK_DOWN {
            KeyCommand::MoveSelection(row)
        } else {
            KeyCommand::Nothing
        }
    } else if capturing {
        KeyCommand::CaptureHotkey
    } else if key == VK_F && ctrl {
        KeyCommand::EnterSearch
    } else if key == VK_ESCAPE {
        KeyCommand::Escape
    } else if key == VK_RETURN {
        KeyCommand::RunSelected
    } else if key == VK_DELETE {
        KeyCommand::DeleteSelected
    } else if key == VK_LEFT {
        KeyCommand::MoveSelection(-1)
    } else if key == VK_RIGHT {
        KeyCommand::MoveSelection(1)
    } else if key == VK_UP {
        KeyCommand::MoveSelection(-row)
    } else if key == VK_DOWN {
        KeyCommand::MoveSelection(row)
    } else {
        KeyCommand::Nothing
    }
}

/// Part of the window a point is over, for the system's hit test.
#[derive(PartialEq, Eq, Structural, Debug, Clone, Copy)]
pub enum FrameHit {
    TopLeft,
    TopRight,
    BottomLeft,
    BottomRight,
    Left,
    Right,
    Top,
    Bottom,
    Caption,
    Client,
}

/// Width of the resize border: 7 pixels at 96 DPI, scaled (never below 96 DPI).
pub open spec fn resize_edge(dpi: int) -> int {
    7 * (if dpi < 96 {
        96
    } else {
        dpi
    }) / 96
}

/// The resize border under a screen point of a window, corners first, or
/// `None` inside the border.
pub open spec fn border_at(window: Rect, x: int, y: int, dpi: int) -> Option<FrameHit> {
    let edge = resize_edge(dpi);
    let left = x < window.left + edge;
    let right = x >= window.right - edge;
    let top = y < window.top + edge;
    let bottom = y >= window.bottom - edge;
    if left && top {
        Some(FrameHit::TopLeft)
    } else if right && top {
        Some(FrameHit::TopRight)
    } else if left && bottom {
        Some(FrameHit::BottomLeft)
    } else if right && bottom {
        Some(FrameHit::BottomRight)
    } else if left {
        Some(FrameHit::Left)
    } else if right {
        Some(FrameHit::Right)
    } else if top {
        Some(FrameHit::Top)
    } else if bottom {
        Some(FrameHit::Bottom)
    } else {
        None
    }
}

/// The hit for a screen point: a resize border when the window may be
/// resized and the point is on one; else the caption where the launcher
/// lets the window be dragged (`drag`, asked at the window-relative
/// point); else the client area.
pub open spec fn frame_hit_spec(window: Rect, x: int, y: int, dpi: int, resizable: bool, drag: bool) -> FrameHit {
    if resizable && border_at(window, x, y, dpi) is Some {
        border_at(window, x, y, dpi)->0
    } else if drag {
        FrameHit::Caption
    } else {
        FrameHit::Client
    }
}

/// Whether a point is on the resize border of a window.
pub fn on_border(window: Rect, x: i32, y: i32, dpi: u32) -> (r: Option<FrameHit>)
    requires
        dpi <= MAX_DPI,
        -2_000_000_000 <= window.left <= 2_000_000_000,
        -2_000_000_000 <= window.right <= 2_000_000_000,
        -2_000_000_000 <= window.top <= 2_000_000_000,
        -2_000_000_000 <= window.bottom <= 2_000_000_000,
    ensures
        r == border_at(window, x as int, y as int, dpi as int),
{
    let d: i32 = if dpi < 96 {
        96
    } else {
        dpi as i32
    };
    let edge = 7 * d / 96;
    let left = x < window.left + edge;
    let right = x >= window.right - edge;
    let top = y < window.top + edge;
    let bottom = y >= window.bottom - edge;
    if left && top {
        Some(FrameHit::TopLeft)
    } else if right && top {
        Some(FrameHit::TopRight)
    } else if left && bottom {
        Some(FrameHit::BottomLeft)
    } else if right && bottom {
        Some(FrameHit::BottomRight)
    } else if left {
        Some(FrameHit::Left)
    } else if right {
        Some(FrameHit::Right)
    } else if top {
        Some(FrameHit::Top)
    } else if bottom {
        Some(FrameHit::Bottom)
    } else {
        None
    }
}

} // verus!
