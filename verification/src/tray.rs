//! The notification-area icon: its messages, menu commands and tip text.
use vstd::prelude::*;
use vstd::string::StringExecFns;

verus! {

/// Tray menu command: show or hide the launcher.
pub const CMD_SHOW: u32 = 4101;

/// Tray menu command: open the configuration directory.
pub const CMD_OPEN_DIRECTORY: u32 = 4102;

/// Tray menu command: exit.
pub const CMD_EXIT: u32 = 4103;

/// Tray callback event: left double click.
pub const EVENT_DOUBLE_CLICK: u32 = 0x0203;

/// Tray callback event: right button released.
pub const EVENT_RIGHT_UP: u32 = 0x0205;

/// The mouse event of a tray callback: the low word of `lParam`.
pub fn event_from_lparam(lparam: isize) -> (r: u32)
    ensures
        r == (lparam as usize & 0xffff) as u32,
{
    (lparam as usize & 0xffff) as u32
}

/// What the launcher does for a tray event or a tray menu command.
#[derive(PartialEq, Eq, Structural, Debug, Clone, Copy)]
pub enum TrayAction {
    Toggle,
    ShowMenu,
    OpenDirectory,
    Exit,
    Nothing,
}

/// A double click shows or hides the launcher; releasing the right button
/// opens the tray menu; other events do nothing.
pub fn event_action(event: u32) -> (r: TrayAction)
    ensures
        r == (if event == EVENT_DOUBLE_CLICK {
            TrayAction::Toggle
        } else if event == EVENT_RIGHT_UP {
            TrayAction::ShowMenu
        } else {
            TrayAction::Nothing
        }),
{
    if event == EVENT_DOUBLE_CLICK {
        TrayAction::Toggle
    } else if event == EVENT_RIGHT_UP {
        TrayAction::ShowMenu
    } else {
        TrayAction::Nothing
    }
}

/// The action of a command chosen from the tray menu (0 when the menu was
/// dismissed).
pub fn command_action(command: u32) -> (r: TrayAction)
    ensures
        r == (if command == CMD_SHOW {
            TrayAction::Toggle
        } else if command == CMD_OPEN_DIRECTORY {
            TrayAction::OpenDirectory
        } else if command == CMD_EXIT {
            TrayAction::Exit
        } else {
            TrayAction::Nothing
        }),
{
    if command == CMD_SHOW {
        TrayAction::Toggle
    } else if command == CMD_OPEN_DIRECTORY {
        TrayAction::OpenDirectory
    } else if command == CMD_EXIT {
        TrayAction::Exit
    } else {
        TrayAction::Nothing
    }
}

/// The tip shown over the tray icon: the program name and the hotkey.
pub fn tip_text(hotkey: &str) -> (r: String)
    ensures
        r@ == "KRun - "@ + hotkey@,
{
    let mut r = String::from_str("KRun - ");
    r.append(hotkey);
    r
}

} // verus!
