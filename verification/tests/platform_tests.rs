use krun::config::HotkeyConfig;
use krun::hotkey::{display, is_modifier, is_supported_key, is_valid, key_name, MOD_CONTROL, MOD_SHIFT};
use krun::icon_loader::IconKey;
use krun::icon_source::{buffer_text, expand_path, extension, ico_file_name, join_path};
use krun::layout::Rect;
use krun::render::{centered_control, is_break_character, line_break};
use krun::shell::{
    environment_names, expand_environment, item_from_path, make_id, open_with_arguments,
    reveal_arguments, EnvVar,
};
use krun::startup::{expected_command, is_enabled, is_legacy_entry};
use krun::text_input::input_geometry;
use krun::theme::{accent_color, DEFAULT_ACCENT};
use krun::tray::{event_from_lparam, tip_text};
use krun::win::point_from_lparam;
use krun::keys::{key_command, KeyCommand};
use krun::keys::{on_border, FrameHit};
use krun::tray::{command_action, event_action, TrayAction, CMD_EXIT, CMD_OPEN_DIRECTORY, CMD_SHOW};
use krun::render::elide;
use krun::render::{empty_grid_message, tile_fill, TileFill};
use krun::config::{LaunchItem, WindowConfig};
use krun::input::window_placement;

fn env(name: &str, value: Option<&str>) -> EnvVar {
    EnvVar {
        name: name.to_string(),
        value: value.map(|v| v.to_string()),
    }
}

#[test]
fn formats_hotkey_in_stable_order() {
    let value = HotkeyConfig {
        modifiers: MOD_CONTROL | MOD_SHIFT,
        key: b'K' as u32,
    };
    assert_eq!(display(&value), "Ctrl + Shift + K");
    assert!(is_valid(&value));
}

#[test]
fn rejects_bare_key_and_modifier_key() {
    assert!(!is_valid(&HotkeyConfig {
        modifiers: 0,
        key: b'Q' as u32,
    }));
    assert!(is_modifier(0x11));
    assert!(!is_supported_key(0x11));
}

#[test]
fn function_keys_and_digits_are_named() {
    assert_eq!(key_name(0x70), "F1");
    assert_eq!(key_name(0x87), "F24");
    assert_eq!(key_name(b'7' as u32), "7");
    assert!(is_supported_key(0x70));
    assert!(is_supported_key(b'Z' as u32));
}

#[test]
fn icon_cache_key_includes_physical_size() {
    let a = IconKey {
        path: "app.exe".into(),
        size: 32,
    };
    let b = IconKey {
        size: 48,
        ..a.clone()
    };
    assert_ne!(a, b);
}

#[test]
fn separators_are_preferred_break_points() {
    for unit in *b" -_./\\+(" {
        assert!(is_break_character(unit as u16));
    }
}

#[test]
fn cjk_and_letters_are_not_break_points() {
    assert!(!is_break_character('中' as u16));
    assert!(!is_break_character('A' as u16));
    assert!(!is_break_character('9' as u16));
    assert!(!is_break_character('a' as u16));
}

#[test]
fn line_breaks_after_the_last_separator_that_fits() {
    let units: Vec<u16> = "Visual Studio Code".encode_utf16().collect();
    // "Visual Studio Co" fits; the line ends after the space before "Code".
    assert_eq!(line_break(&units, 16), 14);
    // Everything fits.
    assert_eq!(line_break(&units, 40), units.len());
    // Nothing fits: one unit still goes on the line.
    assert_eq!(line_break(&units, 0), 1);
}

#[test]
fn line_break_keeps_surrogate_pairs_together() {
    let units: Vec<u16> = "ab😀cd".encode_utf16().collect();
    assert_eq!(units.len(), 6);
    // Three units fit, but the third is the first half of a pair.
    assert_eq!(line_break(&units, 3), 2);
}

#[test]
fn themed_checkbox_preserves_true_size_and_control_center() {
    for dpi in [96, 120, 144, 192] {
        let rect = Rect {
            left: 0,
            top: 0,
            right: 40 * dpi / 96,
            bottom: 20 * dpi / 96,
        };
        let size = 13 * dpi / 96;
        let native = centered_control(rect, size, size);
        assert_eq!(native.right - native.left, size);
        assert_eq!(native.bottom - native.top, size);
        assert!((native.left + native.right - rect.width()).abs() <= 1);
        assert!((native.top + native.bottom - rect.height()).abs() <= 1);
    }
}

#[test]
fn item_name_comes_from_file_stem() {
    let item = item_from_path(r"C:\Apps\Editor.exe");
    assert_eq!(item.name, "Editor");
    assert!(!item.id.is_empty());
}

#[test]
fn folder_and_dotfile_names() {
    assert_eq!(item_from_path(r"C:\Tools\").name, "Tools");
    assert_eq!(item_from_path(r"C:\Users\me\.config").name, ".config");
    assert_eq!(item_from_path(r"D:\a.b.c").name, "a.b");
}

#[test]
fn item_ids_ignore_path_case() {
    let a = make_id(r"C:\Apps\Editor.exe");
    let b = make_id(r"c:\apps\EDITOR.EXE");
    assert_eq!(a, b);
    assert!(a.starts_with("item-"));
    assert_eq!(a.len(), "item-".len() + 16);
    assert_ne!(a, make_id(r"C:\Apps\Other.exe"));
}

#[test]
fn command_quotes_portable_path() {
    assert_eq!(
        expected_command(r"C:\Apps Folder\KRun.exe"),
        r#""C:\Apps Folder\KRun.exe" --startup"#
    );
}

#[test]
fn startup_is_enabled_only_for_the_exact_command() {
    let exe = r"C:\Apps\KRun.exe";
    assert!(is_enabled(Some(r#""C:\Apps\KRun.exe" --startup"#), exe));
    assert!(!is_enabled(Some(r#""C:\Old\KRun.exe" --startup"#), exe));
    assert!(!is_enabled(None, exe));
    assert!(is_legacy_entry(r#""C:\Tools\QuickLaunch.EXE" --startup"#));
    assert!(!is_legacy_entry(r#""C:\Apps\KRun.exe" --startup"#));
}

#[test]
fn dialog_input_is_vertically_centered_at_common_dpis() {
    for dpi in [96, 120, 144, 192] {
        let scale = |value: i32| (value * dpi + 48) / 96;
        let outer = Rect {
            left: scale(24),
            top: scale(64),
            right: scale(436),
            bottom: scale(100),
        };
        let geometry = input_geometry(outer, dpi as u32, true);
        assert_eq!(geometry.rect.height(), scale(24));
        let top_space = geometry.rect.top - outer.top;
        let bottom_space = outer.bottom - geometry.rect.bottom;
        assert!((top_space - bottom_space).abs() <= 1);
        let margin = geometry.margin_param as u32 & 0xffff;
        assert_eq!(margin, scale(10) as u32);
        assert_eq!(geometry.margin_param as u32 >> 16, margin);
    }
}

#[test]
fn search_input_keeps_its_existing_height_ratio() {
    let outer = Rect {
        left: 18,
        top: 98,
        right: 822,
        bottom: 130,
    };
    let geometry = input_geometry(outer, 96, false);
    assert_eq!(geometry.rect.height(), 26);
    assert_eq!(geometry.rect.top, 101);
    assert_eq!(geometry.margin_param as u32 & 0xffff, 8);
}

#[test]
fn accent_drops_alpha_byte() {
    assert_eq!(accent_color(Some(0xFF_93_83_16u32)), 0x0093_8316);
    assert_eq!(accent_color(Some(0x80_11_22_33u32)), 0x0011_2233);
}

#[test]
fn accent_is_reported_or_falls_back() {
    assert!(accent_color(None) != 0);
    assert_eq!(accent_color(None), DEFAULT_ACCENT);
    assert_eq!(accent_color(Some(0xFF00_0000)), DEFAULT_ACCENT);
}

#[test]
fn environment_references_are_expanded() {
    let table = vec![
        env("WINDIR", Some(r"C:\Windows")),
        env("EMPTY", Some("")),
        env("MISSING", None),
    ];
    assert_eq!(
        expand_environment(r"%WINDIR%\explorer.exe", &table),
        r"C:\Windows\explorer.exe"
    );
    assert_eq!(expand_environment("a%EMPTY%b", &table), "ab");
    assert_eq!(
        expand_environment(r"%MISSING%\x.exe", &table),
        r"%MISSING%\x.exe"
    );
    assert_eq!(expand_environment("100% sure", &table), "100% sure");
    assert_eq!(expand_environment("plain", &table), "plain");
}

#[test]
fn environment_names_are_listed_in_order() {
    assert_eq!(
        environment_names(r"%A%\%B%\%A%"),
        vec!["A".to_string(), "B".to_string(), "A".to_string()]
    );
    assert!(environment_names("no references").is_empty());
    assert!(environment_names("50%").is_empty());
}

#[test]
fn shell_arguments_quote_the_path() {
    assert_eq!(
        open_with_arguments(r"C:\a b.txt"),
        "shell32.dll,OpenAs_RunDLL \"C:\\a b.txt\""
    );
    assert_eq!(reveal_arguments(r"C:\a b.txt"), "/select,\"C:\\a b.txt\"");
}

#[test]
fn shortcut_buffers_stop_at_the_terminator() {
    let mut buffer: Vec<u16> = r"C:\Icons\app.ico".encode_utf16().collect();
    buffer.push(0);
    buffer.extend("garbage".encode_utf16());
    assert_eq!(buffer_text(&buffer), r"C:\Icons\app.ico");
    let unterminated: Vec<u16> = "abc".encode_utf16().collect();
    assert_eq!(buffer_text(&unterminated), "abc");
    // A lone surrogate becomes the replacement character.
    assert_eq!(buffer_text(&[0x61, 0xD800, 0x62, 0]), "a\u{FFFD}b");
    assert_eq!(buffer_text(&[0x4E2D, 0]), "中");
}

#[test]
fn extensions_are_lowercase_and_from_the_file_name() {
    assert_eq!(extension(r"C:\Icons\App.ICO"), "ico");
    assert_eq!(extension(r"C:\dir.d\file"), "");
    assert_eq!(extension(r"C:\Links\tool.lnk"), "lnk");
    assert_eq!(extension(r"C:\Users\me\.profile"), "");
}

#[test]
fn icon_locations_resolve_against_the_shortcut_folder() {
    let table = vec![env("WINDIR", Some(r"C:\Windows"))];
    assert_eq!(
        expand_path("  \"icons\\a.ico\"  ", r"C:\Links", &table),
        r"C:\Links\icons\a.ico"
    );
    assert_eq!(
        expand_path(r"%WINDIR%\System32\shell32.dll", r"C:\Links", &table),
        r"C:\Windows\System32\shell32.dll"
    );
    assert_eq!(join_path(r"C:\Links\", "a.ico"), r"C:\Links\a.ico");
    assert_eq!(join_path(r"C:\Links", r"\Root\a.ico"), r"C:\Root\a.ico");
    assert_eq!(join_path(r"C:\Links", r"\\server\share\a.ico"), r"\\server\share\a.ico");
}

#[test]
fn stored_icons_are_named_by_hash() {
    assert_eq!(ico_file_name(0x1234), "0000000000001234.ico");
    assert_eq!(ico_file_name(u64::MAX), "ffffffffffffffff.ico");
}

#[test]
fn mouse_points_are_signed_words() {
    assert_eq!(point_from_lparam(0x0020_0010), (16, 32));
    assert_eq!(point_from_lparam(0xFFFF_FFFE), (-2, -1));
    assert_eq!(event_from_lparam(0x1234_0203), 0x0203);
}

#[test]
fn tray_tip_names_the_hotkey() {
    assert_eq!(tip_text("Alt + Space"), "KRun - Alt + Space");
}

#[test]
fn keys_reach_the_text_box_or_the_launcher() {
    // Escape, Return, Up, Down, Delete, Left, F.
    let (esc, ret, up, down, del, left, f) = (0x1B, 0x0D, 0x26, 0x28, 0x2E, 0x25, 0x46);
    assert_eq!(key_command(esc, true, true, false, false, 6), KeyCommand::CloseSearch);
    assert_eq!(key_command(esc, true, false, false, false, 6), KeyCommand::CancelTextInput);
    assert_eq!(key_command(ret, true, false, false, false, 6), KeyCommand::ConfirmTextInput);
    assert_eq!(key_command(up, true, true, false, false, 6), KeyCommand::MoveSelection(-6));
    assert_eq!(key_command(left, true, true, false, false, 6), KeyCommand::Nothing);
    assert_eq!(key_command(f, false, false, false, true, 6), KeyCommand::EnterSearch);
    assert_eq!(key_command(f, false, false, false, false, 6), KeyCommand::Nothing);
    assert_eq!(key_command(f, false, false, true, true, 6), KeyCommand::CaptureHotkey);
    assert_eq!(key_command(esc, false, false, false, false, 6), KeyCommand::Escape);
    assert_eq!(key_command(ret, false, false, false, false, 6), KeyCommand::RunSelected);
    assert_eq!(key_command(del, false, false, false, false, 6), KeyCommand::DeleteSelected);
    assert_eq!(key_command(left, false, false, false, false, 6), KeyCommand::MoveSelection(-1));
    assert_eq!(key_command(down, false, false, false, false, 6), KeyCommand::MoveSelection(6));
}

#[test]
fn resize_border_is_seven_pixels_at_96_dpi() {
    let window = Rect { left: 0, top: 0, right: 800, bottom: 600 };
    assert_eq!(on_border(window, 6, 300, 96), Some(FrameHit::Left));
    assert_eq!(on_border(window, 7, 300, 96), None);
    assert_eq!(on_border(window, 793, 0, 96), Some(FrameHit::TopRight));
    assert_eq!(on_border(window, 0, 599, 96), Some(FrameHit::BottomLeft));
    // Below 96 DPI the border keeps its 96 DPI width.
    assert_eq!(on_border(window, 6, 300, 48), Some(FrameHit::Left));
}

#[test]
fn tray_events_and_commands() {
    assert_eq!(event_action(0x0203), TrayAction::Toggle);
    assert_eq!(event_action(0x0205), TrayAction::ShowMenu);
    assert_eq!(event_action(0x0200), TrayAction::Nothing);
    assert_eq!(command_action(CMD_SHOW), TrayAction::Toggle);
    assert_eq!(command_action(CMD_OPEN_DIRECTORY), TrayAction::OpenDirectory);
    assert_eq!(command_action(CMD_EXIT), TrayAction::Exit);
    assert_eq!(command_action(0), TrayAction::Nothing);
}

#[test]
fn tab_names_are_elided() {
    assert_eq!(elide("常用工具", 10), "常用工具");
    assert_eq!(elide("abcdefghijkl", 10), "abcdefghij…");
    assert_eq!(elide("abcdefghij", 10), "abcdefghij");
    assert_eq!(elide("abc", 0), "…");
}

#[test]
fn tiles_prefer_pressed_then_hovered_then_keyboard_selection() {
    assert_eq!(tile_fill(3, Some(3), Some(3), true, Some(3)), TileFill::Pressed);
    assert_eq!(tile_fill(3, Some(2), Some(3), true, Some(3)), TileFill::Hovered);
    assert_eq!(tile_fill(3, None, None, true, Some(3)), TileFill::Selected);
    assert_eq!(tile_fill(3, None, None, false, Some(3)), TileFill::Plain);
    assert_eq!(empty_grid_message(true, "x"), "没有匹配的项目");
    assert_eq!(empty_grid_message(true, ""), "拖入文件，或点击右上角添加");
    assert_eq!(empty_grid_message(false, "x"), "拖入文件，或点击右上角添加");
}

#[test]
fn icons_are_requested_for_custom_source_then_target() {
    let mut item = LaunchItem {
        path: r"C:\App.exe".to_string(),
        ..LaunchItem::default()
    };
    assert_eq!(item.icon_request_sources(), vec![r"C:\App.exe".to_string()]);
    item.icon_path = r"C:\App.ico".to_string();
    assert_eq!(
        item.icon_request_sources(),
        vec![r"C:\App.ico".to_string(), r"C:\App.exe".to_string()]
    );
    item.icon_path = "   ".to_string();
    assert_eq!(item.icon_request_sources(), vec![r"C:\App.exe".to_string()]);
}

#[test]
fn shown_window_is_centred_and_kept_on_the_work_area() {
    let work = Rect { left: 0, top: 0, right: 1920, bottom: 1040 };
    let window = WindowConfig::default();
    assert_eq!(
        window_placement(work, &window, 96),
        Rect { left: 540, top: 260, right: 1380, bottom: 780 }
    );
    assert_eq!(
        window_placement(work, &window, 144),
        Rect { left: 330, top: 130, right: 1590, bottom: 910 }
    );
    // A small work area shrinks the window to fit.
    let small = Rect { left: 0, top: 0, right: 700, bottom: 500 };
    assert_eq!(
        window_placement(small, &window, 96),
        Rect { left: 0, top: 0, right: 700, bottom: 500 }
    );
    // A stored position off the work area is pulled back onto it.
    let placed = WindowConfig { centered: false, x: -500, y: 5000, ..WindowConfig::default() };
    let shifted = Rect { left: 100, top: 100, right: 2020, bottom: 1140 };
    assert_eq!(
        window_placement(shifted, &placed, 96),
        Rect { left: 100, top: 620, right: 940, bottom: 1140 }
    );
}

#[test]
fn icon_and_window_minimums_scale_with_dpi() {
    assert_eq!(krun::icon_loader::icon_size(96), 32);
    assert_eq!(krun::icon_loader::icon_size(72), 32);
    assert_eq!(krun::icon_loader::icon_size(144), 48);
    assert_eq!(krun::icon_loader::icon_size(480), 80);
    assert_eq!(krun::input::min_window_size(96), (620, 400));
    assert_eq!(krun::input::min_window_size(144), (930, 600));
    assert_eq!(krun::input::min_window_size(48), (620, 400));
}

#[test]
fn wheel_deltas_are_signed_high_words() {
    assert_eq!(krun::win::wheel_delta(0x0078_0000), 120);
    assert_eq!(krun::win::wheel_delta(0xFF88_0000), -120);
    assert_eq!(krun::win::wheel_delta(0x0000_0008), 0);
}

#[test]
fn lines_prefer_a_space_over_other_separators() {
    let units: Vec<u16> = "a b-cd".encode_utf16().collect();
    // "a b-c" fits: the line ends after the space, not after the hyphen.
    assert_eq!(line_break(&units, 5), 2);
    let units: Vec<u16> = "file_name-v2.exe".encode_utf16().collect();
    // No space fits: the last other separator is used.
    assert_eq!(line_break(&units, 12), 10);
    let units: Vec<u16> = " abcdefgh".encode_utf16().collect();
    // A space at the very start does not end the line.
    assert_eq!(line_break(&units, 5), 5);
}
