use krun::config::{Category, Config, LaunchItem};
use krun::input::should_launch_on_single_click;
use krun::launcher::{Action, InputMode, Launcher, CATEGORY_NEW, ITEM_DELETE, ITEM_MOVE_BASE, ITEM_NEW, ITEM_SORT};
use krun::layout::{Screen, ToolButton};
use krun::search::{self, ItemRef};
use krun::keys::FrameHit;
use krun::layout::Rect;

fn two_categories() -> Config {
    let mut config = Config::default();
    config.categories.push(Category::new("tools", "工具"));
    config
}

#[test]
fn single_click_only_launches_when_double_click_is_disabled() {
    assert!(!should_launch_on_single_click(true));
    assert!(should_launch_on_single_click(false));
}

#[test]
fn page_count_saturates_when_offset_is_stale() {
    let count = 3usize;
    let page_offset = 50usize;
    let capacity = 24usize;
    let end = page_offset.saturating_add(capacity).min(count);
    assert_eq!(end.saturating_sub(page_offset), 0);
    // The library's paging agrees: a stale offset yields an empty page.
    let config = Config::default();
    let mut page = Vec::new();
    krun::item_view::Scope::Category(0).write_page(&config, page_offset, capacity, &mut page);
    assert!(page.is_empty());
}

#[test]
fn combined_add_menu_routes_items_categories_and_cancel() {
    let mut app = Launcher::new(Config::default());
    app.execute_menu_command(0, None);
    assert!(!app.add_overlay_open);
    assert!(app.input_mode.is_none());
    app.execute_menu_command(ITEM_NEW, None);
    assert!(app.add_overlay_open);
    assert!(app.input_mode.is_none());
    app.add_overlay_open = false;
    app.execute_menu_command(CATEGORY_NEW, None);
    assert!(!app.add_overlay_open);
    assert!(matches!(app.input_mode, Some(InputMode::NewCategory)));
}

#[test]
fn visible_scope_tracks_category_selection_and_search() {
    let mut config = Config::default();
    config.categories[0].items = (0..40)
        .map(|item| LaunchItem { name: format!("项目{item}"), ..LaunchItem::default() })
        .collect();
    config.categories.push(Category::new("tools", "工具"));
    config.categories[1].items = (0..5)
        .map(|item| LaunchItem { name: format!("工具{item}"), ..LaunchItem::default() })
        .collect();

    let mut app = Launcher::new(config);
    assert_eq!(app.visible_count(), 40);
    assert_eq!(app.visible_ref(39), Some(ItemRef { category: 0, item: 39 }));
    assert_eq!(app.visible_ref(40), None);

    app.config.active_category = "tools".into();
    assert_eq!(app.visible_count(), 5);

    // An empty query searches every category, not just the active one.
    app.search_mode = true;
    assert_eq!(app.visible_count(), 45);
    assert_eq!(app.visible_ref(40), Some(ItemRef { category: 1, item: 0 }));

    // A real query uses the pre-computed result list.
    app.query = "工具".into();
    app.search_results = search::results(&app.config, &app.query);
    assert_eq!(app.visible_count(), app.search_results.len());
    assert_eq!(app.visible_ref(0), app.search_results.first().copied());
}

#[test]
fn hovering_category_switches_without_clicking() {
    let mut app = Launcher::new(two_categories());
    let (_, rect) = app.layout.categories[1];

    app.search_mode = true;
    app.input_mode = Some(InputMode::Search);
    app.query = "示例".into();
    let actions = app.mouse_move((rect.left + rect.right) / 2, (rect.top + rect.bottom) / 2);

    assert_eq!(app.config.active_category, "tools");
    assert!(!app.search_mode);
    assert!(app.input_mode.is_none());
    assert!(app.query.is_empty());
    assert_eq!(app.selected, None);
    assert_eq!(app.hovered_tool, None);
    assert!(actions.iter().any(|a| matches!(a, Action::StopContentTransition)));
    assert!(!actions.iter().any(|a| matches!(a, Action::ContentTransition)));
}

#[test]
fn explicit_category_switch_keeps_content_transition() {
    let mut app = Launcher::new(two_categories());
    let actions = app.select_category(1, true);
    assert_eq!(app.config.active_category, "tools");
    assert!(actions.iter().any(|a| matches!(a, Action::ContentTransition)));
}

#[test]
fn toolbar_hover_is_tracked_and_cleared_on_leave() {
    let mut app = Launcher::new(Config::default());
    let rect = app.layout.search_button;
    app.mouse_move((rect.left + rect.right) / 2, (rect.top + rect.bottom) / 2);
    assert_eq!(app.hovered_tool, Some(ToolButton::Search));
    app.mouse_leave();
    assert_eq!(app.hovered_tool, None);
}

fn with_items(names: &[&str]) -> Launcher {
    let mut config = two_categories();
    config.categories[0].items = names
        .iter()
        .map(|name| LaunchItem { name: (*name).into(), path: format!("C:\\{name}.exe"), ..LaunchItem::default() })
        .collect();
    Launcher::new(config)
}

#[test]
fn sorting_orders_by_name_ignoring_case_and_keeps_ties() {
    let mut app = with_items(&["beta", "Alpha", "alpha", "Gamma"]);
    let actions = app.execute_item_command(ItemRef { category: 0, item: 0 }, ITEM_SORT);
    let names: Vec<_> = app.config.categories[0].items.iter().map(|i| i.name.as_str()).collect();
    assert_eq!(names, vec!["Alpha", "alpha", "beta", "Gamma"]);
    assert!(matches!(actions[0], Action::Save));
}

#[test]
fn deleting_an_item_refreshes_and_saves() {
    let mut app = with_items(&["a", "b", "c"]);
    let actions = app.execute_item_command(ItemRef { category: 0, item: 1 }, ITEM_DELETE);
    let names: Vec<_> = app.config.categories[0].items.iter().map(|i| i.name.as_str()).collect();
    assert_eq!(names, vec!["a", "c"]);
    assert_eq!(app.selected, Some(0));
    assert!(matches!(actions.last(), Some(Action::Save)));
}

#[test]
fn moving_an_item_appends_it_to_the_other_category() {
    let mut app = with_items(&["a", "b"]);
    app.execute_item_command(ItemRef { category: 0, item: 0 }, ITEM_MOVE_BASE + 1);
    assert_eq!(app.config.categories[0].items.len(), 1);
    assert_eq!(app.config.categories[1].items[0].name, "a");
    // Moving to the category it is in does nothing.
    let before = app.config.clone();
    let actions = app.execute_item_command(ItemRef { category: 0, item: 0 }, ITEM_MOVE_BASE);
    assert!(actions.is_empty());
    assert_eq!(app.config, before);
}

#[test]
fn new_category_gets_a_fresh_id_and_becomes_active() {
    let mut app = Launcher::new(Config::default());
    app.execute_menu_command(CATEGORY_NEW, None);
    let actions = app.confirm_text_input("  新分类  ");
    assert_eq!(app.config.categories.len(), 2);
    assert_eq!(app.config.categories[1].name, "新分类");
    assert_eq!(app.config.active_category, app.config.categories[1].id);
    assert!(app.input_mode.is_none());
    assert!(matches!(actions[0], Action::HideInput));
}

#[test]
fn blank_names_are_not_applied() {
    let mut app = Launcher::new(Config::default());
    app.execute_menu_command(CATEGORY_NEW, None);
    let actions = app.confirm_text_input("   ");
    assert!(actions.is_empty());
    assert_eq!(app.config.categories.len(), 1);
    assert!(matches!(app.input_mode, Some(InputMode::NewCategory)));
}

#[test]
fn renaming_an_item_uses_the_trimmed_text() {
    let mut app = with_items(&["old"]);
    app.input_mode = Some(InputMode::RenameItem { category: 0, item: 0 });
    app.confirm_text_input(" new ");
    assert_eq!(app.config.categories[0].items[0].name, "new");
}

#[test]
fn adding_paths_skips_known_ones_in_any_case() {
    let mut app = with_items(&["Editor"]);
    let env = Vec::new();
    let actions = app.add_paths(vec!["c:\\EDITOR.exe".into(), "C:\\Tools\\New.exe".into(), "c:\\tools\\new.EXE".into()], &env);
    let names: Vec<_> = app.config.categories[0].items.iter().map(|i| i.name.as_str()).collect();
    assert_eq!(names, vec!["Editor", "New"]);
    assert!(matches!(actions[0], Action::Save));
    let again = app.add_paths(vec!["C:\\Editor.exe".into()], &env);
    assert!(matches!(&again[0], Action::Info(message) if message == "所选项目已经存在。"));
}

#[test]
fn keyboard_selection_stops_at_the_ends_and_scrolls() {
    let names: Vec<String> = (0..200).map(|i| format!("项目{i}")).collect();
    let refs: Vec<&str> = names.iter().map(|s| s.as_str()).collect();
    let mut app = with_items(&refs);
    app.move_selection(-5);
    assert_eq!(app.selected, Some(0));
    app.move_selection(1000);
    assert_eq!(app.selected, Some(199));
    assert!(app.page_offset + app.layout.visible_capacity > 199);
    assert!(app.keyboard_selection);
}

#[test]
fn escape_closes_overlays_before_hiding() {
    let mut app = Launcher::new(Config::default());
    app.add_overlay_open = true;
    app.escape();
    assert!(!app.add_overlay_open);
    app.view = Screen::Settings;
    app.escape();
    assert_eq!(app.view, Screen::Launcher);
    let actions = app.escape();
    assert!(matches!(actions[0], Action::Hide));
}

#[test]
fn deleting_the_last_category_is_refused_with_a_message() {
    let app = Launcher::new(Config::default());
    let actions = app.request_category_deletion(0);
    assert!(matches!(&actions[0], Action::Info(message) if message == "至少需要保留一个分类。"));
    let app = Launcher::new(two_categories());
    assert!(matches!(app.request_category_deletion(1)[0], Action::ConfirmCategoryDeletion(1)));
}

#[test]
fn deleting_a_category_leaves_search_and_keeps_items() {
    let mut app = with_items(&["a", "b"]);
    app.search_mode = true;
    app.input_mode = Some(InputMode::Search);
    let actions = app.delete_category(0);
    assert_eq!(app.config.categories.len(), 1);
    assert_eq!(app.config.categories[0].items.len(), 2);
    assert!(!app.search_mode);
    assert!(matches!(actions[0], Action::HideInput));
}

#[test]
fn typing_starts_a_search() {
    let mut app = with_items(&["Notepad", "Paint"]);
    let actions = app.character('n');
    assert!(app.search_mode);
    assert_eq!(app.query, "n");
    assert!(matches!(actions.last(), Some(Action::ShowSearchInput)));
    assert_eq!(app.visible_count(), 2);
    app.text_changed("note");
    assert_eq!(app.visible_count(), 1);
    assert_eq!(app.selected, Some(0));
    let run = app.run_selected();
    assert!(matches!(run[0], Action::Launch(ItemRef { category: 0, item: 0 })));
}

#[test]
fn wheel_moves_one_row_within_bounds() {
    let names: Vec<String> = (0..300).map(|i| format!("项目{i}")).collect();
    let refs: Vec<&str> = names.iter().map(|s| s.as_str()).collect();
    let mut app = with_items(&refs);
    app.wheel(-120);
    assert_eq!(app.page_offset, app.layout.columns);
    app.wheel(120);
    app.wheel(120);
    assert_eq!(app.page_offset, 0);
}

#[test]
fn settings_toggles_change_the_configuration() {
    let mut app = Launcher::new(Config::default());
    app.handle_setting(krun::layout::SettingControl::DoubleClick);
    assert!(!app.config.double_click_launch);
    app.handle_setting(krun::layout::SettingControl::Movable);
    assert!(!app.config.window.movable);
    app.handle_setting(krun::layout::SettingControl::Centered);
    assert!(!app.config.window.centered);
    app.handle_setting(krun::layout::SettingControl::Movable);
    assert!(app.config.window.movable);
}

#[test]
fn frame_borders_resize_and_drag_area_moves() {
    let mut app = Launcher::new(Config::default());
    let window = Rect { left: 100, top: 100, right: 940, bottom: 620 };
    app.config.window.resizable = true;
    assert_eq!(app.frame_hit(window, 101, 101, 96), FrameHit::TopLeft);
    assert_eq!(app.frame_hit(window, 939, 619, 96), FrameHit::BottomRight);
    assert_eq!(app.frame_hit(window, 500, 619, 96), FrameHit::Bottom);
    // 7 pixels at 96 DPI, 14 at 192 DPI.
    assert_eq!(app.frame_hit(window, 110, 300, 96), FrameHit::Client);
    assert_eq!(app.frame_hit(window, 110, 300, 192), FrameHit::Left);
    app.config.window.resizable = false;
    assert_eq!(app.frame_hit(window, 101, 101, 96), FrameHit::Client);
    app.config.window.centered = false;
    app.config.window.movable = true;
    let drag = app.layout.drag_area;
    assert!(drag.right > drag.left && drag.bottom > drag.top);
    let x = window.left + drag.left;
    let y = window.top + drag.top;
    assert_eq!(app.frame_hit(window, x, y, 96), FrameHit::Caption);
    app.config.window.centered = true;
    assert_eq!(app.frame_hit(window, x, y, 96), FrameHit::Client);
}

#[test]
fn adding_the_same_paths_again_adds_nothing() {
    let mut app = Launcher::new(Config::default());
    let paths = vec![r"C:\Apps\Editor.exe".to_string(), r"D:\Tools".to_string()];
    let env = Vec::new();
    let first = app.add_paths(paths.clone(), &env);
    assert!(matches!(first[0], Action::Save));
    assert_eq!(app.config.categories[0].items.len(), 2);
    let before = app.config.clone();
    let second = app.add_paths(paths, &env);
    assert!(matches!(&second[0], Action::Info(message) if message == "所选项目已经存在。"));
    assert_eq!(app.config, before);
    // Case does not make a path new.
    let third = app.add_paths(vec![r"c:\apps\EDITOR.EXE".to_string()], &env);
    assert!(matches!(&third[0], Action::Info(_)));
    assert_eq!(app.config, before);
}

#[test]
fn closing_a_search_undoes_entering_it() {
    let mut app = with_items(&["alpha", "beta", "gamma"]);
    let before = app.config.clone();
    app.enter_search();
    assert!(app.search_mode);
    app.text_changed("be");
    assert_eq!(app.search_results.len(), 1);
    app.close_search();
    assert!(!app.search_mode);
    assert!(app.input_mode.is_none());
    assert!(app.query.is_empty());
    assert!(app.search_results.is_empty());
    assert_eq!(app.selected, None);
    assert_eq!(app.config, before);
    assert_eq!(app.visible_count(), 3);
}

#[test]
fn new_item_command_needs_no_item() {
    let mut app = Launcher::new(Config::default());
    let actions = app.execute_item_command(ItemRef { category: 7, item: 9 }, ITEM_NEW);
    assert!(app.add_overlay_open);
    assert_eq!(actions.len(), 1);
    assert!(matches!(actions[0], Action::ContentTransition));
}
