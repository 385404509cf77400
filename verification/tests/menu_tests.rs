use krun::launcher::{command, ITEM_RENAME};
use krun::layout::Rect;
use krun::menu::{MenuEntry, MenuState};
use krun::search::ItemRef;

fn entries(count: usize) -> Vec<MenuEntry> {
    (0..count)
        .map(|i| MenuEntry::Command {
            id: i as u32,
            label: format!("项目 {i}"),
            enabled: true,
        })
        .collect()
}

fn client() -> Rect {
    Rect { left: 0, top: 0, right: 840, bottom: 520 }
}

#[test]
fn menu_stays_inside_client_at_common_dpis() {
    for dpi in [96, 120, 144, 192] {
        let client = Rect { left: 0, top: 0, right: 840 * dpi / 96, bottom: 520 * dpi / 96 };
        let menu = MenuState::new(entries(4), (client.right - 4, client.bottom - 4), client, dpi as u32, None);
        assert!(menu.root_rect.right <= client.right);
        assert!(menu.root_rect.bottom <= client.bottom);
        assert!(menu.root_rect.left >= client.left);
        assert!(menu.root_rect.top >= client.top);
    }
}

#[test]
fn long_menu_scrolls_and_hits_visible_rows() {
    let mut menu = MenuState::new(entries(30), (10, 10), client(), 96, None);
    assert!(menu.rows(false).len() < 30);
    menu.scroll(1);
    assert_eq!(menu.rows(false)[0].index, 1);
    assert_eq!(
        menu.hit(menu.rows(false)[0].rect.left + 2, menu.rows(false)[0].rect.top + 2),
        Some((false, 1))
    );
}

#[test]
fn submenu_is_hit_separately() {
    let root = vec![MenuEntry::Submenu { label: "移动".into(), entries: entries(2) }];
    let mut menu = MenuState::new(root, (20, 20), client(), 96, None);
    assert_eq!(menu.hover(30, 30), Some((false, 0)));
    let rect = menu.submenu_rect.unwrap();
    assert_eq!(menu.hit(rect.left + 10, rect.top + 20), Some((true, 0)));
}

#[test]
fn disabled_commands_are_not_hit() {
    let root = vec![MenuEntry::Command { id: 1, label: "禁用".into(), enabled: false }];
    let menu = MenuState::new(root, (20, 20), client(), 96, None);
    let row = menu.rows(false)[0];
    assert_eq!(menu.hit(row.rect.left + 2, row.rect.top + 2), None);
}

#[test]
fn menu_commands_keep_fixed_target_reference() {
    let target = ItemRef { category: 2, item: 5 };
    let menu = MenuState::new(vec![command(ITEM_RENAME, "重命名", true)], (10, 10), client(), 96, Some(target));
    assert_eq!(menu.target, Some(target));
    assert_eq!(menu.command_at(false, 0), Some(ITEM_RENAME));
}

#[test]
fn keyboard_selection_skips_separators_and_stops_at_the_ends() {
    let root = vec![
        command(1, "一", true),
        MenuEntry::Separator,
        command(2, "二", false),
        command(3, "三", true),
    ];
    let mut menu = MenuState::new(root, (10, 10), client(), 96, None);
    menu.select_next(1);
    assert_eq!(menu.selected, Some((false, 0)));
    menu.select_next(1);
    assert_eq!(menu.selected, Some((false, 3)));
    menu.select_next(1);
    assert_eq!(menu.selected, Some((false, 3)));
    assert_eq!(menu.selected_command(), Some(3));
    menu.select_next(-1);
    menu.select_next(-1);
    assert_eq!(menu.selected, Some((false, 0)));
}

#[test]
fn entering_a_submenu_selects_its_first_command_and_leaving_returns() {
    let root = vec![command(1, "一", true), MenuEntry::Submenu { label: "更多".into(), entries: entries(3) }];
    let mut menu = MenuState::new(root, (10, 10), client(), 96, None);
    menu.select_next(-1);
    assert_eq!(menu.selected, Some((false, 1)));
    menu.enter_submenu();
    assert_eq!(menu.submenu, Some(1));
    assert_eq!(menu.selected, Some((true, 0)));
    assert_eq!(menu.selected_command(), Some(0));
    menu.leave_submenu();
    assert_eq!(menu.selected, Some((false, 1)));
}

#[test]
fn menu_near_the_bottom_opens_upwards() {
    let menu = MenuState::new(entries(3), (100, 500), client(), 96, None);
    assert!(menu.root_rect.bottom <= 500);
    assert_eq!(menu.root_rect.left, 100);
}

#[test]
fn menu_rows_follow_their_entries_inside_the_panel() {
    let mut root = entries(5);
    root.insert(2, MenuEntry::Separator);
    root.push(MenuEntry::Submenu { label: "移动".into(), entries: entries(2) });
    let menu = MenuState::new(root, (10, 10), client(), 96, None);
    let root = &menu.root;
    let rows = menu.rows(false);
    assert_eq!(rows.len(), root.len());
    let panel = menu.root_rect;
    for (k, row) in rows.iter().enumerate() {
        assert_eq!(row.index, k);
        assert_eq!(row.separator, matches!(root[k], MenuEntry::Separator));
        assert_eq!(row.submenu, matches!(root[k], MenuEntry::Submenu { .. }));
        assert!(panel.left < row.rect.left && row.rect.right < panel.right);
        assert!(panel.top <= row.rect.top && row.rect.top < row.rect.bottom);
        assert!(row.rect.bottom <= panel.bottom);
        if k + 1 < rows.len() {
            assert_eq!(row.rect.bottom, rows[k + 1].rect.top);
        }
    }
    assert!(menu.rows(true).is_empty());
}
