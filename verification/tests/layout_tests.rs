use krun::layout::{Layout, LayoutInput, Screen, ToolButton};

#[test]
fn reclaimed_category_space_and_top_menu_hit_at_all_dpis() {
    // Eleven 72px tabs fit.
    let names = vec!["常用".to_owned(); 11];
    for dpi in [96, 120, 144, 192] {
        let px = |n: i32| (n as f32 * dpi as f32 / 96.0).round() as i32;
        let layout = Layout::calculate(LayoutInput {
            width: px(840),
            height: px(520),
            dpi,
            view: Screen::Launcher,
            category_names: &names,
            category_start: 0,
            search_mode: false,
            item_count: 0,
        });
        assert!(!layout.category_overflow);
        assert_eq!(layout.categories.len(), 11);
        assert_eq!(layout.tool_at(px(815), px(67), Screen::Launcher), None);
        assert_eq!(layout.category_at(px(815), px(67)), Some(10));
        assert_eq!(layout.tool_at(px(735), px(23), Screen::Launcher), Some(ToolButton::AddMenu));
    }
}

#[test]
fn dynamic_tabs_overflow_without_disappearing_controls() {
    let names = (0..20).map(|index| format!("分类 {index}")).collect::<Vec<_>>();
    let layout = Layout::calculate(LayoutInput {
        width: 840,
        height: 520,
        dpi: 96,
        view: Screen::Launcher,
        category_names: &names,
        category_start: 0,
        search_mode: false,
        item_count: 0,
    });
    assert!(layout.categories.len() < names.len());
    assert!(layout.category_overflow);
    assert_eq!(layout.category_more.right, 832);
    assert_eq!(layout.tool_at(815, 67, Screen::Launcher), Some(ToolButton::CategoryMore));
}

#[test]
fn one_single_category_hides_overflow_navigation() {
    let names = vec!["常用".to_string()];
    let layout = Layout::calculate(LayoutInput {
        width: 840,
        height: 520,
        dpi: 96,
        view: Screen::Launcher,
        category_names: &names,
        category_start: 0,
        search_mode: false,
        item_count: 0,
    });
    assert!(!layout.category_overflow);
    let center = (
        (layout.category_more.left + layout.category_more.right) / 2,
        (layout.category_more.top + layout.category_more.bottom) / 2,
    );
    assert_ne!(layout.tool_at(center.0, center.1, Screen::Launcher), Some(ToolButton::CategoryMore));
}

#[test]
fn search_moves_grid_below_search_box() {
    let names = vec!["常用".to_string()];
    let input = |search_mode| LayoutInput {
        width: 840,
        height: 520,
        dpi: 96,
        view: Screen::Launcher,
        category_names: &names,
        category_start: 0,
        search_mode,
        item_count: 0,
    };
    let normal = Layout::calculate(input(false));
    let search = Layout::calculate(input(true));
    assert!(search.content.top > normal.content.top);
    assert!(search.content.top > search.search_box.bottom);
}

#[test]
fn settings_have_all_controls() {
    let layout = Layout::calculate(LayoutInput {
        width: 840,
        height: 520,
        dpi: 96,
        view: Screen::Settings,
        category_names: &[],
        category_start: 0,
        search_mode: false,
        item_count: 0,
    });
    assert_eq!(layout.settings_rows.len(), 6);
    assert!(layout.settings_rows.last().unwrap().1.bottom <= layout.client.bottom);
}

#[test]
fn settings_fit_inside_the_smallest_window() {
    for dpi in [96u32, 120, 144, 192] {
        let width = 620 * dpi as i32 / 96;
        let height = 400 * dpi as i32 / 96;
        let layout = Layout::calculate(LayoutInput {
            width,
            height,
            dpi,
            view: Screen::Settings,
            category_names: &[],
            category_start: 0,
            search_mode: false,
            item_count: 0,
        });
        let last = layout.settings_rows.last().unwrap().1;
        assert!(
            last.bottom <= layout.client.bottom,
            "settings rows overflow at dpi {dpi}: {} > {}",
            last.bottom,
            layout.client.bottom
        );
    }
}

#[test]
fn add_overlay_stays_inside_window() {
    let names = vec!["常用".to_string()];
    let layout = Layout::calculate(LayoutInput {
        width: 840,
        height: 520,
        dpi: 96,
        view: Screen::Launcher,
        category_names: &names,
        category_start: 0,
        search_mode: false,
        item_count: 0,
    });
    assert!(layout.client.contains(layout.add_overlay.left, layout.add_overlay.top));
    assert!(layout.add_overlay.right <= layout.client.right);
    assert!(layout.add_overlay.bottom <= layout.client.bottom);
    assert!(layout.add_drop_zone.top > layout.add_file_button.bottom);
}

#[test]
fn dialog_input_has_compact_height_and_clear_spacing() {
    let names = vec!["常用".to_string()];
    for dpi in [96u32, 120, 144, 192] {
        let width = 840 * dpi as i32 / 96;
        let height = 520 * dpi as i32 / 96;
        let layout = Layout::calculate(LayoutInput {
            width,
            height,
            dpi,
            view: Screen::Launcher,
            category_names: &names,
            category_start: 0,
            search_mode: false,
            item_count: 0,
        });
        let expected = (36 * dpi as i32 + 48) / 96;
        assert_eq!(layout.text_input.height(), expected);
        assert!(layout.text_input.top > layout.text_overlay.top);
        assert!(layout.text_input.bottom < layout.text_confirm_button.top);
    }
}

#[test]
fn scrollbar_only_appears_when_items_overflow() {
    let names = vec!["常用".to_string()];
    let few = Layout::calculate(LayoutInput {
        width: 840,
        height: 520,
        dpi: 96,
        view: Screen::Launcher,
        category_names: &names,
        category_start: 0,
        search_mode: false,
        item_count: 3,
    });
    assert!(!few.scrollbar_visible);
    assert_eq!(few.max_page_offset, 0);
    assert!(few.scrollbar_thumb(0, 3).is_none());
}

#[test]
fn scrollbar_and_offset_are_bounded_when_items_overflow() {
    let names = vec!["常用".to_string()];
    let input = |item_count| LayoutInput {
        width: 840,
        height: 520,
        dpi: 96,
        view: Screen::Launcher,
        category_names: &names,
        category_start: 0,
        search_mode: false,
        item_count,
    };
    let reference = Layout::calculate(input(0));
    let item_count = reference.visible_capacity + 7;
    let layout = Layout::calculate(input(item_count));
    assert!(layout.scrollbar_visible);
    assert!(layout.max_page_offset > 0);
    assert_eq!(layout.max_page_offset, item_count - layout.visible_capacity);

    let thumb = layout.scrollbar_thumb(0, item_count).unwrap();
    assert!(thumb.top >= layout.scrollbar_track.top);
    assert!(thumb.bottom <= layout.scrollbar_track.bottom);
    let end = layout.scrollbar_thumb(layout.max_page_offset, item_count).unwrap();
    assert!(end.bottom <= layout.scrollbar_track.bottom);
}

#[test]
fn track_positions_map_to_offsets_within_the_last_page() {
    let names = vec!["常用".to_string()];
    let layout = Layout::calculate(LayoutInput {
        width: 840,
        height: 520,
        dpi: 96,
        view: Screen::Launcher,
        category_names: &names,
        category_start: 0,
        search_mode: false,
        item_count: 500,
    });
    assert_eq!(layout.scrollbar_offset_at(layout.scrollbar_track.top - 100, 500), 0);
    assert_eq!(
        layout.scrollbar_offset_at(layout.scrollbar_track.bottom + 100, 500),
        layout.max_page_offset
    );
}

#[test]
fn cells_fill_rows_left_to_right() {
    let names = vec!["常用".to_string()];
    let layout = Layout::calculate(LayoutInput {
        width: 840,
        height: 520,
        dpi: 96,
        view: Screen::Launcher,
        category_names: &names,
        category_start: 0,
        search_mode: false,
        item_count: 0,
    });
    assert_eq!(layout.cells.len(), layout.visible_capacity);
    let first = layout.cells[0];
    assert_eq!(layout.item_at(first.left + 1, first.top + 1), Some(0));
    if layout.columns > 1 {
        assert_eq!(layout.cells[1].left, first.right);
        assert_eq!(layout.cells[1].top, first.top);
    }
}

#[test]
fn thumb_and_track_positions_move_together() {
    let names = vec!["常用".to_string()];
    let layout = Layout::calculate(LayoutInput {
        width: 840,
        height: 520,
        dpi: 120,
        view: Screen::Launcher,
        category_names: &names,
        category_start: 0,
        search_mode: false,
        item_count: 500,
    });
    let mut previous = i32::MIN;
    for offset in 0..=layout.max_page_offset {
        let thumb = layout.scrollbar_thumb(offset, 500).unwrap();
        assert!(thumb.top >= previous);
        previous = thumb.top;
    }
    let mut last = 0;
    for y in (layout.scrollbar_track.top - 20)..(layout.scrollbar_track.bottom + 20) {
        let offset = layout.scrollbar_offset_at(y, 500);
        assert!(offset >= last);
        last = offset;
    }
    assert_eq!(last, layout.max_page_offset);
}

#[test]
fn track_positions_round_to_the_closest_offset() {
    let names = vec!["常用".to_string()];
    let layout = Layout::calculate(LayoutInput {
        width: 840,
        height: 520,
        dpi: 96,
        view: Screen::Launcher,
        category_names: &names,
        category_start: 0,
        search_mode: false,
        item_count: 500,
    });
    let thumb = layout.scrollbar_thumb(layout.max_page_offset, 500).unwrap();
    let track = layout.scrollbar_track;
    let thumb_height = thumb.bottom - thumb.top;
    let travel = ((track.bottom - track.top) - thumb_height).max(1) as i64;
    let max = layout.max_page_offset as i64;
    let mut rounded_up = false;
    for y in track.top..track.bottom {
        let relative = (y - track.top - thumb_height / 2).clamp(0, travel as i32) as i64;
        let offset = layout.scrollbar_offset_at(y, 500) as i64;
        // Within half a page of the exact share of the travel.
        assert!((2 * travel * offset - 2 * relative * max).abs() <= travel);
        if offset > relative * max / travel {
            rounded_up = true;
        }
    }
    assert!(rounded_up);
}
