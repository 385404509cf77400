//! Pointer, keyboard and window events of the launcher: which handler of
//! `launcher` an event reaches, and the window geometry that showing and
//! hiding the window uses.
use crate::config::{HotkeyConfig, WindowConfig};
use crate::launcher::{
    add_menu_shown, all_categories_shown, category_menu_shown, category_selected, grid_item, is_command, item_under,
    menu_closed_by_user, overlay_open, scaled_len, search_closed, selected_target, setting_effect,
    tab_under, text_input_cancelled, tool_effect, valid_item, Action, InputMode, Launcher,
    CATEGORY_NEW, ITEM_CHANGE_ICON, ITEM_COPY_PATH, ITEM_DELETE, ITEM_LAUNCH, ITEM_MOVE_BASE,
    ITEM_NEW, ITEM_OPEN_WITH, ITEM_RENAME, ITEM_RESET_ICON, ITEM_REVEAL, ITEM_RUN_AS, ITEM_SORT,
};
use crate::keys::{frame_hit_spec, on_border, FrameHit};
use crate::layout::{mk_rect, Rect, Screen, MAX_DPI, MAX_EXTENT};
use crate::menu::{MenuEntry, MAX_ENTRIES};
use crate::search::ItemRef;
use vstd::prelude::*;
use vstd::string::StringExecFns;

verus! {

/// A single click opens an item only when opening needs no double click.
pub fn should_launch_on_single_click(double_click_launch: bool) -> (r: bool)
    ensures
        r == !double_click_launch,
{
    !double_click_launch
}

/// Id under which the next hotkey is registered: the one not in use.
pub fn next_hotkey_id(active: i32) -> (r: i32)
    ensures
        r == (if active == 1 {
            2i32
        } else {
            1i32
        }),
{
    if active == 1 {
        2
    } else {
        1
    }
}

/// The item context menu's entries, top to bottom.
pub open spec fn item_menu_ok(entries: Seq<MenuEntry>, a: crate::config::ConfigModel, t: ItemRef) -> bool {
    let item = a.categories[t.category as int].items[t.item as int];
    &&& entries.len() == 17
    &&& is_command(entries[0], ITEM_LAUNCH, "运行"@, true)
    &&& is_command(entries[1], ITEM_RUN_AS, "以管理员身份运行"@, true)
    &&& is_command(entries[2], ITEM_OPEN_WITH, "打开方式..."@, true)
    &&& entries[3] is Separator
    &&& is_command(entries[4], ITEM_CHANGE_ICON, "修改图标..."@, true)
    &&& is_command(entries[5], ITEM_RESET_ICON, "恢复默认图标"@, item.icon_path.len() > 0)
    &&& entries[6] is Separator
    &&& is_command(entries[7], ITEM_REVEAL, "打开文件所在位置"@, true)
    &&& is_command(entries[8], ITEM_COPY_PATH, "复制完整路径"@, true)
    &&& entries[9] is Separator
    &&& (entries[10] matches MenuEntry::Submenu { label, entries: moves } && label@ == "移动到分类"@
        && moves@.len() == a.categories.len() && forall|k: int|
        0 <= k < moves@.len() ==> is_command(
            #[trigger] moves@[k],
            (ITEM_MOVE_BASE + k) as u32,
            a.categories[k].name,
            k != t.category,
        ))
    &&& entries[11] is Separator
    &&& is_command(entries[12], ITEM_NEW, "新建项目"@, true)
    &&& is_command(entries[13], ITEM_SORT, "按名称排序"@, true)
    &&& entries[14] is Separator
    &&& is_command(entries[15], ITEM_RENAME, "重命名"@, true)
    &&& is_command(entries[16], ITEM_DELETE, "删除"@, true)
}

/// What `show_item_menu` does.
#[verifier::opaque]
pub open spec fn item_menu_shown(
    a: Launcher,
    b: Launcher,
    visible_index: usize,
    anchor: (i32, i32),
    r: Seq<Action>,
) -> bool {
    if visible_index < a.visible().len() && valid_item(a.config@, a.visible()[visible_index as int]) {
        let t = a.visible()[visible_index as int];
        &&& b.menu matches Some(m) && m.target == Some(t) && item_menu_ok(m.root@, a.config@, t)
            && m.root_rect == crate::menu::panel_rect_spec(anchor, a.layout.client, m.root@, a.dpi as int)
        &&& b == (Launcher {
            menu: b.menu,
            modal_open: true,
            hovered_item: None,
            pressed_item: None,
            ..a
        })
        &&& r =~= (if a.search_mode {
            seq![Action::HideInput]
        } else {
            seq![]
        }) + seq![Action::Redraw]
    } else {
        b == a && r.len() == 0
    }
}

/// The scrollbar thumb for the current page (the offset kept within the last page).
pub open spec fn thumb_now(a: Launcher) -> Option<Rect> {
    let max = a.layout.max_page_offset;
    let offset = if a.page_offset < max {
        a.page_offset
    } else {
        max
    };
    a.layout.thumb_spec(offset as int, a.visible().len() as int)
}

/// Whether a press at a point lands on the scrollbar (thumb or track).
pub open spec fn scrollbar_takes(a: Launcher, x: int, y: int) -> bool {
    &&& a.view == Screen::Launcher
    &&& a.layout.scrollbar_visible
    &&& thumb_now(a) is Some
    &&& (thumb_now(a)->0.has(x, y) || a.layout.scrollbar_track.has(x, y))
}

/// What `hit_scrollbar` does: the thumb starts a drag; elsewhere on the
/// track the page jumps to the pointer and a drag starts.
#[verifier::opaque]
pub open spec fn scrollbar_press_effect(a: Launcher, b: Launcher, x: int, y: int, taken: bool, r: Seq<Action>) -> bool {
    if !scrollbar_takes(a, x, y) {
        !taken && b == a && r.len() == 0
    } else if thumb_now(a)->0.has(x, y) {
        taken && b == (Launcher { dragging_scrollbar: true, ..a }) && r.len() == 0
    } else {
        &&& taken
        &&& b == (Launcher {
            dragging_scrollbar: true,
            page_offset: a.layout.offset_at_spec(y, a.visible().len() as int) as usize,
            ..a
        })
        &&& r =~= seq![Action::Redraw]
    }
}

/// What `handle_add_overlay_click` does.
pub open spec fn add_overlay_click_effect(a: Launcher, b: Launcher, x: int, y: int, r: Seq<Action>) -> bool {
    if a.layout.add_close_button.has(x, y) || !a.layout.add_overlay.has(x, y) {
        b == (Launcher { add_overlay_open: false, ..a }) && r =~= seq![Action::Redraw]
    } else if a.layout.add_file_button.has(x, y) {
        b == a && r =~= seq![Action::ChoosePaths(false)]
    } else if a.layout.add_folder_button.has(x, y) {
        b == a && r =~= seq![Action::ChoosePaths(true)]
    } else {
        b == a && r.len() == 0
    }
}

/// What `handle_text_overlay_click` does.
pub open spec fn text_overlay_click_effect(a: Launcher, b: Launcher, x: int, y: int, r: Seq<Action>) -> bool {
    if a.layout.text_confirm_button.has(x, y) {
        b == a && r =~= seq![Action::ConfirmTextInput]
    } else if a.layout.text_cancel_button.has(x, y) || !a.layout.text_overlay.has(x, y) {
        text_input_cancelled(a, b, r)
    } else {
        b == a && r.len() == 0
    }
}

/// What clicking item `g` of the grid does: it becomes the selection, and
/// is opened at once when a single click opens items.
pub open spec fn item_clicked(a: Launcher, b: Launcher, g: usize, r: Seq<Action>) -> bool {
    let s = Launcher { selected: Some(g), keyboard_selection: false, ..a };
    &&& b == s
    &&& r =~= seq![Action::Redraw] + (if !a.config@.double_click_launch {
        match selected_target(s) {
            Some(t) => seq![Action::Launch(t)],
            None => seq![],
        }
    } else {
        seq![]
    })
}

/// What `left_click` does: overlays first, then toolbar buttons, settings
/// rows, the search box, category tabs and items; a click on nothing clears
/// the selection.
#[verifier::opaque]
pub open spec fn left_click_effect(a: Launcher, b: Launcher, x: int, y: int, r: Seq<Action>) -> bool {
    if a.add_overlay_open {
        add_overlay_click_effect(a, b, x, y, r)
    } else if a.input_mode is Some && a.input_mode != Some(InputMode::Search) {
        text_overlay_click_effect(a, b, x, y, r)
    } else if a.layout.tool_at_spec(x, y, a.view) is Some {
        tool_effect(a, b, a.layout.tool_at_spec(x, y, a.view)->0, r)
    } else if a.view == Screen::Settings {
        match crate::layout::first_containing(a.layout.setting_rects(), x, y, 0) {
            Some(k) => setting_effect(a, b, a.layout.settings_rows@[k].0, r),
            None => b == a && r.len() == 0,
        }
    } else if a.search_mode && a.layout.search_close_button.has(x, y) {
        search_closed(a, b, r)
    } else if a.search_mode && a.layout.search_box.has(x, y) {
        b == a && r =~= seq![Action::FocusInput]
    } else if tab_under(a, x, y) is Some {
        if tab_under(a, x, y)->0 < a.config@.categories.len() {
            category_selected(a, b, tab_under(a, x, y)->0, true, r)
        } else {
            b == a && r.len() == 0
        }
    } else if grid_item(a, x, y) is Some {
        item_clicked(a, b, grid_item(a, x, y)->0, r)
    } else {
        b == (Launcher { selected: None, ..a }) && r =~= seq![Action::Redraw]
    }
}

impl Launcher {
    /// The context menu of an item on show.
    pub fn show_item_menu(&mut self, visible_index: usize, anchor: (i32, i32)) -> (r: Vec<Action>)
        requires
            old(self).wf(),
        ensures
            final(self).wf(),
            item_menu_shown(*old(self), *final(self), visible_index, anchor, r@),
    {
        proof {
            reveal(item_menu_shown);
        }
        let reference = match self.visible_ref(visible_index) {
            Some(t) => t,
            None => return Vec::new(),
        };
        if !self.is_valid_item(reference) {
            return Vec::new();
        }
        let item = self.item_copy(reference);
        let has_custom_icon = !item.icon_path.as_str().is_empty();
        let mut moves: Vec<MenuEntry> = Vec::new();
        let mut k: usize = 0;
        while k < self.config.categories.len()
            invariant
                k <= self.config@.categories.len() <= MAX_ENTRIES,
                moves@.len() == k,
                forall|j: int|
                    0 <= j < k ==> is_command(
                        #[trigger] moves@[j],
                        (ITEM_MOVE_BASE + j) as u32,
                        self.config@.categories[j].name,
                        j != reference.category,
                    ),
            decreases self.config@.categories.len() - k,
        {
            proof {
                assert(self.config@.categories[k as int] == self.config.categories@[k as int]@);
            }
            moves.push(
                crate::launcher::command(
                    ITEM_MOVE_BASE + k as u32,
                    self.config.categories[k].name.as_str(),
                    k != reference.category,
                ),
            );
            k += 1;
        }
        let mut entries: Vec<MenuEntry> = Vec::new();
        entries.push(crate::launcher::command(ITEM_LAUNCH, "运行", true));
        entries.push(crate::launcher::command(ITEM_RUN_AS, "以管理员身份运行", true));
        entries.push(crate::launcher::command(ITEM_OPEN_WITH, "打开方式...", true));
        entries.push(MenuEntry::Separator);
        entries.push(crate::launcher::command(ITEM_CHANGE_ICON, "修改图标...", true));
        entries.push(crate::launcher::command(ITEM_RESET_ICON, "恢复默认图标", has_custom_icon));
        entries.push(MenuEntry::Separator);
        entries.push(crate::launcher::command(ITEM_REVEAL, "打开文件所在位置", true));
        entries.push(crate::launcher::command(ITEM_COPY_PATH, "复制完整路径", true));
        entries.push(MenuEntry::Separator);
        entries.push(MenuEntry::Submenu { label: String::from_str("移动到分类"), entries: moves });
        entries.push(MenuEntry::Separator);
        entries.push(crate::launcher::command(ITEM_NEW, "新建项目", true));
        entries.push(crate::launcher::command(ITEM_SORT, "按名称排序", true));
        entries.push(MenuEntry::Separator);
        entries.push(crate::launcher::command(ITEM_RENAME, "重命名", true));
        entries.push(crate::launcher::command(ITEM_DELETE, "删除", true));
        proof {
            assert(item_menu_ok(entries@, self.config@, reference));
            assert forall|j: int|
                0 <= j < entries@.len() && (#[trigger] entries@[j]) is Submenu implies entries@[j]->Submenu_entries@.len()
                    <= MAX_ENTRIES by {
                if j != 10 {
                    assert(!(entries@[j] is Submenu));
                }
            }
        }
        self.open_menu_at(entries, anchor, Some(reference))
    }

    /// A click with the right button: closes an open menu, or opens the
    /// context menu of the tab or item under the pointer.
    pub fn right_click(&mut self, x: i32, y: i32) -> (r: Vec<Action>)
        requires
            old(self).wf(),
        ensures
            final(self).wf(),
            old(self).menu is Some ==> menu_closed_by_user(*old(self), *final(self), r@),
            old(self).menu is None && (old(self).view != Screen::Launcher || overlay_open(*old(self)))
                ==> *final(self) == *old(self) && r@.len() == 0,
            old(self).menu is None && old(self).view == Screen::Launcher && !overlay_open(*old(self))
                ==> match tab_under(*old(self), x as int, y as int) {
                Some(k) => if k < old(self).config@.categories.len() {
                    category_menu_shown(*old(self), *final(self), k as int, (x, y), r@)
                } else {
                    *final(self) == *old(self) && r@.len() == 0
                },
                None => match grid_item(*old(self), x as int, y as int) {
                    Some(g) => r@.len() > 0 && r@.last() is Redraw && item_menu_shown(
                        Launcher { selected: Some(g), keyboard_selection: false, ..*old(self) },
                        *final(self),
                        g,
                        (x, y),
                        r@.drop_last(),
                    ),
                    None => *final(self) == *old(self) && r@.len() == 0,
                },
            },
    {
        if self.menu.is_some() {
            return self.close_menu();
        }
        if self.view != Screen::Launcher || self.add_overlay_open || (self.input_mode.is_some()
            && self.input_mode != Some(InputMode::Search)) {
            return Vec::new();
        }
        if let Some(k) = self.layout.category_at(x, y) {
            if k < self.config.categories.len() {
                return self.show_category_menu(k, (x, y));
            }
            return Vec::new();
        }
        if let Some(g) = self.grid_item(x, y) {
            self.selected = Some(g);
            self.keyboard_selection = false;
            let mut r = self.show_item_menu(g, (x, y));
            let ghost shown = r@;
            r.push(Action::Redraw);
            assert(r@.drop_last() =~= shown);
            return r;
        }
        Vec::new()
    }

    /// A click on the add overlay: its close button or a click outside it
    /// closes it; its buttons ask for files or folders.
    pub fn handle_add_overlay_click(&mut self, x: i32, y: i32) -> (r: Vec<Action>)
        requires
            old(self).wf(),
        ensures
            final(self).wf(),
            add_overlay_click_effect(*old(self), *final(self), x as int, y as int, r@),
    {
        let mut r = Vec::new();
        if self.layout.add_close_button.contains(x, y) || !self.layout.add_overlay.contains(x, y) {
            self.add_overlay_open = false;
            r.push(Action::Redraw);
        } else if self.layout.add_file_button.contains(x, y) {
            r.push(Action::ChoosePaths(false));
        } else if self.layout.add_folder_button.contains(x, y) {
            r.push(Action::ChoosePaths(true));
        }
        r
    }

    /// Files or folders were picked for adding: the overlay closes and they
    /// are added (nothing happens for an empty choice).
    pub fn paths_chosen(&mut self, paths: Vec<String>, env: &Vec<crate::shell::EnvVar>) -> (r: Vec<
        Action,
    >)
        requires
            old(self).wf(),
            old(self).config@.total_items() + paths@.len() <= crate::layout::MAX_COUNT,
        ensures
            final(self).wf(),
            paths@.len() == 0 ==> *final(self) == *old(self) && r@ =~= seq![Action::Redraw],
            paths@.len() > 0 ==> {
                let c = old(self).config@;
                let added = crate::launcher::added_paths(
                    c,
                    c.active_index(),
                    paths@.map_values(|p: String| p@),
                    env@,
                );
                &&& final(self).config@ == added
                &&& final(self).refreshed_from(
                    Launcher { config: final(self).config, add_overlay_open: false, ..*old(self) },
                )
                &&& !final(self).add_overlay_open
                &&& r@.len() == 3
                &&& r@[1] is Redraw
                &&& r@[2] is Redraw
                &&& (added.total_items() == c.total_items() ==> (r@[0] matches Action::Info(m) && m@
                    == "所选项目已经存在。"@))
                &&& (added.total_items() != c.total_items() ==> r@[0] is Save)
            },
    {
        let mut r = Vec::new();
        if paths.len() > 0 {
            self.add_overlay_open = false;
            r = self.add_paths(paths, env);
        }
        r.push(Action::Redraw);
        r
    }

    /// A click on the dialog overlay: confirm, cancel, or a click outside
    /// it (which cancels).
    pub fn handle_text_overlay_click(&mut self, x: i32, y: i32) -> (r: Vec<Action>)
        requires
            old(self).wf(),
        ensures
            final(self).wf(),
            text_overlay_click_effect(*old(self), *final(self), x as int, y as int, r@),
    {
        if self.layout.text_confirm_button.contains(x, y) {
            let mut r = Vec::new();
            r.push(Action::ConfirmTextInput);
            r
        } else if self.layout.text_cancel_button.contains(x, y) || !self.layout.text_overlay.contains(
            x,
            y,
        ) {
            self.cancel_text_input()
        } else {
            Vec::new()
        }
    }

    /// Selects the clicked item and opens it when a single click opens items.
    fn click_item(&mut self, g: usize) -> (r: Vec<Action>)
        requires
            old(self).wf(),
        ensures
            final(self).wf(),
            item_clicked(*old(self), *final(self), g, r@),
    {
        self.selected = Some(g);
        self.keyboard_selection = false;
        let mut r = Vec::new();
        r.push(Action::Redraw);
        if should_launch_on_single_click(self.config.double_click_launch) {
            let mut more = self.run_selected();
            r.append(&mut more);
        }
        r
    }

    /// A click with the left button: see `left_click_effect`.
    #[verifier::spinoff_prover]
    #[verifier::rlimit(80)]
    pub fn left_click(&mut self, x: i32, y: i32) -> (r: Vec<Action>)
        requires
            old(self).wf(),
        ensures
            final(self).wf(),
            left_click_effect(*old(self), *final(self), x as int, y as int, r@),
    {
        proof {
            reveal(left_click_effect);
        }
        if self.add_overlay_open {
            return self.handle_add_overlay_click(x, y);
        }
        if self.input_mode.is_some() && self.input_mode != Some(InputMode::Search) {
            return self.handle_text_overlay_click(x, y);
        }
        if let Some(button) = self.layout.tool_at(x, y, self.view) {
            return self.handle_tool(button);
        }
        if self.view == Screen::Settings {
            return match self.layout.setting_at(x, y) {
                Some(control) => self.handle_setting(control),
                None => Vec::new(),
            };
        }
        if self.search_mode && self.layout.search_close_button.contains(x, y) {
            return self.close_search();
        }
        if self.search_mode && self.layout.search_box.contains(x, y) {
            let mut r = Vec::new();
            r.push(Action::FocusInput);
            return r;
        }
        if let Some(k) = self.layout.category_at(x, y) {
            if k < self.config.categories.len() {
                return self.select_category(k, true);
            }
            return Vec::new();
        }
        if let Some(g) = self.grid_item(x, y) {
            return self.click_item(g);
        }
        self.selected = None;
        let mut r = Vec::new();
        r.push(Action::Redraw);
        r
    }

    /// A double click on an item selects it and opens it when opening
    /// needs a double click.
    pub fn double_click(&mut self, x: i32, y: i32) -> (r: Vec<Action>)
        requires
            old(self).wf(),
        ensures
            final(self).wf(),
            old(self).menu is Some || old(self).view != Screen::Launcher || overlay_open(*old(self))
                || grid_item(*old(self), x as int, y as int) is None ==> *final(self) == *old(self)
                && r@.len() == 0,
            !(old(self).menu is Some || old(self).view != Screen::Launcher || overlay_open(*old(self)))
                && grid_item(*old(self), x as int, y as int) is Some ==> {
                let s = Launcher {
                    selected: Some(grid_item(*old(self), x as int, y as int)->0),
                    keyboard_selection: false,
                    ..*old(self)
                };
                &&& *final(self) == s
                &&& r@ =~= seq![Action::Redraw] + (if old(self).config@.double_click_launch {
                    match selected_target(s) {
                        Some(t) => seq![Action::Launch(t)],
                        None => seq![],
                    }
                } else {
                    seq![]
                })
            },
    {
        if self.menu.is_some() || self.view != Screen::Launcher || self.add_overlay_open || (
        self.input_mode.is_some() && self.input_mode != Some(InputMode::Search)) {
            return Vec::new();
        }
        let g = match self.grid_item(x, y) {
            Some(g) => g,
            None => return Vec::new(),
        };
        self.selected = Some(g);
        self.keyboard_selection = false;
        let mut r = Vec::new();
        r.push(Action::Redraw);
        if self.config.double_click_launch {
            let mut more = self.run_selected();
            r.append(&mut more);
        }
        r
    }

    /// A press on the scrollbar: the thumb starts a drag, the track jumps
    /// there and starts a drag. Returns whether the press was taken.
    pub fn hit_scrollbar(&mut self, x: i32, y: i32) -> (r: (bool, Vec<Action>))
        requires
            old(self).wf(),
            -1_000_000_000 <= y <= 1_000_000_000,
        ensures
            final(self).wf(),
            scrollbar_press_effect(*old(self), *final(self), x as int, y as int, r.0, r.1@),
    {
        proof {
            reveal(scrollbar_press_effect);
        }
        if self.view != Screen::Launcher || !self.layout.scrollbar_visible {
            return (false, Vec::new());
        }
        let count = self.visible_count();
        let offset = if self.page_offset < self.layout.max_page_offset {
            self.page_offset
        } else {
            self.layout.max_page_offset
        };
        let thumb = match self.layout.scrollbar_thumb(offset, count) {
            Some(t) => t,
            None => return (false, Vec::new()),
        };
        if thumb.contains(x, y) {
            self.dragging_scrollbar = true;
            return (true, Vec::new());
        }
        if self.layout.scrollbar_track.contains(x, y) {
            self.dragging_scrollbar = true;
            self.page_offset = self.layout.scrollbar_offset_at(y, count);
            self.clamp_page();
            let mut r = Vec::new();
            r.push(Action::Redraw);
            return (true, r);
        }
        (false, Vec::new())
    }

    /// A press with the left button: a menu takes it first, then the
    /// scrollbar; otherwise the item under it shows as pressed and the
    /// click is handled.
    pub fn mouse_down(&mut self, x: i32, y: i32) -> (r: Vec<Action>)
        requires
            old(self).wf(),
            -1_000_000_000 <= y <= 1_000_000_000,
        ensures
            final(self).wf(),
            old(self).menu is Some ==> crate::launcher::menu_click_effect(
                *old(self),
                *final(self),
                x as int,
                y as int,
                true,
                r@,
            ),
            old(self).menu is None && scrollbar_takes(*old(self), x as int, y as int)
                ==> scrollbar_press_effect(*old(self), *final(self), x as int, y as int, true, r@),
            old(self).menu is None && !scrollbar_takes(*old(self), x as int, y as int) ==> {
                let item = item_under(*old(self), x as int, y as int);
                left_click_effect(
                    Launcher {
                        pressed_item: item,
                        hovered_item: item,
                        keyboard_selection: false,
                        ..*old(self)
                    },
                    *final(self),
                    x as int,
                    y as int,
                    r@,
                )
            },
    {
        proof {
            reveal(scrollbar_press_effect);
        }
        let (taken, r) = self.menu_click(x, y);
        if taken {
            return r;
        }
        let (taken, r) = self.hit_scrollbar(x, y);
        if taken {
            return r;
        }
        let item = self.item_under(x, y);
        self.pressed_item = item;
        self.hovered_item = item;
        self.keyboard_selection = false;
        self.left_click(x, y)
    }

    /// The left button was released: a drag ends and the press highlight goes.
    pub fn mouse_up(&mut self) -> (r: Vec<Action>)
        requires
            old(self).wf(),
        ensures
            final(self).wf(),
            *final(self) == (Launcher {
                dragging_scrollbar: false,
                pressed_item: None,
                ..*old(self)
            }),
            r@ =~= (if old(self).pressed_item is Some {
                seq![Action::Redraw]
            } else {
                seq![]
            }),
    {
        self.dragging_scrollbar = false;
        let mut r = Vec::new();
        if self.pressed_item.is_some() {
            self.pressed_item = None;
            r.push(Action::Redraw);
        }
        r
    }

    /// The pointer moved with the button held: a scrollbar drag follows it.
    pub fn mouse_drag(&mut self, y: i32) -> (r: Vec<Action>)
        requires
            old(self).wf(),
            -1_000_000_000 <= y <= 1_000_000_000,
        ensures
            final(self).wf(),
            !old(self).dragging_scrollbar ==> *final(self) == *old(self) && r@.len() == 0,
            old(self).dragging_scrollbar ==> *final(self) == (Launcher {
                page_offset: old(self).layout.offset_at_spec(y as int, old(self).visible().len() as int)
                    as usize,
                ..*old(self)
            }) && r@ =~= seq![Action::Redraw],
    {
        if !self.dragging_scrollbar {
            return Vec::new();
        }
        let count = self.visible_count();
        self.page_offset = self.layout.scrollbar_offset_at(y, count);
        self.clamp_page();
        let mut r = Vec::new();
        r.push(Action::Redraw);
        r
    }

    /// The pointer left the window: hover and press highlights go.
    pub fn mouse_leave(&mut self) -> (r: Vec<Action>)
        requires
            old(self).wf(),
        ensures
            final(self).wf(),
            *final(self) == (Launcher {
                hovered_item: None,
                hovered_tool: None,
                pressed_item: None,
                scrollbar_hover: false,
                ..*old(self)
            }),
            r@ =~= (if old(self).hovered_item is Some || old(self).hovered_tool is Some
                || old(self).pressed_item is Some || old(self).scrollbar_hover {
                seq![Action::Redraw]
            } else {
                seq![]
            }),
    {
        let had = self.hovered_item.is_some() || self.hovered_tool.is_some()
            || self.pressed_item.is_some() || self.scrollbar_hover;
        self.hovered_item = None;
        self.hovered_tool = None;
        self.pressed_item = None;
        self.scrollbar_hover = false;
        let mut r = Vec::new();
        if had {
            r.push(Action::Redraw);
        }
        r
    }

    /// A key while capturing the hotkey: modifier keys alone wait for more;
    /// an invalid combination is refused; a valid one is offered for
    /// registration.
    pub fn capture_hotkey(&self, key: u32, modifiers: u32) -> (r: Vec<Action>)
        ensures
            !self.hotkey_capture || crate::hotkey::modifier_key(key) ==> r@.len() == 0,
            self.hotkey_capture && !crate::hotkey::modifier_key(key) && !crate::hotkey::valid_hotkey(
                HotkeyConfig { modifiers, key },
            ) ==> r@.len() == 1 && (r@[0] matches Action::Error(m) && m@
                == "快捷键需要包含 Ctrl、Alt、Shift 或 Win，并搭配字母、数字或 F1-F24。"@),
            self.hotkey_capture && !crate::hotkey::modifier_key(key) && crate::hotkey::valid_hotkey(
                HotkeyConfig { modifiers, key },
            ) ==> r@ =~= seq![Action::RegisterHotkey(HotkeyConfig { modifiers, key })],
    {
        let mut r = Vec::new();
        if !self.hotkey_capture || crate::hotkey::is_modifier(key) {
            return r;
        }
        let candidate = HotkeyConfig { modifiers, key };
        if !crate::hotkey::is_valid(&candidate) {
            r.push(
                Action::Error(
                    String::from_str(
                        "快捷键需要包含 Ctrl、Alt、Shift 或 Win，并搭配字母、数字或 F1-F24。",
                    ),
                ),
            );
            return r;
        }
        r.push(Action::RegisterHotkey(candidate));
        r
    }

    /// The hotkey was registered: it is stored and capturing ends.
    pub fn hotkey_registered(&mut self, hotkey: HotkeyConfig) -> (r: Vec<Action>)
        requires
            old(self).wf(),
        ensures
            final(self).wf(),
            final(self).config@ == (crate::config::ConfigModel { hotkey, ..old(self).config@ }),
            *final(self) == (Launcher {
                config: final(self).config,
                hotkey_capture: false,
                ..*old(self)
            }),
            r@ =~= seq![Action::UpdateTrayTip, Action::Save, Action::Redraw],
    {
        self.config.hotkey = hotkey;
        self.hotkey_capture = false;
        let mut r = Vec::new();
        r.push(Action::UpdateTrayTip);
        r.push(Action::Save);
        r.push(Action::Redraw);
        r
    }

    /// Whether a press at a point drags the window: on the drag area of a
    /// movable, not centred window without the add overlay.
    pub fn hit_test_drag(&self, x: i32, y: i32) -> (r: bool)
        ensures
            r == (!self.add_overlay_open && !self.config@.window.centered
                && self.config@.window.movable && self.layout.drag_area.has(x as int, y as int)),
    {
        !self.add_overlay_open && !self.config.window.centered && self.config.window.movable
            && self.layout.drag_area.contains(x, y)
    }

    /// Whether the window may be resized.
    pub fn can_resize(&self) -> (r: bool)
        ensures
            r == self.config@.window.resizable,
    {
        self.config.window.resizable
    }

    /// The part of the window at a screen point, for a window at `window`
    /// (screen coordinates) shown at `dpi`.
    pub fn frame_hit(&self, window: Rect, x: i32, y: i32, dpi: u32) -> (r: FrameHit)
        requires
            dpi <= MAX_DPI,
            -2_000_000_000 <= window.left <= 2_000_000_000,
            -2_000_000_000 <= window.right <= 2_000_000_000,
            -2_000_000_000 <= window.top <= 2_000_000_000,
            -2_000_000_000 <= window.bottom <= 2_000_000_000,
            i32::MIN <= x - window.left <= i32::MAX,
            i32::MIN <= y - window.top <= i32::MAX,
        ensures
            r == frame_hit_spec(
                window,
                x as int,
                y as int,
                dpi as int,
                self.config@.window.resizable,
                !self.add_overlay_open && !self.config@.window.centered
                    && self.config@.window.movable && self.layout.drag_area.has(
                    x - window.left,
                    y - window.top,
                ),
            ),
    {
        if self.can_resize() {
            if let Some(edge) = on_border(window, x, y, dpi) {
                return edge;
            }
        }
        if self.hit_test_drag(x - window.left, y - window.top) {
            FrameHit::Caption
        } else {
            FrameHit::Client
        }
    }

    /// Where the text box goes and whether it is the dialog's: inside the
    /// search field up to its close button, or in the dialog overlay; `None`
    /// when no text is being entered.
    pub fn text_input_place(&self) -> (r: Option<(Rect, bool)>)
        ensures
            r == match self.input_mode {
                Some(InputMode::Search) => Some(
                    (
                        Rect {
                            left: self.layout.search_box.left,
                            top: self.layout.search_box.top,
                            right: self.layout.search_close_button.left,
                            bottom: self.layout.search_box.bottom,
                        },
                        false,
                    ),
                ),
                Some(_) => Some((self.layout.text_input, true)),
                None => None,
            },
    {
        match self.input_mode {
            Some(InputMode::Search) => Some(
                (
                    Rect {
                        left: self.layout.search_box.left,
                        top: self.layout.search_box.top,
                        right: self.layout.search_close_button.left,
                        bottom: self.layout.search_box.bottom,
                    },
                    false,
                ),
            ),
            Some(_) => Some((self.layout.text_input, true)),
            None => None,
        }
    }

    /// Whether a menu is open.
    pub fn menu_open(&self) -> (r: bool)
        ensures
            r == self.menu is Some,
    {
        self.menu.is_some()
    }

    /// Title of the dialog overlay for the current use of the text box.
    pub fn input_title(&self) -> (r: Option<&'static str>)
        ensures
            self.input_mode == Some(InputMode::NewCategory) ==> (r matches Some(t) && t@ == "新建分类"@),
            self.input_mode matches Some(InputMode::RenameCategory(_)) ==> (r matches Some(t) && t@
                == "重命名分类"@),
            self.input_mode matches Some(InputMode::RenameItem { .. }) ==> (r matches Some(t) && t@
                == "重命名项目"@),
            self.input_mode is None || self.input_mode == Some(InputMode::Search) ==> r is None,
    {
        match self.input_mode {
            Some(InputMode::NewCategory) => Some("新建分类"),
            Some(InputMode::RenameCategory(_)) => Some("重命名分类"),
            Some(InputMode::RenameItem { .. }) => Some("重命名项目"),
            _ => None,
        }
    }

    /// The client area changed size: lay out again.
    pub fn resize(&mut self, width: i32, height: i32) -> (r: Vec<Action>)
        requires
            old(self).wf(),
            0 <= width <= MAX_EXTENT,
            0 <= height <= MAX_EXTENT,
        ensures
            final(self).wf(),
            final(self).relaid_from(Launcher { width, height, ..*old(self) }),
            r@ =~= seq![Action::Redraw],
    {
        self.width = width;
        self.height = height;
        self.relayout();
        let mut r = Vec::new();
        r.push(Action::Redraw);
        r
    }

    /// The window moved to a display with another DPI (never below 96).
    pub fn dpi_changed(&mut self, dpi: u32)
        requires
            old(self).wf(),
            dpi <= MAX_DPI,
        ensures
            final(self).wf(),
            *final(self) == (Launcher {
                dpi: if dpi < 96 {
                    96
                } else {
                    dpi
                },
                ..*old(self)
            }),
    {
        self.dpi = if dpi < 96 {
            96
        } else {
            dpi
        };
    }

    /// Stores the window's rectangle on hiding or exit: its size back in
    /// design units (620 to 1600 by 400 to 1200) and, unless it is
    /// centred, its position. An empty rectangle changes nothing.
    #[verifier::spinoff_prover]
    #[verifier::rlimit(60)]
    pub fn placement_stored(&mut self, rect: Rect, dpi: u32) -> (r: Vec<Action>)
        requires
            old(self).wf(),
            dpi <= MAX_DPI,
            crate::layout::fits_i32(rect.right - rect.left),
            crate::layout::fits_i32(rect.bottom - rect.top),
        ensures
            final(self).wf(),
            rect.right <= rect.left || rect.bottom <= rect.top ==> *final(self) == *old(self)
                && r@.len() == 0,
            !(rect.right <= rect.left || rect.bottom <= rect.top) ==> {
                let d = if dpi < 96 {
                    96
                } else {
                    dpi as int
                };
                &&& final(self).config@ == (crate::config::ConfigModel {
                    window: stored_window(old(self).config@.window, rect, d),
                    ..old(self).config@
                })
                &&& *final(self) == (Launcher {
                    config: final(self).config,
                    dpi: d as u32,
                    ..*old(self)
                })
                &&& r@ =~= seq![Action::Save]
            },
    {
        if rect.right <= rect.left || rect.bottom <= rect.top {
            return Vec::new();
        }
        let d = if dpi < 96 {
            96
        } else {
            dpi
        };
        self.dpi = d;
        let w = crate::launcher::unscale(rect.right - rect.left, d);
        let h = crate::launcher::unscale(rect.bottom - rect.top, d);
        let ghost before = self.config.window@;
        self.config.window.width = if w < 620 {
            620
        } else if w > 1600 {
            1600
        } else {
            w
        };
        self.config.window.height = if h < 400 {
            400
        } else if h > 1200 {
            1200
        } else {
            h
        };
        if !self.config.window.centered {
            self.config.window.x = rect.left;
            self.config.window.y = rect.top;
        }
        proof {
            assert(self.config.window@ == stored_window(before, rect, d as int));
        }
        let mut r = Vec::new();
        r.push(Action::Save);
        r
    }
}

/// The window settings after storing the window rectangle `rect` at DPI `d`.
pub open spec fn stored_window(w: crate::config::WindowModel, rect: Rect, d: int) -> crate::config::WindowModel {
    crate::config::WindowModel {
        width: crate::config::clamp_int(((rect.right - rect.left) * 96) / d, 620, 1600) as i32,
        height: crate::config::clamp_int(((rect.bottom - rect.top) * 96) / d, 400, 1200) as i32,
        x: if w.centered {
            w.x
        } else {
            rect.left
        },
        y: if w.centered {
            w.y
        } else {
            rect.top
        },
        ..w
    }
}

/// `v` clamped into `[low, high]` with `low <= high`.
pub open spec fn clamp_i(v: int, low: int, high: int) -> int {
    if v < low {
        low
    } else if v > high {
        high
    } else {
        v
    }
}

/// Where the window shows on a monitor's work area: the stored size in
/// pixels (at least the smallest window, at most the work area), centred
/// in the work area when so configured, otherwise at the stored position,
/// kept inside the work area.
pub open spec fn placement(work: Rect, window: crate::config::WindowModel, dpi: int) -> Rect {
    let d = if dpi < 96 {
        96
    } else {
        dpi
    };
    let max_w = work.w();
    let max_h = work.h();
    let width = clamp_i(scaled_len(window.width as int, d), scaled_len(620, d), max_w);
    let height = clamp_i(scaled_len(window.height as int, d), scaled_len(400, d), max_h);
    let desired_x = if window.centered {
        work.left + (max_w - width) / 2
    } else {
        window.x as int
    };
    let desired_y = if window.centered {
        work.top + (max_h - height) / 2
    } else {
        window.y as int
    };
    let x = clamp_i(desired_x, work.left as int, work.right - width);
    let y = clamp_i(desired_y, work.top as int, work.bottom - height);
    mk_rect(x, y, x + width, y + height)
}

/// The smallest window size at a DPI (never below 96): 620 by 400 design
/// pixels, rounded down.
pub fn min_window_size(dpi: u32) -> (r: (i32, i32))
    requires
        dpi <= MAX_DPI,
    ensures
        ({
            let d = if dpi < 96 {
                96
            } else {
                dpi as int
            };
            r == (scaled_len(620, d) as i32, scaled_len(400, d) as i32)
        }),
{
    let d = if dpi < 96 {
        96
    } else {
        dpi
    };
    (crate::launcher::scale(620, d), crate::launcher::scale(400, d))
}

/// The window's rectangle for showing on a monitor with work area `work`.
/// The work area must hold the smallest window at that DPI.
pub fn window_placement(work: Rect, window: &WindowConfig, dpi: u32) -> (r: Rect)
    requires
        0 <= window@.width <= 100_000,
        0 <= window@.height <= 100_000,
        dpi <= MAX_DPI,
        -1_000_000_000 <= work.left <= work.right <= 1_000_000_000,
        -1_000_000_000 <= work.top <= work.bottom <= 1_000_000_000,
        scaled_len(620, if dpi < 96 { 96 } else { dpi as int }) <= work.w(),
        scaled_len(400, if dpi < 96 { 96 } else { dpi as int }) <= work.h(),
    ensures
        r == placement(work, window@, dpi as int),
{
    let d = if dpi < 96 {
        96
    } else {
        dpi
    };
    let max_w = work.right - work.left;
    let max_h = work.bottom - work.top;
    let min_w = crate::launcher::scale(620, d);
    let min_h = crate::launcher::scale(400, d);
    let want_w = crate::launcher::scale(window.width, d);
    let want_h = crate::launcher::scale(window.height, d);
    let width = if want_w < min_w {
        min_w
    } else if want_w > max_w {
        max_w
    } else {
        want_w
    };
    let height = if want_h < min_h {
        min_h
    } else if want_h > max_h {
        max_h
    } else {
        want_h
    };
    let desired_x = if window.centered {
        work.left + (max_w - width) / 2
    } else {
        window.x
    };
    let desired_y = if window.centered {
        work.top + (max_h - height) / 2
    } else {
        window.y
    };
    let x = if desired_x < work.left {
        work.left
    } else if desired_x > work.right - width {
        work.right - width
    } else {
        desired_x
    };
    let y = if desired_y < work.top {
        work.top
    } else if desired_y > work.bottom - height {
        work.bottom - height
    } else {
        desired_y
    };
    Rect { left: x, top: y, right: x + width, bottom: y + height }
}

} // verus!
