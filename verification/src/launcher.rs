//! The launcher window's state and how it answers the user's input.
//!
//! Each handler updates the state and returns the actions that the window
//! must carry out afterwards: repaint, launch an item, show an edit box, ask
//! for a confirmation, and so on. Nothing here touches the window itself.
use crate::config::{
    category_names, Category, CategoryModel, Config, ConfigModel, ItemModel, LaunchItem,
    total_items_upto,
};
use crate::item_view::{
    all_refs, all_refs_upto, category_refs, item_count_spec, lemma_all_refs_len,
    lemma_total_monotone, Scope,
};
use crate::layout::{
    Layout, LayoutInput, LayoutInputModel, Screen, MAX_COUNT, MAX_DPI, MAX_EXTENT,
};
use crate::menu::{MenuEntry, MenuState, MAX_ENTRIES};
use crate::search::ItemRef;
use crate::text::{is_blank, lowercase};
use vstd::string::StringExecFns;
use vstd::prelude::*;

verus! {

/// What the text box of the launcher is currently used for.
#[derive(Clone, Copy, Debug, PartialEq, Eq, Structural)]
pub enum InputMode {
    Search,
    NewCategory,
    RenameCategory(usize),
    RenameItem { category: usize, item: usize },
}

/// Work that the window carries out after a handler returns, in order.
#[derive(Debug)]
pub enum Action {
    /// Repaint the whole window.
    Redraw,
    /// When the window is shown: call `Launcher::hide_window`, carry out
    /// its actions, then fade the window out.
    Hide,
    /// Animate the content area in.
    ContentTransition,
    /// Stop a content animation and repaint at once.
    StopContentTransition,
    /// Write the configuration (debounced).
    Save,
    /// Show the search box with the current query.
    ShowSearchInput,
    /// Show the dialog text box holding the given text.
    ShowDialogInput(String),
    /// Hide the text box.
    HideInput,
    /// Give the keyboard focus to the text box.
    FocusInput,
    /// Warm the icon cache for the first page.
    PreloadIcons,
    /// Open an item.
    Launch(ItemRef),
    /// Open an item with administrator rights.
    RunAsAdmin(ItemRef),
    /// Offer the system's "open with" choice for an item.
    OpenWith(ItemRef),
    /// Put an item's full path on the clipboard.
    CopyPath(ItemRef),
    /// Show an item in the file manager.
    Reveal(ItemRef),
    /// Let the user pick a new icon for an item.
    ChangeIcon(ItemRef),
    /// Let the user pick files (`false`) or folders (`true`) to add.
    ChoosePaths(bool),
    /// Ask whether a category may be deleted.
    ConfirmCategoryDeletion(usize),
    /// Read the dialog text box and pass it to `Launcher::confirm_text_input`.
    ConfirmTextInput,
    /// Read again whether the launcher starts with Windows.
    RefreshStartup,
    /// Switch starting with Windows on or off, then report it back.
    ToggleStartup,
    /// Place the window for showing (centred on the pointer's monitor).
    PositionWindow,
    /// Remember the window's position and size in the configuration.
    StoreWindowPlacement,
    /// Apply the resizable setting to the window frame.
    ApplyResizeStyle,
    /// Try to register this combination as the global hotkey.
    RegisterHotkey(crate::config::HotkeyConfig),
    /// Show the current hotkey in the tray icon's tip.
    UpdateTrayTip,
    /// Tell the user something.
    Info(String),
    /// Report an error to the user.
    Error(String),
}


/// Menu command: open the item.
pub const ITEM_LAUNCH: u32 = 5001;
/// Menu command: open the item as administrator.
pub const ITEM_RUN_AS: u32 = 5002;
/// Menu command: choose the program to open the item with.
pub const ITEM_OPEN_WITH: u32 = 5003;
/// Menu command: show the item in the file manager.
pub const ITEM_REVEAL: u32 = 5004;
/// Menu command: copy the item's full path.
pub const ITEM_COPY_PATH: u32 = 5005;
/// Menu command: rename the item.
pub const ITEM_RENAME: u32 = 5006;
/// Menu command: delete the item.
pub const ITEM_DELETE: u32 = 5007;
/// Menu command: add items.
pub const ITEM_NEW: u32 = 5008;
/// Menu command: sort the item's category by name.
pub const ITEM_SORT: u32 = 5009;
/// Menu command: pick a custom icon.
pub const ITEM_CHANGE_ICON: u32 = 5010;
/// Menu command: go back to the default icon.
pub const ITEM_RESET_ICON: u32 = 5011;
/// Menu commands from here on move the item to category `command - ITEM_MOVE_BASE`.
pub const ITEM_MOVE_BASE: u32 = 0x1000_0000;
/// Menu command: create a category.
pub const CATEGORY_NEW: u32 = 5201;
/// Menu commands from here on select category `command - CATEGORY_SELECT_BASE`.
pub const CATEGORY_SELECT_BASE: u32 = 0x2000_0000;
/// Menu commands from here on act on category `(command - CATEGORY_CONTEXT_BASE) / 3`.
pub const CATEGORY_CONTEXT_BASE: u32 = 0x3000_0000;

/// Whether an item reference names an existing item.
pub open spec fn valid_item(c: ConfigModel, r: ItemRef) -> bool {
    r.category < c.categories.len() && r.item < c.categories[r.category as int].items.len()
}

/// The configuration with category `k` replaced by `cat`.
pub open spec fn with_category(c: ConfigModel, k: int, cat: CategoryModel) -> ConfigModel {
    ConfigModel { categories: c.categories.update(k, cat), ..c }
}

/// The configuration with the items of category `k` replaced.
pub open spec fn with_items(c: ConfigModel, k: int, items: Seq<ItemModel>) -> ConfigModel {
    with_category(c, k, CategoryModel { items, ..c.categories[k] })
}

/// The configuration with item `r` replaced by `item`.
pub open spec fn with_item(c: ConfigModel, r: ItemRef, item: ItemModel) -> ConfigModel {
    with_items(c, r.category as int, c.categories[r.category as int].items.update(r.item as int, item))
}

/// The configuration with item `r` removed.
pub open spec fn without_item(c: ConfigModel, r: ItemRef) -> ConfigModel {
    with_items(c, r.category as int, c.categories[r.category as int].items.remove(r.item as int))
}

/// The configuration with item `r` moved to the end of category `dest`.
pub open spec fn moved_item(c: ConfigModel, r: ItemRef, dest: int) -> ConfigModel {
    let item = c.categories[r.category as int].items[r.item as int];
    let c1 = without_item(c, r);
    with_items(c1, dest, c1.categories[dest].items.push(item))
}

/// The state of the launcher window.
pub struct Launcher {
    pub config: Config,
    /// Pixels per inch of the window (at least 96).
    pub dpi: u32,
    /// Client area size in pixels.
    pub width: i32,
    pub height: i32,
    pub layout: Layout,
    pub view: Screen,
    pub search_mode: bool,
    pub query: String,
    pub search_results: Vec<ItemRef>,
    pub selected: Option<usize>,
    pub category_start: usize,
    pub page_offset: usize,
    pub startup_enabled: bool,
    pub hotkey_capture: bool,
    pub add_overlay_open: bool,
    pub modal_open: bool,
    pub hovered_item: Option<usize>,
    pub hovered_tool: Option<crate::layout::ToolButton>,
    pub menu: Option<MenuState>,
    pub scrollbar_hover: bool,
    pub pressed_item: Option<usize>,
    /// The selection was moved with the keyboard, so it is highlighted.
    pub keyboard_selection: bool,
    /// The scrollbar thumb is being dragged.
    pub dragging_scrollbar: bool,
    pub input_mode: Option<InputMode>,
}

/// Names of the categories, in order.
pub open spec fn names_of(c: ConfigModel) -> Seq<Seq<char>> {
    c.categories.map_values(|k: CategoryModel| k.name)
}

/// Where the category tabs start after making sure the active category's
/// tab shows: at the first tab when all tabs fit, at the active category
/// when its tab is not among the visible ones, otherwise unchanged.
pub open spec fn kept_start(m: LayoutInputModel, active: int) -> usize {
    if m.view != Screen::Launcher {
        m.category_start
    } else if !m.category_overflow() {
        0
    } else if exists|k: int| 0 <= k < m.categories().len() && (#[trigger] m.categories()[k]).0 == active {
        m.category_start
    } else {
        active as usize
    }
}

impl Launcher {
    /// The sizes the launcher works within: a client area and DPI that
    /// layout is computed for, between one and `MAX_ENTRIES` categories (so
    /// that a menu can list them all), at
    /// most `MAX_COUNT` items, search results drawn from those items, a
    /// layout that the hit tests can use and a well-formed menu.
    pub open spec fn wf(self) -> bool {
        &&& 0 <= self.width <= MAX_EXTENT
        &&& 0 <= self.height <= MAX_EXTENT
        &&& 96 <= self.dpi <= MAX_DPI
        &&& 1 <= self.config@.categories.len() <= MAX_ENTRIES
        &&& self.config@.total_items() <= MAX_COUNT
        &&& self.search_results@.len() <= self.config@.total_items()
        &&& self.layout.bounded()
        &&& self.page_offset <= MAX_COUNT
        &&& (self.menu matches Some(m) ==> m.wf())
    }

    /// References of the items on show, in order.
    pub open spec fn visible(self) -> Seq<ItemRef> {
        if !self.search_mode {
            category_refs(self.config@, self.config@.active_index())
        } else if is_blank(self.query@) {
            all_refs(self.config@)
        } else {
            self.search_results@
        }
    }

    /// This state is `before` laid out again (see `relayout`): a fresh
    /// layout, the active category's tab in view, the page offset within the
    /// last page, and nothing else changed.
    pub open spec fn relaid_from(self, before: Launcher) -> bool {
        &&& self.layout.is_layout_of(self.layout_model())
        &&& self.category_start == kept_start(before.layout_model(), before.config@.active_index())
        &&& self.page_offset == min_usize(before.page_offset, self.layout.max_page_offset)
        &&& self == Launcher {
            layout: self.layout,
            category_start: self.category_start,
            page_offset: self.page_offset,
            ..before
        }
    }

    /// This state is `before` after `refresh_search`: results recomputed for
    /// its query, the first item on show selected, hover and press cleared,
    /// laid out again.
    pub open spec fn refreshed_from(self, before: Launcher) -> bool {
        &&& before.search_mode && !is_blank(before.query@) ==> crate::search::is_ranking(
            before.config@,
            crate::search::search_key(before.query@),
            self.search_results@,
        ) || crate::search::search_key(before.query@).len() == 0
            && self.search_results@.len() == 0
        &&& !(before.search_mode && !is_blank(before.query@)) ==> self.search_results@.len() == 0
        &&& self.relaid_from(
            Launcher {
                search_results: self.search_results,
                page_offset: 0,
                selected: if self.visible().len() > 0 {
                    Some(0)
                } else {
                    None
                },
                hovered_item: None,
                pressed_item: None,
                keyboard_selection: false,
                ..before
            },
        )
    }

    /// Inputs of the layout for the current state.
    pub open spec fn layout_model(self) -> LayoutInputModel {
        LayoutInputModel {
            width: self.width,
            height: self.height,
            dpi: self.dpi,
            view: self.view,
            category_names: names_of(self.config@),
            category_start: self.category_start,
            search_mode: self.search_mode,
            item_count: self.visible().len() as usize,
        }
    }
}

proof fn lemma_visible_bounded(l: Launcher)
    requires
        l.wf(),
    ensures
        l.visible().len() <= l.config@.total_items(),
{
    let c = l.config@;
    lemma_all_refs_len(c, c.categories.len() as int);
    let k = c.active_index();
    if 0 <= k < c.categories.len() {
        lemma_total_monotone(c.categories, k + 1, c.categories.len() as int);
        lemma_total_monotone(c.categories, k, k + 1);
    }
}

impl Launcher {
    /// A launcher for a configuration, laid out at 96 DPI for the window
    /// size that the configuration stores.
    pub fn new(config: Config) -> (r: Self)
        requires
            1 <= config@.categories.len() <= MAX_ENTRIES,
            config@.total_items() <= MAX_COUNT,
            0 <= config@.window.width <= MAX_EXTENT,
            0 <= config@.window.height <= MAX_EXTENT,
        ensures
            r.wf(),
            r.config@ == config@,
            r.dpi == 96,
            r.width == config@.window.width,
            r.height == config@.window.height,
            r.view == Screen::Launcher,
            !r.search_mode,
            r.query@.len() == 0,
            r.search_results@.len() == 0,
            r.selected is None,
            r.category_start == 0,
            r.page_offset == 0,
            r.menu is None,
            r.input_mode is None,
            !r.add_overlay_open && !r.modal_open && !r.hotkey_capture,
            !r.startup_enabled && !r.scrollbar_hover && !r.keyboard_selection
                && !r.dragging_scrollbar,
            r.hovered_item is None && r.hovered_tool is None && r.pressed_item is None,
            r.layout.is_layout_of(r.layout_model()),
    {
        let width = config.window.width;
        let height = config.window.height;
        let mut r = Launcher {
            config,
            dpi: 96,
            width,
            height,
            layout: Layout::calculate(
                LayoutInput {
                    width: 0,
                    height: 0,
                    dpi: 96,
                    view: Screen::Launcher,
                    category_names: &[],
                    category_start: 0,
                    search_mode: false,
                    item_count: 0,
                },
            ),
            view: Screen::Launcher,
            search_mode: false,
            query: String::new(),
            search_results: Vec::new(),
            selected: None,
            category_start: 0,
            page_offset: 0,
            startup_enabled: false,
            hotkey_capture: false,
            add_overlay_open: false,
            modal_open: false,
            hovered_item: None,
            hovered_tool: None,
            menu: None,
            scrollbar_hover: false,
            pressed_item: None,
            keyboard_selection: false,
            dragging_scrollbar: false,
            input_mode: None,
        };
        r.layout = r.compute_layout();
        r
    }

    /// The items on show.
    pub fn scope(&self) -> (r: Scope<'_>)
        ensures
            r.refs(self.config@) == self.visible(),
    {
        proof {
            crate::config::lemma_active_index(self.config@);
        }
        let r = Scope::new(
            &self.config,
            self.search_mode,
            self.query.as_str(),
            self.search_results.as_slice(),
        );
        proof {
            assert(self.config@.categories.len() == self.config.categories.len());
            if !self.search_mode {
                assert(r.refs(self.config@) == self.visible());
            } else if is_blank(self.query@) {
                assert(r.refs(self.config@) == self.visible());
            } else {
                assert(r.refs(self.config@) == self.visible());
            }
        }
        r
    }

    /// Number of items on show.
    pub fn visible_count(&self) -> (r: usize)
        requires
            self.wf(),
        ensures
            r == self.visible().len(),
            r <= MAX_COUNT,
    {
        proof {
            lemma_visible_bounded(*self);
        }
        self.scope().len(&self.config)
    }

    /// Reference of the item on show at `index`.
    pub fn visible_ref(&self, index: usize) -> (r: Option<ItemRef>)
        ensures
            r == (if index < self.visible().len() {
                Some(self.visible()[index as int])
            } else {
                None
            }),
    {
        self.scope().get(&self.config, index)
    }

    /// The layout of the current state.
    fn compute_layout(&self) -> (r: Layout)
        requires
            0 <= self.width <= MAX_EXTENT,
            0 <= self.height <= MAX_EXTENT,
            96 <= self.dpi <= MAX_DPI,
            1 <= self.config@.categories.len() <= MAX_COUNT,
            self.config@.total_items() <= MAX_COUNT,
            self.search_results@.len() <= self.config@.total_items(),
        ensures
            r.is_layout_of(self.layout_model()),
            r.bounded(),
    {
        let names = category_names(&self.config);
        let count = self.scope().len(&self.config);
        proof {
            lemma_all_refs_len(self.config@, self.config@.categories.len() as int);
            let c = self.config@;
            let k = c.active_index();
            if 0 <= k < c.categories.len() {
                lemma_total_monotone(c.categories, k + 1, c.categories.len() as int);
                lemma_total_monotone(c.categories, k, k + 1);
            }
        }
        let input = LayoutInput {
            width: self.width,
            height: self.height,
            dpi: self.dpi,
            view: self.view,
            category_names: names.as_slice(),
            category_start: self.category_start,
            search_mode: self.search_mode,
            item_count: count,
        };
        proof {
            assert(input@.category_names =~= names_of(self.config@));
            assert(input@ == self.layout_model());
        }
        Layout::calculate(input)
    }
}


/// What `select_category` does: state `b` and actions `r` after making
/// category `category` active in state `a`.
#[verifier::opaque]
pub open spec fn category_selected(
    a: Launcher,
    b: Launcher,
    category: usize,
    explicit: bool,
    r: Seq<Action>,
) -> bool {
    &&& b.config@ == (ConfigModel {
        active_category: a.config@.categories[category as int].id,
        ..a.config@
    })
    &&& b.query@.len() == 0
    &&& b.search_results@.len() == 0
    &&& b.relaid_from(
        Launcher {
            config: b.config,
            view: Screen::Launcher,
            search_mode: false,
            query: b.query,
            search_results: b.search_results,
            input_mode: if a.input_mode == Some(InputMode::Search) {
                None
            } else {
                a.input_mode
            },
            selected: None,
            hovered_item: None,
            hovered_tool: None,
            pressed_item: None,
            keyboard_selection: false,
            page_offset: 0,
            ..a
        },
    )
    &&& r == (if a.input_mode == Some(InputMode::Search) {
        seq![Action::HideInput]
    } else {
        seq![]
    }) + seq![
        Action::Save,
        Action::PreloadIcons,
        if explicit {
            Action::ContentTransition
        } else {
            Action::StopContentTransition
        },
    ]
}

/// What `open_text_input` does: state `b` and actions `r` after opening the
/// dialog text box for `mode` holding `value` in state `a`.
#[verifier::opaque]
pub open spec fn text_input_opened(
    a: Launcher,
    b: Launcher,
    mode: InputMode,
    value: Seq<char>,
    r: Seq<Action>,
) -> bool {
    &&& b.relaid_from(Launcher { add_overlay_open: false, input_mode: Some(mode), ..a })
    &&& r.len() == 3
    &&& r[0] is ContentTransition
    &&& (r[1] matches Action::ShowDialogInput(t) && t@ == value)
    &&& r[2] is Redraw
}

/// The smaller of two offsets.
pub open spec fn min_usize(a: usize, b: usize) -> usize {
    if a < b {
        a
    } else {
        b
    }
}

/// Page offset that keeps `index` on a page of `capacity` items starting at
/// `offset`: the page moves just far enough.
pub open spec fn offset_showing(offset: usize, index: int, capacity: usize) -> usize {
    if index < offset {
        index as usize
    } else if index >= offset + capacity {
        (index + 1 - capacity) as usize
    } else {
        offset
    }
}

/// `v` clamped into `[low, high]`.
pub open spec fn clamp_to(v: int, low: int, high: int) -> int {
    if v < low {
        low
    } else if v > high {
        high
    } else {
        v
    }
}

impl Launcher {
    /// Recomputes the layout for the current window size and state, moves the
    /// category tabs so that the active category shows, and keeps the page
    /// offset within the last page.
    #[verifier::spinoff_prover]
    #[verifier::rlimit(40)]
    pub fn relayout(&mut self)
        requires
            old(self).wf(),
        ensures
            final(self).wf(),
            final(self).relaid_from(*old(self)),
    {
        self.layout = self.compute_layout();
        let previous = self.category_start;
        self.keep_active_category_visible();
        if self.category_start != previous {
            self.layout = self.compute_layout();
        }
        self.clamp_page();
    }

    /// Keeps the page offset within the last page.
    pub(crate) fn clamp_page(&mut self)
        ensures
            *final(self) == (Launcher {
                page_offset: min_usize(old(self).page_offset, old(self).layout.max_page_offset),
                ..*old(self)
            }),
    {
        if self.page_offset > self.layout.max_page_offset {
            self.page_offset = self.layout.max_page_offset;
        }
    }

    /// Moves the category tabs so that the active category's tab shows.
    fn keep_active_category_visible(&mut self)
        requires
            old(self).layout.is_layout_of(old(self).layout_model()),
        ensures
            *final(self) == (Launcher {
                category_start: kept_start(
                    old(self).layout_model(),
                    old(self).config@.active_index(),
                ),
                ..*old(self)
            }),
    {
        proof {
            reveal(Layout::is_layout_of);
        }
        if self.view != Screen::Launcher {
            return ;
        }
        if !self.layout.category_overflow {
            self.category_start = 0;
            return ;
        }
        let active = self.config.active_category_index();
        proof {
            crate::config::lemma_active_index(self.config@);
        }
        if !tab_shows(&self.layout.categories, active) {
            self.category_start = active;
        }
    }


    /// Moves the keyboard selection by `delta` items, stopping at the first
    /// and last item, and scrolls just far enough for it to show. Without a
    /// selection it moves from the first item; with no items it clears it.
    pub fn move_selection(&mut self, delta: isize) -> (r: Vec<Action>)
        requires
            old(self).wf(),
        ensures
            final(self).wf(),
            old(self).view != Screen::Launcher ==> *final(self) == *old(self) && r@.len() == 0,
            old(self).view == Screen::Launcher && old(self).visible().len() == 0 ==> *final(self)
                == (Launcher { selected: None, ..*old(self) }) && r@.len() == 0,
            old(self).view == Screen::Launcher && old(self).visible().len() > 0 ==> {
                let current = match old(self).selected {
                    Some(s) => s as int,
                    None => 0,
                };
                let s = clamp_to(current + delta, 0, old(self).visible().len() - 1);
                &&& *final(self) == (Launcher {
                    selected: Some(s as usize),
                    keyboard_selection: true,
                    page_offset: offset_showing(
                        old(self).page_offset,
                        s,
                        old(self).layout.visible_capacity,
                    ),
                    ..*old(self)
                })
                &&& r@ == seq![Action::Redraw]
            },
    {
        if self.view != Screen::Launcher {
            return Vec::new();
        }
        let count = self.visible_count();
        if count == 0 {
            self.selected = None;
            return Vec::new();
        }
        let selected = clamped_index(self.selected, delta, count);
        self.selected = Some(selected);
        self.keyboard_selection = true;
        self.page_offset = page_showing(self.page_offset, selected, self.layout.visible_capacity);
        let mut r = Vec::new();
        r.push(Action::Redraw);
        r
    }

    /// Scrolls by one row of items per wheel notch (down for a negative
    /// delta); with a menu open, scrolls the menu instead.
    pub fn wheel(&mut self, delta: i32) -> (r: Vec<Action>)
        requires
            old(self).wf(),
        ensures
            final(self).wf(),
            old(self).menu matches Some(m) ==> *final(self) == (Launcher {
                menu: Some(m.scrolled(if delta < 0 { 1i32 } else { -1i32 })),
                ..*old(self)
            }) && r@ == seq![Action::Redraw],
            old(self).menu is None && (old(self).view != Screen::Launcher
                || old(self).layout.max_page_offset == 0) ==> *final(self) == *old(self)
                && r@.len() == 0,
            old(self).menu is None && old(self).view == Screen::Launcher
                && old(self).layout.max_page_offset != 0 ==> {
                let step = if old(self).layout.columns > 1 { old(self).layout.columns as int } else { 1 };
                let max = old(self).layout.max_page_offset as int;
                let offset = old(self).page_offset as int;
                &&& *final(self) == (Launcher {
                    page_offset: (if delta < 0 {
                        if offset + step < max { offset + step } else { max }
                    } else {
                        if offset - step > 0 {
                            if offset - step < max { offset - step } else { max }
                        } else {
                            0
                        }
                    }) as usize,
                    ..*old(self)
                })
                &&& r@ == seq![Action::Redraw]
            },
    {
        if self.menu.is_some() {
            let mut menu = self.menu.take().unwrap();
            menu.scroll(
                if delta < 0 {
                    1
                } else {
                    -1
                },
            );
            self.menu = Some(menu);
            let mut r = Vec::new();
            r.push(Action::Redraw);
            return r;
        }
        if self.view != Screen::Launcher || self.layout.max_page_offset == 0 {
            return Vec::new();
        }
        let step = if self.layout.columns > 1 {
            self.layout.columns
        } else {
            1
        };
        let max = self.layout.max_page_offset;
        if delta < 0 {
            self.page_offset = if self.page_offset >= max || step >= max - self.page_offset {
                max
            } else {
                self.page_offset + step
            };
        } else {
            self.page_offset = if self.page_offset > step {
                self.page_offset - step
            } else {
                0
            };
        }
        self.clamp_page();
        let mut r = Vec::new();
        r.push(Action::Redraw);
        r
    }
}


/// Whether some tab is the one of category `index`.
fn tab_shows(tabs: &Vec<(usize, crate::layout::Rect)>, index: usize) -> (r: bool)
    ensures
        r == exists|k: int| 0 <= k < tabs@.len() && (#[trigger] tabs@[k]).0 == index,
{
    let mut k: usize = 0;
    while k < tabs.len()
        invariant
            k <= tabs@.len(),
            forall|j: int| 0 <= j < k ==> (#[trigger] tabs@[j]).0 != index,
        decreases tabs@.len() - k,
    {
        if tabs[k].0 == index {
            assert(tabs@[k as int].0 == index);
            return true;
        }
        k += 1;
    }
    false
}

/// The selection moved by `delta` from `current` (or from the first item)
/// and kept among `count` items.
fn clamped_index(current: Option<usize>, delta: isize, count: usize) -> (r: usize)
    requires
        count > 0,
    ensures
        r == clamp_to(
            match current {
                Some(s) => s as int,
                None => 0,
            } + delta,
            0,
            count - 1,
        ),
{
    let from: i128 = match current {
        Some(s) => s as i128,
        None => 0,
    };
    let wanted: i128 = from + delta as i128;
    let last: i128 = (count - 1) as i128;
    if wanted < 0 {
        0
    } else if wanted > last {
        count - 1
    } else {
        wanted as usize
    }
}

/// Exec `offset_showing`.
fn page_showing(offset: usize, index: usize, capacity: usize) -> (r: usize)
    requires
        offset <= MAX_COUNT,
        index <= MAX_COUNT,
        capacity <= 25_000_000,
    ensures
        r == offset_showing(offset, index as int, capacity),
{
    if index < offset {
        index
    } else if index >= offset + capacity {
        index + 1 - capacity
    } else {
        offset
    }
}


impl Launcher {
    /// Recomputes the search results for the query (none outside search or
    /// for a blank query), selects the first item on show, clears hover and
    /// press, and lays the window out again.
    #[verifier::spinoff_prover]
    #[verifier::rlimit(40)]
    pub fn refresh_search(&mut self) -> (r: Vec<Action>)
        requires
            old(self).wf(),
        ensures
            final(self).wf(),
            final(self).refreshed_from(*old(self)),
            r@ == seq![Action::Redraw],
    {
        let blank = crate::text::is_blank_str(self.query.as_str());
        self.search_results = if self.search_mode && !blank {
            crate::search::results(&self.config, self.query.as_str())
        } else {
            Vec::new()
        };
        self.page_offset = 0;
        self.selected = if self.visible_count() > 0 {
            Some(0)
        } else {
            None
        };
        self.hovered_item = None;
        self.pressed_item = None;
        self.keyboard_selection = false;
        self.relayout();
        let mut r = Vec::new();
        r.push(Action::Redraw);
        r
    }

    /// Leaves search: clears the query and results and lays out again.
    /// Nothing happens outside search.
    #[verifier::spinoff_prover]
    #[verifier::rlimit(40)]
    fn reset_search_state(&mut self) -> (r: Vec<Action>)
        requires
            old(self).wf(),
        ensures
            final(self).wf(),
            !old(self).search_mode ==> *final(self) == *old(self) && r@.len() == 0,
            old(self).search_mode ==> final(self).query@.len() == 0
                && final(self).search_results@.len() == 0 && final(self).relaid_from(
                Launcher {
                    search_mode: false,
                    query: final(self).query,
                    search_results: final(self).search_results,
                    page_offset: 0,
                    input_mode: if old(self).input_mode == Some(InputMode::Search) {
                        None
                    } else {
                        old(self).input_mode
                    },
                    selected: None,
                    ..*old(self)
                },
            ) && r@ == seq![Action::HideInput],
    {
        if !self.search_mode {
            return Vec::new();
        }
        self.search_mode = false;
        self.query = String::new();
        self.search_results = Vec::new();
        self.page_offset = 0;
        if self.input_mode == Some(InputMode::Search) {
            self.input_mode = None;
        }
        self.selected = None;
        self.relayout();
        let mut r = Vec::new();
        r.push(Action::HideInput);
        r
    }

    /// Prepares hiding the window: closes the menu and leaves search. The
    /// window carries this out when `Action::Hide` asks for it and the window
    /// is shown.
    #[verifier::spinoff_prover]
    #[verifier::rlimit(40)]
    pub fn hide_window(&mut self) -> (r: Vec<Action>)
        requires
            old(self).wf(),
        ensures
            final(self).wf(),
            final(self).menu is None,
            !final(self).modal_open,
            !final(self).search_mode,
            !old(self).search_mode ==> *final(self) == (Launcher {
                menu: None,
                modal_open: false,
                ..*old(self)
            }) && r@.len() == 0,
            old(self).search_mode ==> final(self).query@.len() == 0 && final(self).relaid_from(
                Launcher {
                    menu: None,
                    modal_open: false,
                    search_mode: false,
                    query: final(self).query,
                    search_results: final(self).search_results,
                    page_offset: 0,
                    input_mode: if old(self).input_mode == Some(InputMode::Search) {
                        None
                    } else {
                        old(self).input_mode
                    },
                    selected: None,
                    ..*old(self)
                },
            ) && r@ == seq![Action::HideInput],
    {
        self.menu = None;
        self.modal_open = false;
        self.reset_search_state()
    }

    /// Makes category `category` the active one and shows it from its first
    /// item. Switching by hovering a tab happens at once; an explicit switch
    /// animates the content in.
    #[verifier::rlimit(40)]
    #[verifier::spinoff_prover]
    pub fn select_category(&mut self, category: usize, explicit: bool) -> (r: Vec<Action>)
        requires
            old(self).wf(),
            category < old(self).config@.categories.len(),
        ensures
            final(self).wf(),
            category_selected(*old(self), *final(self), category, explicit, r@),
    {
        proof {
            reveal(category_selected);
        }
        let mut r = Vec::new();
        self.view = Screen::Launcher;
        self.search_mode = false;
        self.query = String::new();
        self.search_results = Vec::new();
        if self.input_mode == Some(InputMode::Search) {
            self.input_mode = None;
            r.push(Action::HideInput);
        }
        self.selected = None;
        self.hovered_item = None;
        self.hovered_tool = None;
        self.pressed_item = None;
        self.keyboard_selection = false;
        self.page_offset = 0;
        let id = self.config.categories[category].id.clone();
        self.config.active_category = id;
        proof {
            assert(self.config@.categories == old(self).config@.categories);
            assert(self.config@ == (ConfigModel {
                active_category: old(self).config@.categories[category as int].id,
                ..old(self).config@
            }));
        }
        r.push(Action::Save);
        self.relayout();
        r.push(Action::PreloadIcons);
        if explicit {
            r.push(Action::ContentTransition);
        } else {
            r.push(Action::StopContentTransition);
        }
        proof {
            assert(r@ =~= (if old(self).input_mode == Some(InputMode::Search) {
                seq![Action::HideInput]
            } else {
                seq![]
            }) + seq![
                Action::Save,
                Action::PreloadIcons,
                if explicit {
                    Action::ContentTransition
                } else {
                    Action::StopContentTransition
                },
            ]);
        }
        r
    }
}


/// An empty category, used as a placeholder while one is edited.
fn placeholder() -> (r: Category)
    ensures
        r@ == (CategoryModel { id: seq![], name: seq![], items: seq![] }),
{
    let r = Category { id: String::new(), name: String::new(), items: Vec::new() };
    assert(r@.id =~= seq![]);
    assert(r@.name =~= seq![]);
    assert(r@.items =~= seq![]);
    r
}

impl Launcher {
    /// Removes item `r` from the configuration and returns it.
    fn take_item(&mut self, r: ItemRef) -> (item: LaunchItem)
        requires
            valid_item(old(self).config@, r),
        ensures
            item@ == old(self).config@.categories[r.category as int].items[r.item as int],
            final(self).config@ == without_item(old(self).config@, r),
            *final(self) == (Launcher { config: final(self).config, ..*old(self) }),
    {
        let mut cat = self.config.replace_category(r.category, placeholder());
        let ghost before = cat@;
        let item = cat.items.remove(r.item);
        proof {
            assert(cat@.items =~= before.items.remove(r.item as int));
            assert(cat@ == CategoryModel { items: before.items.remove(r.item as int), ..before });
        }
        let _ = self.config.replace_category(r.category, cat);
        proof {
            assert(self.config@.categories =~= old(self).config@.categories.update(
                r.category as int,
                cat@,
            ));
        }
        item
    }

    /// Appends an item to category `k`.
    fn append_item(&mut self, k: usize, item: LaunchItem)
        requires
            k < old(self).config@.categories.len(),
        ensures
            final(self).config@ == with_items(
                old(self).config@,
                k as int,
                old(self).config@.categories[k as int].items.push(item@),
            ),
            *final(self) == (Launcher { config: final(self).config, ..*old(self) }),
    {
        let mut cat = self.config.replace_category(k, placeholder());
        let ghost before = cat@;
        cat.items.push(item);
        proof {
            assert(cat@.items =~= before.items.push(item@));
            assert(cat@ == CategoryModel { items: before.items.push(item@), ..before });
        }
        let _ = self.config.replace_category(k, cat);
        proof {
            assert(self.config@.categories =~= old(self).config@.categories.update(k as int, cat@));
        }
    }

    /// Replaces item `r` by `item`.
    fn put_item(&mut self, r: ItemRef, item: LaunchItem)
        requires
            valid_item(old(self).config@, r),
        ensures
            final(self).config@ == with_item(old(self).config@, r, item@),
            *final(self) == (Launcher { config: final(self).config, ..*old(self) }),
    {
        let mut cat = self.config.replace_category(r.category, placeholder());
        let ghost before = cat@;
        let mut slot = item;
        cat.items.set_and_swap(r.item, &mut slot);
        proof {
            assert(cat@.items =~= before.items.update(r.item as int, item@));
            assert(cat@ == CategoryModel { items: before.items.update(r.item as int, item@), ..before });
        }
        let _ = self.config.replace_category(r.category, cat);
        proof {
            assert(self.config@.categories =~= old(self).config@.categories.update(
                r.category as int,
                cat@,
            ));
        }
    }

    /// A copy of item `r`.
    pub(crate) fn item_copy(&self, r: ItemRef) -> (item: LaunchItem)
        requires
            valid_item(self.config@, r),
        ensures
            item@ == self.config@.categories[r.category as int].items[r.item as int],
    {
        let source = &self.config.categories[r.category].items[r.item];
        proof {
            assert(self.config@.categories[r.category as int] == self.config.categories@[r.category as int]@);
        }
        LaunchItem {
            id: source.id.clone(),
            name: source.name.clone(),
            path: source.path.clone(),
            icon_path: source.icon_path.clone(),
            arguments: source.arguments.clone(),
            working_directory: source.working_directory.clone(),
        }
    }
}

proof fn lemma_without_item_total(c: ConfigModel, r: ItemRef)
    requires
        valid_item(c, r),
    ensures
        without_item(c, r).total_items() == c.total_items() - 1,
        without_item(c, r).categories.len() == c.categories.len(),
{
    let k = r.category as int;
    let cat = CategoryModel { items: c.categories[k].items.remove(r.item as int), ..c.categories[k] };
    crate::config::lemma_total_update(c.categories, k, cat, c.categories.len() as int);
}

proof fn lemma_with_items_total(c: ConfigModel, k: int, items: Seq<ItemModel>)
    requires
        0 <= k < c.categories.len(),
    ensures
        with_items(c, k, items).total_items() == c.total_items() - c.categories[k].items.len()
            + items.len(),
        with_items(c, k, items).categories.len() == c.categories.len(),
{
    let cat = CategoryModel { items, ..c.categories[k] };
    crate::config::lemma_total_update(c.categories, k, cat, c.categories.len() as int);
}

/// What `execute_item_command` does: state `b` and actions `r` after running
/// `command` on item `reference` in state `a`.
#[verifier::opaque]
pub open spec fn item_command_effect(
    a: Launcher,
    b: Launcher,
    reference: ItemRef,
    command: u32,
    r: Seq<Action>,
) -> bool {
    let item = a.config@.categories[reference.category as int].items[reference.item as int];
    if command == ITEM_LAUNCH {
        b == a && r == seq![Action::Launch(reference)]
    } else if command == ITEM_RUN_AS {
        b == a && r == seq![Action::RunAsAdmin(reference)]
    } else if command == ITEM_OPEN_WITH {
        b == a && r == seq![Action::OpenWith(reference)]
    } else if command == ITEM_COPY_PATH {
        b == a && r == seq![Action::CopyPath(reference)]
    } else if command == ITEM_REVEAL {
        b == a && r == seq![Action::Reveal(reference)]
    } else if command == ITEM_CHANGE_ICON {
        b == a && r == seq![Action::ChangeIcon(reference)]
    } else if command == ITEM_RESET_ICON {
        if item.icon_path.len() == 0 {
            b == a && r.len() == 0
        } else {
            &&& b.config@ == with_item(a.config@, reference, ItemModel { icon_path: seq![], ..item })
            &&& b == (Launcher { config: b.config, ..a })
            &&& r == seq![Action::Save, Action::PreloadIcons, Action::Redraw]
        }
    } else if command == ITEM_RENAME {
        text_input_opened(
            a,
            b,
            InputMode::RenameItem { category: reference.category, item: reference.item },
            item.name,
            r,
        )
    } else if command == ITEM_DELETE {
        &&& b.config@ == without_item(a.config@, reference)
        &&& b.refreshed_from(Launcher { config: b.config, selected: None, ..a })
        &&& r == seq![Action::Redraw, Action::Save]
    } else if command == ITEM_NEW {
        b == (Launcher { add_overlay_open: true, ..a }) && r == seq![Action::ContentTransition]
    } else if command == ITEM_SORT {
        &&& crate::sort::sorted_by_name(
            b.config@.categories[reference.category as int].items,
            a.config@.categories[reference.category as int].items,
        )
        &&& b.config@ == with_items(
            a.config@,
            reference.category as int,
            b.config@.categories[reference.category as int].items,
        )
        &&& b == (Launcher { config: b.config, selected: None, ..a })
        &&& r == seq![Action::Save, Action::ContentTransition]
    } else if command >= ITEM_MOVE_BASE {
        let dest = command - ITEM_MOVE_BASE;
        if dest < a.config@.categories.len() && dest != reference.category {
            &&& b.config@ == moved_item(a.config@, reference, dest)
            &&& b.refreshed_from(Launcher { config: b.config, selected: None, ..a })
            &&& r == seq![Action::Save, Action::Redraw]
        } else {
            b == a && r.len() == 0
        }
    } else {
        b == a && r.len() == 0
    }
}

impl Launcher {
    /// Opens the dialog text box for `mode`, holding `value`.
    fn open_text_input(&mut self, mode: InputMode, value: String) -> (r: Vec<Action>)
        requires
            old(self).wf(),
        ensures
            final(self).wf(),
            text_input_opened(*old(self), *final(self), mode, value@, r@),
    {
        proof {
            reveal(text_input_opened);
        }
        self.add_overlay_open = false;
        self.input_mode = Some(mode);
        self.relayout();
        let mut r = Vec::new();
        r.push(Action::ContentTransition);
        r.push(Action::ShowDialogInput(value));
        r.push(Action::Redraw);
        r
    }

    /// Closes the dialog text box without applying it.
    pub fn cancel_text_input(&mut self) -> (r: Vec<Action>)
        requires
            old(self).wf(),
        ensures
            final(self).wf(),
            text_input_cancelled(*old(self), *final(self), r@),

    {
        proof {
            reveal(text_input_cancelled);
        }
        self.input_mode = None;
        self.relayout();
        let mut r = Vec::new();
        r.push(Action::HideInput);
        r.push(Action::Redraw);
        r
    }

    /// Runs a command of an item's context menu on item `reference`.
    #[verifier::spinoff_prover]
    #[verifier::rlimit(100)]
    pub fn execute_item_command(&mut self, reference: ItemRef, command: u32) -> (r: Vec<Action>)
        requires
            old(self).wf(),
            valid_item(old(self).config@, reference) || command == ITEM_NEW,
        ensures
            final(self).wf(),
            item_command_effect(*old(self), *final(self), reference, command, r@),

    {
        proof {
            reveal(item_command_effect);
        }
        let mut r: Vec<Action> = Vec::new();
        if command == ITEM_LAUNCH {
            r.push(Action::Launch(reference));
            assert(item_command_effect(*old(self), *self, reference, command, r@));
        } else if command == ITEM_RUN_AS {
            r.push(Action::RunAsAdmin(reference));
            assert(item_command_effect(*old(self), *self, reference, command, r@));
        } else if command == ITEM_OPEN_WITH {
            r.push(Action::OpenWith(reference));
            assert(item_command_effect(*old(self), *self, reference, command, r@));
        } else if command == ITEM_COPY_PATH {
            r.push(Action::CopyPath(reference));
            assert(item_command_effect(*old(self), *self, reference, command, r@));
        } else if command == ITEM_REVEAL {
            r.push(Action::Reveal(reference));
            assert(item_command_effect(*old(self), *self, reference, command, r@));
        } else if command == ITEM_CHANGE_ICON {
            r.push(Action::ChangeIcon(reference));
            assert(item_command_effect(*old(self), *self, reference, command, r@));
        } else if command == ITEM_RESET_ICON {
            r = self.reset_icon(reference);
            assert(item_command_effect(*old(self), *self, reference, command, r@));
        } else if command == ITEM_RENAME {
            let item = self.item_copy(reference);
            r = self.open_text_input(
                InputMode::RenameItem { category: reference.category, item: reference.item },
                item.name,
            );
            assert(item_command_effect(*old(self), *self, reference, command, r@));
        } else if command == ITEM_DELETE {
            r = self.delete_item(reference);
            assert(item_command_effect(*old(self), *self, reference, command, r@));
        } else if command == ITEM_NEW {
            self.add_overlay_open = true;
            r.push(Action::ContentTransition);
            assert(item_command_effect(*old(self), *self, reference, command, r@));
        } else if command == ITEM_SORT {
            self.sort_category(reference.category);
            let ghost mid = *self;
            self.selected = None;
            r.push(Action::Save);
            r.push(Action::ContentTransition);
            assert(*self == (Launcher { config: self.config, selected: None, ..*old(self) }));
            assert(self.config@ == mid.config@);
            assert(r@ == seq![Action::Save, Action::ContentTransition]);
            assert(item_command_effect(*old(self), *self, reference, command, r@));
        } else if command >= ITEM_MOVE_BASE {
            let dest = (command - ITEM_MOVE_BASE) as usize;
            if dest < self.config.categories.len() && dest != reference.category {
                r = self.move_item(reference, dest);
            }
        }
        r
    }
}


impl Launcher {
    /// Clears a custom icon; nothing happens when the item has none.
    #[verifier::spinoff_prover]
    #[verifier::rlimit(40)]
    fn reset_icon(&mut self, reference: ItemRef) -> (r: Vec<Action>)
        requires
            old(self).wf(),
            valid_item(old(self).config@, reference),
        ensures
            final(self).wf(),
            ({
                let item = old(self).config@.categories[reference.category as int].items[reference.item as int];
                if item.icon_path.len() == 0 {
                    *final(self) == *old(self) && r@.len() == 0
                } else {
                    &&& final(self).config@ == with_item(
                        old(self).config@,
                        reference,
                        ItemModel { icon_path: seq![], ..item },
                    )
                    &&& *final(self) == (Launcher { config: final(self).config, ..*old(self) })
                    &&& r@ == seq![Action::Save, Action::PreloadIcons, Action::Redraw]
                }
            }),
    {
        let mut r: Vec<Action> = Vec::new();
        let mut item = self.item_copy(reference);
        if !item.icon_path.as_str().is_empty() {
            proof {
                lemma_with_items_total(
                    self.config@,
                    reference.category as int,
                    self.config@.categories[reference.category as int].items.update(
                        reference.item as int,
                        ItemModel { icon_path: seq![], ..item@ },
                    ),
                );
            }
            item.icon_path = String::new();
            self.put_item(reference, item);
            r.push(Action::Save);
            r.push(Action::PreloadIcons);
            r.push(Action::Redraw);
        }
        r
    }

    /// Deletes an item and refreshes what is on show.
    #[verifier::spinoff_prover]
    #[verifier::rlimit(40)]
    fn delete_item(&mut self, reference: ItemRef) -> (r: Vec<Action>)
        requires
            old(self).wf(),
            valid_item(old(self).config@, reference),
        ensures
            final(self).wf(),
            final(self).config@ == without_item(old(self).config@, reference),
            final(self).refreshed_from(
                Launcher { config: final(self).config, selected: None, ..*old(self) },
            ),
            r@ == seq![Action::Redraw, Action::Save],
    {
        proof {
            lemma_without_item_total(self.config@, reference);
        }
        let _ = self.take_item(reference);
        self.selected = None;
        self.search_results = Vec::new();
        let mut r = self.refresh_search();
        r.push(Action::Save);
        r
    }

    /// Sorts the items of a category by name.
    #[verifier::spinoff_prover]
    #[verifier::rlimit(40)]
    fn sort_category(&mut self, category: usize)
        requires
            old(self).wf(),
            category < old(self).config@.categories.len(),
        ensures
            final(self).wf(),
            crate::sort::sorted_by_name(
                final(self).config@.categories[category as int].items,
                old(self).config@.categories[category as int].items,
            ),
            final(self).config@ == with_items(
                old(self).config@,
                category as int,
                final(self).config@.categories[category as int].items,
            ),
            *final(self) == (Launcher { config: final(self).config, ..*old(self) }),
    {
        let mut cat = self.config.replace_category(category, placeholder());
        let ghost before = cat@;
        crate::sort::sort_by_name(&mut cat.items);
        proof {
            lemma_sorted_len(cat@.items, before.items);
            lemma_with_items_total(old(self).config@, category as int, cat@.items);
            assert(cat@ == CategoryModel { items: cat@.items, ..before });
        }
        let _ = self.config.replace_category(category, cat);
        proof {
            assert(self.config@.categories =~= old(self).config@.categories.update(
                category as int,
                cat@,
            ));
        }
    }

    /// Moves an item to the end of another category and refreshes what is on show.
    #[verifier::spinoff_prover]
    #[verifier::rlimit(40)]
    fn move_item(&mut self, reference: ItemRef, dest: usize) -> (r: Vec<Action>)
        requires
            old(self).wf(),
            valid_item(old(self).config@, reference),
            dest < old(self).config@.categories.len(),
            dest != reference.category,
        ensures
            final(self).wf(),
            final(self).config@ == moved_item(old(self).config@, reference, dest as int),
            final(self).refreshed_from(
                Launcher { config: final(self).config, selected: None, ..*old(self) },
            ),
            r@ == seq![Action::Save, Action::Redraw],
    {
        proof {
            lemma_without_item_total(self.config@, reference);
            let c1 = without_item(self.config@, reference);
            lemma_with_items_total(
                c1,
                dest as int,
                c1.categories[dest as int].items.push(
                    self.config@.categories[reference.category as int].items[reference.item as int],
                ),
            );
        }
        let item = self.take_item(reference);
        self.append_item(dest, item);
        self.selected = None;
        self.search_results = Vec::new();
        let mut r: Vec<Action> = Vec::new();
        r.push(Action::Save);
        let mut more = self.refresh_search();
        r.append(&mut more);
        r
    }
}


/// The item that Enter opens: the selected item on show, when it exists.
pub open spec fn selected_target(l: Launcher) -> Option<ItemRef> {
    match l.selected {
        Some(i) => if i < l.visible().len() && valid_item(l.config@, l.visible()[i as int]) {
            Some(l.visible()[i as int])
        } else {
            None
        },
        None => None,
    }
}

impl Launcher {
    /// Whether an item reference names an existing item.
    pub(crate) fn is_valid_item(&self, r: ItemRef) -> (b: bool)
        ensures
            b == valid_item(self.config@, r),
    {
        r.category < self.config.categories.len() && r.item
            < self.config.categories[r.category].items.len()
    }

    /// The selected item on show, when it exists.
    pub(crate) fn selected_item(&self) -> (r: Option<ItemRef>)
        ensures
            r == selected_target(*self),
    {
        match self.selected {
            Some(i) => match self.visible_ref(i) {
                Some(reference) => if self.is_valid_item(reference) {
                    Some(reference)
                } else {
                    None
                },
                None => None,
            },
            None => None,
        }
    }

    /// Opens the selected item.
    pub fn run_selected(&self) -> (r: Vec<Action>)
        ensures
            r@ == (match selected_target(*self) {
                Some(t) => seq![Action::Launch(t)],
                None => seq![],
            }),
    {
        let mut r = Vec::new();
        if let Some(reference) = self.selected_item() {
            r.push(Action::Launch(reference));
        }
        r
    }

    /// Deletes the selected item.
    pub fn delete_selected(&mut self) -> (r: Vec<Action>)
        requires
            old(self).wf(),
        ensures
            final(self).wf(),
            match selected_target(*old(self)) {
                None => *final(self) == *old(self) && r@.len() == 0,
                Some(t) => final(self).config@ == without_item(old(self).config@, t)
                    && final(self).refreshed_from(
                    Launcher { config: final(self).config, selected: None, ..*old(self) },
                ) && r@ == seq![Action::Redraw, Action::Save],
            },
    {
        match self.selected_item() {
            Some(reference) => self.delete_item(reference),
            None => Vec::new(),
        }
    }

    /// Appends a category named `name` with a fresh id and makes it active;
    /// the tabs and the page start over.
    #[verifier::spinoff_prover]
    #[verifier::rlimit(40)]
    fn add_category(&mut self, name: String)
        requires
            old(self).wf(),
            old(self).config@.categories.len() < MAX_ENTRIES,
        ensures
            final(self).wf(),
            crate::config::fresh_category_id(
                old(self).config@.categories,
                name@,
                final(self).config@.active_category,
            ),
            final(self).config@ == (ConfigModel {
                categories: old(self).config@.categories.push(
                    CategoryModel {
                        id: final(self).config@.active_category,
                        name: name@,
                        items: seq![],
                    },
                ),
                active_category: final(self).config@.active_category,
                ..old(self).config@
            }),
            *final(self) == (Launcher {
                config: final(self).config,
                category_start: 0,
                page_offset: 0,
                ..*old(self)
            }),
    {
        let id = self.config.unique_category_id(name.as_str());
        let category = Category::new(id.as_str(), name.as_str());
        proof {
            crate::config::lemma_total_push(
                self.config@.categories,
                category@,
                self.config@.categories.len() as int,
            );
            assert(category@.items =~= Seq::<ItemModel>::empty());
        }
        self.config.categories.push(category);
        self.config.active_category = id;
        proof {
            assert(self.config@.categories =~= old(self).config@.categories.push(category@));
        }
        self.category_start = 0;
        self.page_offset = 0;
    }

    /// Renames category `k` (nothing happens past the last one).
    #[verifier::spinoff_prover]
    #[verifier::rlimit(40)]
    fn rename_category(&mut self, k: usize, name: String)
        requires
            old(self).wf(),
        ensures
            final(self).wf(),
            final(self).config@ == (if k < old(self).config@.categories.len() {
                with_category(
                    old(self).config@,
                    k as int,
                    CategoryModel { name: name@, ..old(self).config@.categories[k as int] },
                )
            } else {
                old(self).config@
            }),
            *final(self) == (Launcher { config: final(self).config, ..*old(self) }),
    {
        if k < self.config.categories.len() {
            let mut cat = self.config.replace_category(k, placeholder());
            cat.name = name;
            proof {
                crate::config::lemma_total_update(
                    old(self).config@.categories,
                    k as int,
                    cat@,
                    old(self).config@.categories.len() as int,
                );
            }
            let _ = self.config.replace_category(k, cat);
            proof {
                assert(self.config@.categories =~= old(self).config@.categories.update(
                    k as int,
                    cat@,
                ));
            }
        }
    }

    /// Renames an item (nothing happens when it does not exist).
    #[verifier::spinoff_prover]
    #[verifier::rlimit(40)]
    fn rename_item(&mut self, reference: ItemRef, name: String)
        requires
            old(self).wf(),
        ensures
            final(self).wf(),
            final(self).config@ == (if valid_item(old(self).config@, reference) {
                with_item(
                    old(self).config@,
                    reference,
                    ItemModel {
                        name: name@,
                        ..old(self).config@.categories[reference.category as int].items[reference.item as int]
                    },
                )
            } else {
                old(self).config@
            }),
            *final(self) == (Launcher { config: final(self).config, ..*old(self) }),
    {
        if self.is_valid_item(reference) {
            let mut copy = self.item_copy(reference);
            copy.name = name;
            proof {
                lemma_with_items_total(
                    self.config@,
                    reference.category as int,
                    self.config@.categories[reference.category as int].items.update(
                        reference.item as int,
                        copy@,
                    ),
                );
            }
            self.put_item(reference, copy);
        }
    }

    /// Applies the dialog text box: creates or renames a category, or
    /// renames an item, with the trimmed text; in search, opens the selected
    /// item. A blank text changes nothing.
    #[verifier::spinoff_prover]
    #[verifier::rlimit(60)]
    pub fn confirm_text_input(&mut self, value: &str) -> (r: Vec<Action>)
        requires
            old(self).wf(),
            old(self).input_mode == Some(InputMode::NewCategory) ==> old(self).config@.categories.len()
                < MAX_ENTRIES,
        ensures
            final(self).wf(),
            old(self).input_mode is None ==> *final(self) == *old(self) && r@.len() == 0,
            old(self).input_mode == Some(InputMode::Search) ==> *final(self) == *old(self) && r@
                == (match selected_target(*old(self)) {
                Some(t) => seq![Action::Launch(t)],
                None => seq![],
            }),
            (old(self).input_mode matches Some(m) && m != InputMode::Search) && is_blank(value@)
                ==> *final(self) == *old(self) && r@.len() == 0,
            (old(self).input_mode matches Some(m) && m != InputMode::Search) && !is_blank(value@)
                ==> {
                let name = crate::text::trim(value@);
                let c = old(self).config@;
                let config = match old(self).input_mode {
                    Some(InputMode::NewCategory) => ConfigModel {
                        categories: c.categories.push(
                            CategoryModel { id: final(self).config@.active_category, name, items: seq![] },
                        ),
                        active_category: final(self).config@.active_category,
                        ..c
                    },
                    Some(InputMode::RenameCategory(k)) => if k < c.categories.len() {
                        with_category(c, k as int, CategoryModel { name, ..c.categories[k as int] })
                    } else {
                        c
                    },
                    Some(InputMode::RenameItem { category, item }) => if valid_item(
                        c,
                        ItemRef { category, item },
                    ) {
                        with_item(
                            c,
                            ItemRef { category, item },
                            ItemModel { name, ..c.categories[category as int].items[item as int] },
                        )
                    } else {
                        c
                    },
                    _ => c,
                };
                let new_category = old(self).input_mode == Some(InputMode::NewCategory);
                &&& new_category ==> crate::config::fresh_category_id(
                    c.categories,
                    name,
                    final(self).config@.active_category,
                )
                &&& final(self).config@ == config
                &&& final(self).relaid_from(
                    Launcher {
                        config: final(self).config,
                        category_start: if new_category {
                            0
                        } else {
                            old(self).category_start
                        },
                        page_offset: if new_category {
                            0
                        } else {
                            old(self).page_offset
                        },
                        input_mode: None,
                        ..*old(self)
                    },
                )
                &&& r@ == seq![Action::HideInput, Action::Save, Action::Redraw]
            },
    {
        let mode = match self.input_mode {
            None => return Vec::new(),
            Some(mode) => mode,
        };
        if mode == InputMode::Search {
            return self.run_selected();
        }
        let chars = crate::text::chars_of(value);
        let trimmed_chars = crate::text::trim_chars(chars.as_slice());
        if trimmed_chars.len() == 0 {
            return Vec::new();
        }
        let name = crate::text::string_of(trimmed_chars.as_slice());
        match mode {
            InputMode::NewCategory => self.add_category(name),
            InputMode::RenameCategory(k) => self.rename_category(k, name),
            InputMode::RenameItem { category, item } => self.rename_item(
                ItemRef { category, item },
                name,
            ),
            InputMode::Search => {},
        }
        self.input_mode = None;
        self.relayout();
        let mut r = Vec::new();
        r.push(Action::HideInput);
        r.push(Action::Save);
        r.push(Action::Redraw);
        r
    }
}


/// Rust's `char::is_control`: the control characters U+0000-U+001F and U+007F-U+009F.
pub open spec fn is_control(c: char) -> bool {
    (c as u32) <= 0x1F || (0x7F <= (c as u32) && (c as u32) <= 0x9F)
}

/// Whether `key` (a lowercased path) is the lowercased expanded path of
/// some item.
pub open spec fn known_path(c: ConfigModel, env: Seq<crate::shell::EnvVar>, key: Seq<char>) -> bool {
    exists|k: int, j: int|
        0 <= k < c.categories.len() && 0 <= j < c.categories[k].items.len() && #[trigger] lowercase(
            crate::shell::expand_from(c.categories[k].items[j].path, 0, env),
        ) == key
}

/// The configuration after adding `paths` in order to category `active`,
/// skipping every path that an item (an earlier added one included)
/// already points to, compared in lowercase after expansion.
pub open spec fn added_paths(
    c: ConfigModel,
    active: int,
    paths: Seq<Seq<char>>,
    env: Seq<crate::shell::EnvVar>,
) -> ConfigModel
    decreases paths.len(),
{
    if paths.len() == 0 {
        c
    } else {
        let prev = added_paths(c, active, paths.drop_last(), env);
        let p = paths.last();
        if known_path(prev, env, lowercase(p)) {
            prev
        } else {
            with_items(prev, active, prev.categories[active].items.push(crate::shell::item_for_path(p)))
        }
    }
}

impl Launcher {
    /// Asks before deleting a category; the last category cannot be deleted.
    pub fn request_category_deletion(&self, category: usize) -> (r: Vec<Action>)
        ensures
            self.config@.categories.len() == 1 ==> r@.len() == 1 && (r@[0] matches Action::Info(m)
                && m@ == "至少需要保留一个分类。"@),
            self.config@.categories.len() != 1 ==> r@ == seq![Action::ConfirmCategoryDeletion(category)],
    {
        let mut r = Vec::new();
        if self.config.categories.len() == 1 {
            r.push(Action::Info(String::from_str("至少需要保留一个分类。")));
        } else {
            r.push(Action::ConfirmCategoryDeletion(category));
        }
        r
    }

    /// Deletes a category once confirmed: its items move to its left
    /// neighbour (to the new first category when the first is deleted), the
    /// view leaves search and starts over.
    #[verifier::spinoff_prover]
    #[verifier::rlimit(40)]
    pub fn delete_category(&mut self, category: usize) -> (r: Vec<Action>)
        requires
            old(self).wf(),
            category < old(self).config@.categories.len(),
            old(self).config@.categories.len() > 1,
        ensures
            final(self).wf(),
            final(self).config@ == crate::config::after_category_deletion(
                old(self).config@,
                category as int,
            ),
            final(self).query@.len() == 0,
            final(self).search_results@.len() == 0,
            final(self).relaid_from(
                Launcher {
                    config: final(self).config,
                    category_start: min_usize(
                        old(self).category_start,
                        (old(self).config@.categories.len() - 2) as usize,
                    ),
                    page_offset: 0,
                    selected: None,
                    search_mode: false,
                    query: final(self).query,
                    search_results: final(self).search_results,
                    input_mode: if old(self).input_mode == Some(InputMode::Search) {
                        None
                    } else {
                        old(self).input_mode
                    },
                    ..*old(self)
                },
            ),
            r@ == (if old(self).input_mode == Some(InputMode::Search) {
                seq![Action::HideInput]
            } else {
                seq![]
            }) + seq![Action::Save, Action::Redraw],
    {
        proof {
            crate::config::lemma_deletion_keeps_total(self.config@, category as int);
        }
        let _ = crate::config::apply_category_deletion(&mut self.config, category);
        let last = self.config.categories.len() - 1;
        if self.category_start > last {
            self.category_start = last;
        }
        self.page_offset = 0;
        self.selected = None;
        self.search_mode = false;
        self.query = String::new();
        self.search_results = Vec::new();
        let mut r = Vec::new();
        if self.input_mode == Some(InputMode::Search) {
            self.input_mode = None;
            r.push(Action::HideInput);
        }
        r.push(Action::Save);
        self.relayout();
        r.push(Action::Redraw);
        r
    }

    /// Sets a custom icon source for an item (nothing happens when the item
    /// no longer exists).
    #[verifier::spinoff_prover]
    #[verifier::rlimit(40)]
    pub fn set_item_icon(&mut self, reference: ItemRef, icon_path: String) -> (r: Vec<Action>)
        requires
            old(self).wf(),
        ensures
            final(self).wf(),
            valid_item(old(self).config@, reference) ==> final(self).config@ == with_item(
                old(self).config@,
                reference,
                ItemModel {
                    icon_path: icon_path@,
                    ..old(self).config@.categories[reference.category as int].items[reference.item as int]
                },
            ) && *final(self) == (Launcher { config: final(self).config, ..*old(self) }) && r@
                == seq![Action::Save, Action::PreloadIcons, Action::Redraw],
            !valid_item(old(self).config@, reference) ==> *final(self) == *old(self) && r@.len()
                == 0,
    {
        let mut r = Vec::new();
        if self.is_valid_item(reference) {
            let mut copy = self.item_copy(reference);
            copy.icon_path = icon_path;
            proof {
                lemma_with_items_total(
                    self.config@,
                    reference.category as int,
                    self.config@.categories[reference.category as int].items.update(
                        reference.item as int,
                        copy@,
                    ),
                );
            }
            self.put_item(reference, copy);
            r.push(Action::Save);
            r.push(Action::PreloadIcons);
            r.push(Action::Redraw);
        }
        r
    }

    /// Whether some item already points to the lowercased path `key`.
    fn is_known_path(&self, env: &Vec<crate::shell::EnvVar>, key: &str) -> (b: bool)
        ensures
            b == known_path(self.config@, env@, key@),
    {
        let c = &self.config;
        let mut k: usize = 0;
        while k < c.categories.len()
            invariant
                c@ == self.config@,
                k <= c@.categories.len(),
                forall|k2: int, j: int|
                    0 <= k2 < k && 0 <= j < c@.categories[k2].items.len() ==> #[trigger] lowercase(
                        crate::shell::expand_from(c@.categories[k2].items[j].path, 0, env@),
                    ) != key@,
            decreases c@.categories.len() - k,
        {
            let items = &c.categories[k].items;
            proof {
                assert(c@.categories[k as int].items == items@.map_values(|i: LaunchItem| i@));
            }
            let mut j: usize = 0;
            while j < items.len()
                invariant
                    c@ == self.config@,
                    k < c@.categories.len(),
                    c@.categories[k as int].items == items@.map_values(|i: LaunchItem| i@),
                    j <= items@.len(),
                    forall|k2: int, j2: int|
                        0 <= k2 < k && 0 <= j2 < c@.categories[k2].items.len() ==> #[trigger] lowercase(
                            crate::shell::expand_from(c@.categories[k2].items[j2].path, 0, env@),
                        ) != key@,
                    forall|j2: int|
                        0 <= j2 < j ==> #[trigger] lowercase(
                            crate::shell::expand_from(c@.categories[k as int].items[j2].path, 0, env@),
                        ) != key@,
                decreases items@.len() - j,
            {
                let expanded = crate::shell::expand_environment(items[j].path.as_str(), env);
                let lowered = crate::text::to_lowercase(expanded.as_str());
                if crate::text::same_text(lowered.as_str(), key) {
                    assert(lowercase(
                        crate::shell::expand_from(c@.categories[k as int].items[j as int].path, 0, env@),
                    ) == key@);
                    return true;
                }
                j += 1;
            }
            k += 1;
        }
        false
    }

    /// Adds files or folders to the active category, skipping paths that an
    /// item already points to. Tells the user when nothing was new.
    #[verifier::spinoff_prover]
    #[verifier::rlimit(50)]
    pub fn add_paths(&mut self, paths: Vec<String>, env: &Vec<crate::shell::EnvVar>) -> (r: Vec<Action>)
        requires
            old(self).wf(),
            old(self).config@.total_items() + paths@.len() <= MAX_COUNT,
        ensures
            final(self).wf(),
            paths@.len() == 0 ==> *final(self) == *old(self) && r@.len() == 0,
            paths@.len() > 0 ==> {
                let c = old(self).config@;
                let added = added_paths(
                    c,
                    c.active_index(),
                    paths@.map_values(|p: String| p@),
                    env@,
                );
                &&& final(self).config@ == added
                &&& final(self).refreshed_from(Launcher { config: final(self).config, ..*old(self) })
                &&& r@.len() == 2
                &&& r@[1] is Redraw
                &&& (added.total_items() == c.total_items() ==> (r@[0] matches Action::Info(m) && m@
                    == "所选项目已经存在。"@))
                &&& (added.total_items() != c.total_items() ==> r@[0] is Save)
            },
    {
        if paths.len() == 0 {
            return Vec::new();
        }
        let active = self.config.active_category_index();
        proof {
            crate::config::lemma_active_index(self.config@);
        }
        let ghost c0 = self.config@;
        let ghost ps = paths@.map_values(|p: String| p@);
        let mut added: usize = 0;
        let mut i: usize = 0;
        while i < paths.len()
            invariant
                i <= paths@.len(),
                ps == paths@.map_values(|p: String| p@),
                active == c0.active_index(),
                active < c0.categories.len(),
                self.config@ == added_paths(c0, active as int, ps.take(i as int), env@),
                self.config@.categories.len() == c0.categories.len(),
                self.config@.total_items() == c0.total_items() + added,
                added <= i,
                c0.total_items() + paths@.len() <= MAX_COUNT,
                *self == (Launcher { config: self.config, ..*old(self) }),
            decreases paths@.len() - i,
        {
            let key = crate::text::to_lowercase(paths[i].as_str());
            proof {
                assert(ps.take(i + 1).drop_last() =~= ps.take(i as int));
                assert(ps.take(i + 1).last() == paths@[i as int]@);
            }
            if !self.is_known_path(env, key.as_str()) {
                let item = crate::shell::item_from_path(paths[i].as_str());
                proof {
                    lemma_with_items_total(
                        self.config@,
                        active as int,
                        self.config@.categories[active as int].items.push(item@),
                    );
                }
                self.append_item(active, item);
                added += 1;
            }
            i += 1;
        }
        proof {
            assert(ps.take(paths@.len() as int) =~= ps);
        }
        let mut r = Vec::new();
        if added == 0 {
            r.push(Action::Info(String::from_str("所选项目已经存在。")));
        } else {
            r.push(Action::Save);
        }
        self.search_results = Vec::new();
        let mut more = self.refresh_search();
        r.append(&mut more);
        r
    }

    /// Enters search with an empty query.
    pub fn enter_search(&mut self) -> (r: Vec<Action>)
        requires
            old(self).wf(),
        ensures
            final(self).wf(),
            search_entered(*old(self), *final(self), r@),

    {
        proof {
            reveal(search_entered);
        }
        if self.view != Screen::Launcher || self.add_overlay_open {
            return Vec::new();
        }
        self.search_mode = true;
        self.input_mode = Some(InputMode::Search);
        self.query = String::new();
        let mut r = self.refresh_search();
        r.push(Action::ContentTransition);
        r.push(Action::ShowSearchInput);
        r
    }

    /// Leaves search and shows the active category again.
    pub fn close_search(&mut self) -> (r: Vec<Action>)
        requires
            old(self).wf(),
        ensures
            final(self).wf(),
            search_closed(*old(self), *final(self), r@),

    {
        proof {
            reveal(search_closed);
        }
        self.search_mode = false;
        self.query = String::new();
        self.search_results = Vec::new();
        self.selected = None;
        self.page_offset = 0;
        self.input_mode = None;
        self.relayout();
        let mut r = Vec::new();
        r.push(Action::HideInput);
        r.push(Action::ContentTransition);
        r
    }

    /// A typed character starts a search for it (menus, settings and
    /// control characters aside).
    pub fn character(&mut self, c: char) -> (r: Vec<Action>)
        requires
            old(self).wf(),
        ensures
            final(self).wf(),
            old(self).menu is Some || old(self).view != Screen::Launcher || is_control(c)
                ==> *final(self) == *old(self) && r@.len() == 0,
            !(old(self).menu is Some || old(self).view != Screen::Launcher || is_control(c))
                ==> final(self).query@ == seq![c] && final(self).refreshed_from(
                Launcher {
                    search_mode: true,
                    input_mode: Some(InputMode::Search),
                    query: final(self).query,
                    ..*old(self)
                },
            ) && r@ == seq![Action::Redraw, Action::ContentTransition, Action::ShowSearchInput],
    {
        if self.menu.is_some() || self.view != Screen::Launcher || (c as u32) <= 0x1F || (0x7F
            <= (c as u32) && (c as u32) <= 0x9F) {
            return Vec::new();
        }
        self.search_mode = true;
        self.input_mode = Some(InputMode::Search);
        let mut query = String::new();
        crate::text::push_char(&mut query, c);
        self.query = query;
        let mut r = self.refresh_search();
        r.push(Action::ContentTransition);
        r.push(Action::ShowSearchInput);
        r
    }

    /// The search box's text changed: search for it.
    pub fn text_changed(&mut self, text: &str) -> (r: Vec<Action>)
        requires
            old(self).wf(),
        ensures
            final(self).wf(),
            old(self).input_mode != Some(InputMode::Search) ==> *final(self) == *old(self) && r@.len()
                == 0,
            old(self).input_mode == Some(InputMode::Search) ==> final(self).query@ == text@
                && final(self).refreshed_from(Launcher { query: final(self).query, ..*old(self) })
                && r@ == seq![Action::Redraw],
    {
        if self.input_mode != Some(InputMode::Search) {
            return Vec::new();
        }
        self.query = String::from_str(text);
        self.refresh_search()
    }

    /// Escape closes, in this order: the add overlay, hotkey capture, the
    /// settings page, search; otherwise it hides the window.
    pub fn escape(&mut self) -> (r: Vec<Action>)
        requires
            old(self).wf(),
        ensures
            final(self).wf(),
            old(self).add_overlay_open ==> *final(self) == (Launcher {
                add_overlay_open: false,
                ..*old(self)
            }) && r@ == seq![Action::Redraw],
            !old(self).add_overlay_open && old(self).hotkey_capture ==> *final(self) == (Launcher {
                hotkey_capture: false,
                ..*old(self)
            }) && r@ == seq![Action::Redraw],
            !old(self).add_overlay_open && !old(self).hotkey_capture && old(self).view
                == Screen::Settings ==> final(self).relaid_from(
                Launcher { view: Screen::Launcher, ..*old(self) },
            ) && r@ == seq![Action::Redraw],
            !old(self).add_overlay_open && !old(self).hotkey_capture && old(self).view
                == Screen::Launcher && old(self).search_mode ==> search_closed(
                *old(self),
                *final(self),
                r@,
            ),
            !old(self).add_overlay_open && !old(self).hotkey_capture && old(self).view
                == Screen::Launcher && !old(self).search_mode ==> *final(self) == *old(self) && r@
                == seq![Action::Hide],
    {
        let mut r = Vec::new();
        if self.add_overlay_open {
            self.add_overlay_open = false;
            r.push(Action::Redraw);
        } else if self.hotkey_capture {
            self.hotkey_capture = false;
            r.push(Action::Redraw);
        } else if self.view == Screen::Settings {
            self.view = Screen::Launcher;
            self.relayout();
            r.push(Action::Redraw);
        } else if self.search_mode {
            r = self.close_search();
        } else {
            r.push(Action::Hide);
        }
        r
    }
}


/// A command entry with the given id, label and state.
pub open spec fn is_command(e: MenuEntry, id: u32, label: Seq<char>, enabled: bool) -> bool {
    e matches MenuEntry::Command { id: i, label: l, enabled: en } && i == id && l@ == label && en
        == enabled
}

/// Pixels for a length at a DPI (`scale`).
pub open spec fn scaled_len(value: int, dpi: int) -> int {
    value * dpi / 96
}

/// A length in design units at a DPI, rounded down.
pub fn scale(value: i32, dpi: u32) -> (r: i32)
    requires
        0 <= value <= 100_000,
        dpi <= MAX_DPI,
    ensures
        r == scaled_len(value as int, dpi as int),
{
    proof {
        assert(0 <= value as int * dpi as int <= 100_000 * 9600) by (nonlinear_arith)
            requires
                0 <= value <= 100_000,
                dpi <= 9600,
        ;
    }
    ((value as i64 * dpi as i64) / 96) as i32
}

/// A length in pixels at a DPI back in design units, rounded down.
pub fn unscale(value: i32, dpi: u32) -> (r: i32)
    requires
        value >= 0,
        dpi >= 96,
    ensures
        r == (value as int * 96) / (dpi as int),
{
    let q = (value as u64 * 96) / (dpi as u64);
    proof {
        assert(q <= value) by (nonlinear_arith)
            requires
                q == (value as int * 96) / (dpi as int),
                dpi >= 96,
                value >= 0,
        ;
    }
    q as i32
}

/// A command entry.
pub fn command(id: u32, label: &str, enabled: bool) -> (e: MenuEntry)
    ensures
        is_command(e, id, label@, enabled),
{
    MenuEntry::Command { id, label: String::from_str(label), enabled }
}

/// The state with the menu closed (no action is needed when none was open).
pub open spec fn menu_closed(a: Launcher) -> Launcher {
    Launcher { menu: None, modal_open: false, ..a }
}

/// Whether closing a menu puts the search box back: in search, without the
/// add overlay, with the search box in use.
pub open spec fn search_box_back(a: Launcher) -> bool {
    a.search_mode && !a.add_overlay_open && a.input_mode == Some(InputMode::Search)
}

impl Launcher {
    /// Opens a menu at `anchor` over the window.
    pub(crate) fn open_menu_at(
        &mut self,
        entries: Vec<MenuEntry>,
        anchor: (i32, i32),
        target: Option<ItemRef>,
    ) -> (r: Vec<Action>)
        requires
            old(self).wf(),
            crate::menu::entries_ok(entries@),
        ensures
            final(self).wf(),
            final(self).menu matches Some(m) && m.root@ == entries@ && m.target == target
                && m.root_rect == crate::menu::panel_rect_spec(
                anchor,
                old(self).layout.client,
                entries@,
                old(self).dpi as int,
            ) && m.dpi == old(self).dpi && m.client == old(self).layout.client
                && m.submenu is None && m.selected is None && m.hovered is None,
            *final(self) == (Launcher {
                menu: final(self).menu,
                modal_open: true,
                hovered_item: None,
                pressed_item: None,
                ..*old(self)
            }),
            r@ == (if old(self).search_mode {
                seq![Action::HideInput]
            } else {
                seq![]
            }) + seq![Action::Redraw],
    {
        self.menu = Some(MenuState::new(entries, anchor, self.layout.client, self.dpi, target));
        let mut r = Vec::new();
        if self.search_mode {
            r.push(Action::HideInput);
        }
        self.modal_open = true;
        self.hovered_item = None;
        self.pressed_item = None;
        r.push(Action::Redraw);
        proof {
            assert(r@ =~= (if old(self).search_mode {
                seq![Action::HideInput]
            } else {
                seq![]
            }) + seq![Action::Redraw]);
        }
        r
    }

    /// The menu of the add button: add items, or create a category.
    pub fn show_add_menu(&mut self) -> (r: Vec<Action>)
        requires
            old(self).wf(),
        ensures
            final(self).wf(),
            add_menu_shown(*old(self), *final(self), r@),

    {
        proof {
            reveal(add_menu_shown);
        }
        let mut entries = Vec::new();
        entries.push(command(ITEM_NEW, "添加项目", true));
        entries.push(command(CATEGORY_NEW, "新建分类", true));
        let anchor = (self.layout.add_button.right - scale(220, self.dpi), self.layout.add_button.bottom);
        proof {
            assert(entries@.len() == 2);
            assert(crate::menu::entries_ok(entries@));
        }
        self.menu = Some(MenuState::new(entries, anchor, self.layout.client, self.dpi, None));
        let mut r = Vec::new();
        if self.search_mode {
            r.push(Action::HideInput);
        }
        self.modal_open = true;
        r.push(Action::Redraw);
        proof {
            assert(r@ =~= (if old(self).search_mode {
                seq![Action::HideInput]
            } else {
                seq![]
            }) + seq![Action::Redraw]);
        }
        r
    }

    /// The context menu of a category tab: new, rename, delete (only when
    /// another category is left).
    pub fn show_category_menu(&mut self, category: usize, anchor: (i32, i32)) -> (r: Vec<Action>)
        requires
            old(self).wf(),
            category < old(self).config@.categories.len(),
        ensures
            final(self).wf(),
            final(self).menu matches Some(m) && m.root@.len() == 4 && is_command(
                m.root@[0],
                (CATEGORY_CONTEXT_BASE + category * 3) as u32,
                "新建分类"@,
                true,
            ) && is_command(
                m.root@[1],
                (CATEGORY_CONTEXT_BASE + category * 3 + 1) as u32,
                "重命名分类"@,
                true,
            ) && m.root@[2] is Separator && is_command(
                m.root@[3],
                (CATEGORY_CONTEXT_BASE + category * 3 + 2) as u32,
                "删除分类"@,
                old(self).config@.categories.len() > 1,
            ) && m.target is None && m.root_rect == crate::menu::panel_rect_spec(
                anchor,
                old(self).layout.client,
                m.root@,
                old(self).dpi as int,
            ),
            *final(self) == (Launcher {
                menu: final(self).menu,
                modal_open: true,
                hovered_item: None,
                pressed_item: None,
                ..*old(self)
            }),
            r@ == (if old(self).search_mode {
                seq![Action::HideInput]
            } else {
                seq![]
            }) + seq![Action::Redraw],
    {
        let base = CATEGORY_CONTEXT_BASE + (category as u32) * 3;
        let mut entries = Vec::new();
        entries.push(command(base, "新建分类", true));
        entries.push(command(base + 1, "重命名分类", true));
        entries.push(MenuEntry::Separator);
        entries.push(command(base + 2, "删除分类", self.config.categories.len() > 1));
        proof {
            assert(crate::menu::entries_ok(entries@));
        }
        self.open_menu_at(entries, anchor, None)
    }

    /// A menu listing every category, to jump to one.
    pub fn show_all_categories_menu(&mut self) -> (r: Vec<Action>)
        requires
            old(self).wf(),
        ensures
            final(self).wf(),
            all_categories_shown(*old(self), *final(self), r@),

    {
        proof {
            reveal(all_categories_shown);
        }
        let mut entries: Vec<MenuEntry> = Vec::new();
        let mut k: usize = 0;
        while k < self.config.categories.len()
            invariant
                k <= self.config@.categories.len() <= MAX_ENTRIES,
                entries@.len() == k,
                forall|j: int|
                    0 <= j < k ==> is_command(
                        #[trigger] entries@[j],
                        (CATEGORY_SELECT_BASE + j) as u32,
                        self.config@.categories[j].name,
                        true,
                    ),
            decreases self.config@.categories.len() - k,
        {
            proof {
                assert(self.config@.categories[k as int] == self.config.categories@[k as int]@);
            }
            entries.push(
                command(CATEGORY_SELECT_BASE + k as u32, self.config.categories[k].name.as_str(), true),
            );
            k += 1;
        }
        proof {
            assert forall|j: int|
                0 <= j < entries@.len() && (#[trigger] entries@[j]) is Submenu implies entries@[j]->Submenu_entries@.len()
                    <= MAX_ENTRIES by {
                assert(is_command(entries@[j], (CATEGORY_SELECT_BASE + j) as u32, self.config@.categories[j].name, true));
            }
        }
        let anchor = (self.layout.category_more.left, self.layout.category_more.bottom);
        self.open_menu_at(entries, anchor, None)
    }
}


/// Windows virtual-key codes that menus answer to.
pub const VK_RETURN: u32 = 0x0D;
pub const VK_ESCAPE: u32 = 0x1B;
pub const VK_LEFT: u32 = 0x25;
pub const VK_UP: u32 = 0x26;
pub const VK_RIGHT: u32 = 0x27;
pub const VK_DOWN: u32 = 0x28;

/// What `apply_add_command` does.
#[verifier::opaque]
pub open spec fn add_command_effect(a: Launcher, b: Launcher, command: u32, r: Seq<Action>) -> bool {
    if command == ITEM_NEW {
        b == (Launcher { add_overlay_open: true, selected: None, ..a }) && r =~= seq![
            Action::ContentTransition,
        ]
    } else if command == CATEGORY_NEW {
        text_input_opened(a, b, InputMode::NewCategory, seq![], r)
    } else {
        b == a && r.len() == 0
    }
}

/// What `execute_category_command` does: command `command` acts on
/// category `(command - CATEGORY_CONTEXT_BASE) / 3`; the remainder picks
/// new, rename or delete.
#[verifier::opaque]
pub open spec fn category_command_effect(a: Launcher, b: Launcher, command: u32, r: Seq<Action>) -> bool {
    let offset = command - CATEGORY_CONTEXT_BASE;
    let k = offset / 3;
    if command < CATEGORY_CONTEXT_BASE || k >= a.config@.categories.len() {
        b == a && r.len() == 0
    } else if offset % 3 == 0 {
        text_input_opened(a, b, InputMode::NewCategory, seq![], r)
    } else if offset % 3 == 1 {
        text_input_opened(
            a,
            b,
            InputMode::RenameCategory(k as usize),
            a.config@.categories[k].name,
            r,
        )
    } else {
        &&& b == a
        &&& a.config@.categories.len() == 1 ==> r.len() == 1 && (r[0] matches Action::Info(m)
            && m@ == "至少需要保留一个分类。"@)
        &&& a.config@.categories.len() != 1 ==> r =~= seq![Action::ConfirmCategoryDeletion(k as usize)]
    }
}

/// What `execute_menu_command` does: add commands, item commands on the
/// menu's item, category commands, and jumps to a category.
#[verifier::opaque]
pub open spec fn menu_command_effect(
    a: Launcher,
    b: Launcher,
    command: u32,
    target: Option<ItemRef>,
    r: Seq<Action>,
) -> bool {
    if command == ITEM_NEW || command == CATEGORY_NEW {
        add_command_effect(a, b, command, r)
    } else if (ITEM_LAUNCH <= command <= ITEM_RESET_ICON) || (ITEM_MOVE_BASE <= command
        < CATEGORY_SELECT_BASE) {
        match target {
            Some(t) => if valid_item(a.config@, t) {
                item_command_effect(a, b, t, command, r)
            } else {
                b == a && r.len() == 0
            },
            None => b == a && r.len() == 0,
        }
    } else if command >= CATEGORY_CONTEXT_BASE {
        category_command_effect(a, b, command, r)
    } else if command >= CATEGORY_SELECT_BASE {
        let index = command - CATEGORY_SELECT_BASE;
        if index < a.config@.categories.len() {
            category_selected(
                Launcher { category_start: index as usize, ..a },
                b,
                index as usize,
                true,
                r,
            )
        } else {
            b == a && r.len() == 0
        }
    } else {
        b == a && r.len() == 0
    }
}

/// Actions after a menu closed: the search box comes back when it was in use.
pub open spec fn restore_actions(b: Launcher) -> Seq<Action> {
    if search_box_back(b) {
        seq![Action::ShowSearchInput]
    } else {
        seq![]
    }
}

/// What choosing `command` (or nothing) from the open menu `m` does: the
/// menu closes, the command runs, the search box comes back.
#[verifier::opaque]
pub open spec fn menu_choice_effect(
    a: Launcher,
    b: Launcher,
    m: MenuState,
    command: Option<u32>,
    r: Seq<Action>,
) -> bool {
    match command {
        Some(c) => exists|r1: Seq<Action>|
            menu_command_effect(menu_closed(a), b, c, m.target, r1) && r == r1 + restore_actions(b),
        None => b == menu_closed(a) && r == restore_actions(b) + seq![Action::Redraw],
    }
}

impl Launcher {
    /// Whether the search box comes back after a menu closes.
    pub(crate) fn restore_search_input(&self) -> (r: Vec<Action>)
        ensures
            r@ == restore_actions(*self),
    {
        let mut r = Vec::new();
        if self.search_mode && !self.add_overlay_open && self.input_mode == Some(InputMode::Search) {
            r.push(Action::ShowSearchInput);
        }
        r
    }

    /// Closes the menu and puts the search box back.
    pub fn close_menu(&mut self) -> (r: Vec<Action>)
        requires
            old(self).wf(),
        ensures
            final(self).wf(),
            menu_closed_by_user(*old(self), *final(self), r@),

    {
        proof {
            reveal(menu_closed_by_user);
        }
        if self.menu.is_none() {
            return Vec::new();
        }
        self.menu = None;
        self.modal_open = false;
        let mut r = self.restore_search_input();
        r.push(Action::Redraw);
        r
    }

    /// Closes the menu (the window lost the focus).
    pub fn dismiss_menu(&mut self) -> (r: Vec<Action>)
        requires
            old(self).wf(),
        ensures
            final(self).wf(),
            old(self).menu is None ==> *final(self) == *old(self) && r@.len() == 0,
            old(self).menu is Some ==> *final(self) == menu_closed(*old(self)) && r@ == seq![
                Action::Redraw,
            ],
    {
        if self.menu.is_none() {
            return Vec::new();
        }
        self.menu = None;
        self.modal_open = false;
        let mut r = Vec::new();
        r.push(Action::Redraw);
        r
    }

    /// Runs an entry of the add menu.
    fn apply_add_command(&mut self, command: u32) -> (r: Vec<Action>)
        requires
            old(self).wf(),
        ensures
            final(self).wf(),
            add_command_effect(*old(self), *final(self), command, r@),
    {
        proof {
            reveal(add_command_effect);
        }
        if command == ITEM_NEW {
            self.add_overlay_open = true;
            self.selected = None;
            let mut r = Vec::new();
            r.push(Action::ContentTransition);
            r
        } else if command == CATEGORY_NEW {
            self.open_text_input(InputMode::NewCategory, String::new())
        } else {
            Vec::new()
        }
    }

    /// Runs an entry of a category's context menu.
    fn execute_category_command(&mut self, command: u32) -> (r: Vec<Action>)
        requires
            old(self).wf(),
        ensures
            final(self).wf(),
            category_command_effect(*old(self), *final(self), command, r@),
    {
        proof {
            reveal(category_command_effect);
        }
        if command < CATEGORY_CONTEXT_BASE {
            return Vec::new();
        }
        let offset = command - CATEGORY_CONTEXT_BASE;
        let k = (offset / 3) as usize;
        if k >= self.config.categories.len() {
            return Vec::new();
        }
        if offset % 3 == 0 {
            self.open_text_input(InputMode::NewCategory, String::new())
        } else if offset % 3 == 1 {
            let name = self.config.categories[k].name.clone();
            proof {
                assert(self.config@.categories[k as int] == self.config.categories@[k as int]@);
            }
            self.open_text_input(InputMode::RenameCategory(k), name)
        } else {
            self.request_category_deletion(k)
        }
    }

    /// Runs a menu command.
    pub fn execute_menu_command(&mut self, command: u32, target: Option<ItemRef>) -> (r: Vec<Action>)
        requires
            old(self).wf(),
        ensures
            final(self).wf(),
            menu_command_effect(*old(self), *final(self), command, target, r@),
    {
        proof {
            reveal(menu_command_effect);
        }
        if command == ITEM_NEW || command == CATEGORY_NEW {
            self.apply_add_command(command)
        } else if (ITEM_LAUNCH <= command && command <= ITEM_RESET_ICON) || (ITEM_MOVE_BASE
            <= command && command < CATEGORY_SELECT_BASE) {
            match target {
                Some(t) => if self.is_valid_item(t) {
                    self.execute_item_command(t, command)
                } else {
                    Vec::new()
                },
                None => Vec::new(),
            }
        } else if command >= CATEGORY_CONTEXT_BASE {
            self.execute_category_command(command)
        } else if command >= CATEGORY_SELECT_BASE {
            let index = (command - CATEGORY_SELECT_BASE) as usize;
            if index < self.config.categories.len() {
                self.category_start = index;
                self.select_category(index, true)
            } else {
                Vec::new()
            }
        } else {
            Vec::new()
        }
    }

    /// Closes the open menu `m` and runs `command`, if any.
    pub(crate) fn choose_from_menu(&mut self, command: Option<u32>, target: Option<ItemRef>) -> (r: Vec<Action>)
        requires
            old(self).wf(),
            old(self).menu matches Some(m) && m.target == target,
        ensures
            final(self).wf(),
            menu_choice_effect(*old(self), *final(self), old(self).menu->0, command, r@),
    {
        proof {
            reveal(menu_choice_effect);
        }
        self.menu = None;
        self.modal_open = false;
        let ghost mid = *self;
        match command {
            Some(c) => {
                let mut r = self.execute_menu_command(c, target);
                let ghost r1 = r@;
                let mut more = self.restore_search_input();
                r.append(&mut more);
                proof {
                    assert(mid == menu_closed(*old(self)));
                    assert(menu_command_effect(mid, *self, c, target, r1));
                    assert(r@ =~= r1 + restore_actions(*self));
                    assert(menu_command_effect(menu_closed(*old(self)), *self, c, old(self).menu->0.target, r1)
                        && r@ == r1 + restore_actions(*self));
                }
                r
            },
            None => {
                let mut r = self.restore_search_input();
                r.push(Action::Redraw);
                proof {
                    assert(*self == menu_closed(*old(self)));
                    assert(r@ =~= restore_actions(*self) + seq![Action::Redraw]);
                }
                r
            },
        }
    }

    /// A press while a menu is open: a submenu entry opens its submenu, an
    /// enabled command runs, anything else closes the menu. Returns whether a
    /// menu was open (and so took the press).
    pub fn menu_click(&mut self, x: i32, y: i32) -> (r: (bool, Vec<Action>))
        requires
            old(self).wf(),
        ensures
            final(self).wf(),
            r.0 == old(self).menu is Some,
            old(self).menu is None ==> *final(self) == *old(self) && r.1@.len() == 0,
            menu_click_effect(*old(self), *final(self), x as int, y as int, r.0, r.1@),

    {
        proof {
            reveal(menu_click_effect);
        }
        if self.menu.is_none() {
            return (false, Vec::new());
        }
        let mut menu = self.menu.take().unwrap();
        let hit = menu.hit(x, y);
        if let Some((false, index)) = hit {
            let is_submenu = match menu.entry(false, index) {
                Some(MenuEntry::Submenu { .. }) => true,
                _ => false,
            };
            if is_submenu {
                let _ = menu.hover(x, y);
                self.menu = Some(menu);
                let mut r = Vec::new();
                r.push(Action::Redraw);
                return (true, r);
            }
        }
        let command = match hit {
            Some((sub, index)) => menu.command_at(sub, index),
            None => None,
        };
        let target = menu.target;
        self.menu = Some(menu);
        let r = self.choose_from_menu(command, target);
        (true, r)
    }

    /// A key while a menu is open: arrows move the selection and enter or
    /// leave the submenu, Enter opens the selected submenu or runs the
    /// selected command, Escape closes the menu. Returns whether a menu was
    /// open (and so took the key).
    pub fn menu_key(&mut self, key: u32) -> (r: (bool, Vec<Action>))
        requires
            old(self).wf(),
        ensures
            final(self).wf(),
            r.0 == old(self).menu is Some,
            old(self).menu is None ==> *final(self) == *old(self) && r.1@.len() == 0,
            old(self).menu matches Some(m) ==> {
                if key == VK_ESCAPE {
                    menu_closed_by_user(*old(self), *final(self), r.1@)
                } else if key == VK_UP || key == VK_DOWN {
                    *final(self) == (Launcher {
                        menu: Some(m.selected_next(if key == VK_UP { -1i32 } else { 1i32 })),
                        ..*old(self)
                    }) && r.1@ == seq![Action::Redraw]
                } else if key == VK_RIGHT {
                    *final(self) == (Launcher { menu: Some(m.entered()), ..*old(self) }) && r.1@
                        == seq![Action::Redraw]
                } else if key == VK_LEFT {
                    *final(self) == (Launcher {
                        menu: Some(
                            match m.submenu {
                                Some(parent) => MenuState { selected: Some((false, parent)), ..m },
                                None => m,
                            },
                        ),
                        ..*old(self)
                    }) && r.1@ == seq![Action::Redraw]
                } else if key == VK_RETURN {
                    if m.selected matches Some((false, i)) && m.entry_spec(false, i as int) matches Some(
                        MenuEntry::Submenu { .. },
                    ) {
                        *final(self) == (Launcher { menu: Some(m.entered()), ..*old(self) }) && r.1@
                            == seq![Action::Redraw]
                    } else {
                        menu_choice_effect(
                            *old(self),
                            *final(self),
                            m,
                            match m.selected {
                                Some((sub, i)) => m.command_spec(sub, i as int),
                                None => None,
                            },
                            r.1@,
                        )
                    }
                } else {
                    *final(self) == *old(self) && r.1@.len() == 0
                }
            },
    {
        if self.menu.is_none() {
            return (false, Vec::new());
        }
        if key == VK_ESCAPE {
            return (true, self.close_menu());
        }
        let mut menu = self.menu.take().unwrap();
        let mut r = Vec::new();
        if key == VK_UP || key == VK_DOWN {
            menu.select_next(
                if key == VK_UP {
                    -1
                } else {
                    1
                },
            );
            self.menu = Some(menu);
            r.push(Action::Redraw);
        } else if key == VK_RIGHT {
            menu.enter_submenu();
            self.menu = Some(menu);
            r.push(Action::Redraw);
        } else if key == VK_LEFT {
            menu.leave_submenu();
            self.menu = Some(menu);
            r.push(Action::Redraw);
        } else if key == VK_RETURN {
            let opens_submenu = match menu.selected {
                Some((false, index)) => match menu.entry(false, index) {
                    Some(MenuEntry::Submenu { .. }) => true,
                    _ => false,
                },
                _ => false,
            };
            if opens_submenu {
                menu.enter_submenu();
                self.menu = Some(menu);
                r.push(Action::Redraw);
            } else {
                let command = menu.selected_command();
                let target = menu.target;
                self.menu = Some(menu);
                r = self.choose_from_menu(command, target);
            }
        } else {
            self.menu = Some(menu);
        }
        (true, r)
    }
}

/// What `close_search` does.
#[verifier::opaque]
pub open spec fn search_closed(a: Launcher, b: Launcher, r: Seq<Action>) -> bool {
    &&& (b.query@.len() == 0)
    &&& (b.search_results@.len() == 0)
    &&& (b.relaid_from(
                Launcher {
                    search_mode: false,
                    query: b.query,
                    search_results: b.search_results,
                    selected: None,
                    page_offset: 0,
                    input_mode: None,
                    ..a
                },
            ))
    &&& (r =~= seq![Action::HideInput, Action::ContentTransition])
}

/// What `enter_search` does.
#[verifier::opaque]
pub open spec fn search_entered(a: Launcher, b: Launcher, r: Seq<Action>) -> bool {
    &&& (a.view != Screen::Launcher || a.add_overlay_open ==> b
                == a && r.len() == 0)
    &&& (a.view == Screen::Launcher && !a.add_overlay_open ==> b.query@.len()
                == 0 && b.refreshed_from(
                Launcher {
                    search_mode: true,
                    input_mode: Some(InputMode::Search),
                    query: b.query,
                    ..a
                },
            ) && r =~= seq![Action::Redraw, Action::ContentTransition, Action::ShowSearchInput])
}

/// What `show_add_menu` does.
#[verifier::opaque]
pub open spec fn add_menu_shown(a: Launcher, b: Launcher, r: Seq<Action>) -> bool {
    &&& (b.menu matches Some(m) && m.root@.len() == 2 && is_command(
                m.root@[0],
                ITEM_NEW,
                "添加项目"@,
                true,
            ) && is_command(m.root@[1], CATEGORY_NEW, "新建分类"@, true) && m.target is None
                && m.root_rect == crate::menu::panel_rect_spec(
                (
                    (a.layout.add_button.right - scaled_len(220, a.dpi as int)) as i32,
                    a.layout.add_button.bottom,
                ),
                a.layout.client,
                m.root@,
                a.dpi as int,
            ))
    &&& (b == (Launcher {
                menu: b.menu,
                modal_open: true,
                ..a
            }))
    &&& (r =~= (if a.search_mode {
                seq![Action::HideInput]
            } else {
                seq![]
            }) + seq![Action::Redraw])
}

/// What `show_all_categories_menu` does.
#[verifier::opaque]
pub open spec fn all_categories_shown(a: Launcher, b: Launcher, r: Seq<Action>) -> bool {
    &&& (b.menu matches Some(m) && m.root@.len() == a.config@.categories.len()
                && (forall|k: int|
                0 <= k < m.root@.len() ==> is_command(
                    #[trigger] m.root@[k],
                    (CATEGORY_SELECT_BASE + k) as u32,
                    a.config@.categories[k].name,
                    true,
                )) && m.target is None && m.root_rect == crate::menu::panel_rect_spec(
                (a.layout.category_more.left, a.layout.category_more.bottom),
                a.layout.client,
                m.root@,
                a.dpi as int,
            ))
    &&& (b == (Launcher {
                menu: b.menu,
                modal_open: true,
                hovered_item: None,
                pressed_item: None,
                ..a
            }))
    &&& (r =~= (if a.search_mode {
                seq![Action::HideInput]
            } else {
                seq![]
            }) + seq![Action::Redraw])
}

/// What `cancel_text_input` does.
#[verifier::opaque]
pub open spec fn text_input_cancelled(a: Launcher, b: Launcher, r: Seq<Action>) -> bool {
    &&& (b.relaid_from(Launcher { input_mode: None, ..a }))
    &&& (r =~= seq![Action::HideInput, Action::Redraw])
}

/// What `close_menu` does.
#[verifier::opaque]
pub open spec fn menu_closed_by_user(a: Launcher, b: Launcher, r: Seq<Action>) -> bool {
    &&& (a.menu is None ==> b == a && r.len() == 0)
    &&& (a.menu is Some ==> b == menu_closed(a) && r =~= restore_actions(b) + seq![Action::Redraw])
}


/// Tool buttons that show a hover highlight.
pub open spec fn highlights(t: crate::layout::ToolButton) -> bool {
    t == crate::layout::ToolButton::Back || t == crate::layout::ToolButton::Search || t
        == crate::layout::ToolButton::AddMenu || t == crate::layout::ToolButton::Settings || t
        == crate::layout::ToolButton::Close
}

/// The item on show under a point, when the item grid takes the pointer.
pub open spec fn item_under(l: Launcher, x: int, y: int) -> Option<usize> {
    if l.view != Screen::Launcher || l.add_overlay_open {
        None
    } else {
        grid_item(l, x, y)
    }
}

/// The item on show in the grid cell under a point.
pub open spec fn grid_item(l: Launcher, x: int, y: int) -> Option<usize> {
    match crate::layout::first_containing(l.layout.cells@, x, y, 0) {
        Some(k) => if l.page_offset + k < l.visible().len() {
            Some((l.page_offset + k) as usize)
        } else {
            None
        },
        None => None,
    }
}

/// The context menu of category `k` opened at `anchor` (what
/// `show_category_menu` does): new, rename, a separator and delete (enabled
/// while another category remains).
pub open spec fn category_menu_shown(a: Launcher, b: Launcher, k: int, anchor: (i32, i32), r: Seq<Action>) -> bool {
    &&& b.menu matches Some(m) && m.root@.len() == 4 && is_command(
        m.root@[0],
        (CATEGORY_CONTEXT_BASE + k * 3) as u32,
        "新建分类"@,
        true,
    ) && is_command(
        m.root@[1],
        (CATEGORY_CONTEXT_BASE + k * 3 + 1) as u32,
        "重命名分类"@,
        true,
    ) && m.root@[2] is Separator && is_command(
        m.root@[3],
        (CATEGORY_CONTEXT_BASE + k * 3 + 2) as u32,
        "删除分类"@,
        a.config@.categories.len() > 1,
    ) && m.target is None && m.root_rect == crate::menu::panel_rect_spec(
        anchor,
        a.layout.client,
        m.root@,
        a.dpi as int,
    )
    &&& b == (Launcher { menu: b.menu, modal_open: true, hovered_item: None, pressed_item: None, ..a })
    &&& r == (if a.search_mode {
        seq![Action::HideInput]
    } else {
        seq![]
    }) + seq![Action::Redraw]
}

/// The category whose tab is under a point.
pub open spec fn tab_under(l: Launcher, x: int, y: int) -> Option<usize> {
    match crate::layout::first_containing(l.layout.tab_rects(), x, y, 0) {
        Some(k) => Some(l.layout.categories@[k].0),
        None => None,
    }
}

/// Whether input other than the search box is blocked by an overlay.
pub open spec fn overlay_open(l: Launcher) -> bool {
    l.add_overlay_open || (l.input_mode is Some && l.input_mode != Some(InputMode::Search))
}

/// What `handle_tool` does.
#[verifier::opaque]
pub open spec fn tool_effect(a: Launcher, b: Launcher, button: crate::layout::ToolButton, r: Seq<Action>) -> bool {
    match button {
        crate::layout::ToolButton::Close => b == a && r =~= seq![Action::Hide],
        crate::layout::ToolButton::Back => b.relaid_from(
            Launcher { view: Screen::Launcher, hotkey_capture: false, ..a },
        ) && r =~= seq![Action::ContentTransition],
        crate::layout::ToolButton::Search => if a.search_mode {
            b == a && r =~= seq![Action::FocusInput]
        } else {
            search_entered(a, b, r)
        },
        crate::layout::ToolButton::AddMenu => add_menu_shown(a, b, r),
        crate::layout::ToolButton::Settings => exists|m: Launcher, r1: Seq<Action>|
            search_closed(a, m, r1) && b.relaid_from(
                Launcher { view: Screen::Settings, hotkey_capture: false, ..m },
            ) && r =~= r1 + seq![Action::RefreshStartup, Action::ContentTransition],
        crate::layout::ToolButton::CategoryLeft => b.relaid_from(
            Launcher {
                category_start: if a.category_start > 0 {
                    (a.category_start - 1) as usize
                } else {
                    0
                },
                ..a
            },
        ) && r =~= seq![Action::Redraw],
        crate::layout::ToolButton::CategoryRight => if a.category_start + 1 < a.config@.categories.len() {
            b.relaid_from(Launcher { category_start: (a.category_start + 1) as usize, ..a }) && r
                =~= seq![Action::Redraw]
        } else {
            b == a && r.len() == 0
        },
        crate::layout::ToolButton::CategoryMore => all_categories_shown(a, b, r),
    }
}

/// What `handle_setting` does.
#[verifier::opaque]
pub open spec fn setting_effect(
    a: Launcher,
    b: Launcher,
    control: crate::layout::SettingControl,
    r: Seq<Action>,
) -> bool {
    let w = a.config@.window;
    match control {
        crate::layout::SettingControl::Hotkey => b == (Launcher { hotkey_capture: true, ..a }) && r
            =~= seq![Action::Redraw],
        crate::layout::SettingControl::Startup => b == a && r =~= seq![
            Action::ToggleStartup,
            Action::Redraw,
        ],
        crate::layout::SettingControl::DoubleClick => b.config@ == (ConfigModel {
            double_click_launch: !a.config@.double_click_launch,
            ..a.config@
        }) && b == (Launcher { config: b.config, ..a }) && r =~= seq![Action::Save, Action::Redraw],
        crate::layout::SettingControl::Centered => b.config@ == (ConfigModel {
            window: crate::config::WindowModel {
                centered: !w.centered,
                movable: if !w.centered {
                    false
                } else {
                    w.movable
                },
                ..w
            },
            ..a.config@
        }) && b == (Launcher { config: b.config, ..a }) && r =~= seq![
            if !w.centered {
                Action::PositionWindow
            } else {
                Action::StoreWindowPlacement
            },
            Action::Save,
            Action::Redraw,
        ],
        crate::layout::SettingControl::Movable => if w.centered {
            b == a && r.len() == 0
        } else {
            b.config@ == (ConfigModel {
                window: crate::config::WindowModel { movable: !w.movable, ..w },
                ..a.config@
            }) && b == (Launcher { config: b.config, ..a }) && r =~= seq![Action::Save, Action::Redraw]
        },
        crate::layout::SettingControl::Resizable => b.config@ == (ConfigModel {
            window: crate::config::WindowModel { resizable: !w.resizable, ..w },
            ..a.config@
        }) && b == (Launcher { config: b.config, ..a }) && r =~= seq![
            Action::ApplyResizeStyle,
            Action::Save,
            Action::Redraw,
        ],
    }
}

impl Launcher {
    /// A toolbar button was pressed.
    #[verifier::spinoff_prover]
    #[verifier::rlimit(80)]
    pub fn handle_tool(&mut self, button: crate::layout::ToolButton) -> (r: Vec<Action>)
        requires
            old(self).wf(),
        ensures
            final(self).wf(),
            tool_effect(*old(self), *final(self), button, r@),
    {
        proof {
            reveal(tool_effect);
        }
        let mut r = Vec::new();
        match button {
            crate::layout::ToolButton::Close => {
                r.push(Action::Hide);
            },
            crate::layout::ToolButton::Back => {
                self.view = Screen::Launcher;
                self.hotkey_capture = false;
                self.relayout();
                r.push(Action::ContentTransition);
            },
            crate::layout::ToolButton::Search => {
                if self.search_mode {
                    r.push(Action::FocusInput);
                } else {
                    r = self.enter_search();
                }
            },
            crate::layout::ToolButton::AddMenu => {
                r = self.show_add_menu();
            },
            crate::layout::ToolButton::Settings => {
                r = self.close_search();
                let ghost m = *self;
                let ghost r1 = r@;
                self.view = Screen::Settings;
                self.hotkey_capture = false;
                r.push(Action::RefreshStartup);
                self.relayout();
                r.push(Action::ContentTransition);
                proof {
                    assert(r@ =~= r1 + seq![Action::RefreshStartup, Action::ContentTransition]);
                }
            },
            crate::layout::ToolButton::CategoryLeft => {
                if self.category_start > 0 {
                    self.category_start = self.category_start - 1;
                }
                self.relayout();
                r.push(Action::Redraw);
            },
            crate::layout::ToolButton::CategoryRight => {
                if self.category_start < self.config.categories.len() - 1 {
                    self.category_start = self.category_start + 1;
                    self.relayout();
                    r.push(Action::Redraw);
                }
            },
            crate::layout::ToolButton::CategoryMore => {
                r = self.show_all_categories_menu();
            },
        }
        r
    }

    /// A settings row was pressed.
    #[verifier::spinoff_prover]
    #[verifier::rlimit(80)]
    pub fn handle_setting(&mut self, control: crate::layout::SettingControl) -> (r: Vec<Action>)
        requires
            old(self).wf(),
        ensures
            final(self).wf(),
            setting_effect(*old(self), *final(self), control, r@),
    {
        proof {
            reveal(setting_effect);
        }
        let mut r = Vec::new();
        match control {
            crate::layout::SettingControl::Hotkey => {
                self.hotkey_capture = true;
                r.push(Action::Redraw);
            },
            crate::layout::SettingControl::Startup => {
                r.push(Action::ToggleStartup);
                r.push(Action::Redraw);
            },
            crate::layout::SettingControl::DoubleClick => {
                self.config.double_click_launch = !self.config.double_click_launch;
                r.push(Action::Save);
                r.push(Action::Redraw);
            },
            crate::layout::SettingControl::Centered => {
                self.config.window.centered = !self.config.window.centered;
                if self.config.window.centered {
                    self.config.window.movable = false;
                    r.push(Action::PositionWindow);
                } else {
                    r.push(Action::StoreWindowPlacement);
                }
                r.push(Action::Save);
                r.push(Action::Redraw);
            },
            crate::layout::SettingControl::Movable => {
                if !self.config.window.centered {
                    self.config.window.movable = !self.config.window.movable;
                    r.push(Action::Save);
                    r.push(Action::Redraw);
                }
            },
            crate::layout::SettingControl::Resizable => {
                self.config.window.resizable = !self.config.window.resizable;
                r.push(Action::ApplyResizeStyle);
                r.push(Action::Save);
                r.push(Action::Redraw);
            },
        }
        r
    }

    /// The item on show under a point, when the grid takes the pointer.
    pub(crate) fn item_under(&self, x: i32, y: i32) -> (r: Option<usize>)
        requires
            self.wf(),
        ensures
            r == item_under(*self, x as int, y as int),
    {
        if self.view != Screen::Launcher || self.add_overlay_open {
            return None;
        }
        self.grid_item(x, y)
    }

    /// The item on show in the grid cell under a point.
    pub(crate) fn grid_item(&self, x: i32, y: i32) -> (r: Option<usize>)
        requires
            self.wf(),
        ensures
            r == grid_item(*self, x as int, y as int),
    {
        let count = self.visible_count();
        match self.layout.item_at(x, y) {
            Some(local) => if self.page_offset < count && local < count - self.page_offset {
                Some(self.page_offset + local)
            } else {
                None
            },
            None => None,
        }
    }

    /// Whether a point is on the scrollbar.
    pub(crate) fn scrollbar_contains(&self, x: i32, y: i32) -> (r: bool)
        ensures
            r == (self.view == Screen::Launcher && self.layout.scrollbar_visible
                && self.layout.scrollbar_track.has(x as int, y as int)),
    {
        self.view == Screen::Launcher && self.layout.scrollbar_visible
            && self.layout.scrollbar_track.contains(x, y)
    }

    /// The pointer moved: a menu follows it; otherwise hovering a tab
    /// switches to that category, and the hovered button, item and
    /// scrollbar are tracked.
    #[verifier::spinoff_prover]
    #[verifier::rlimit(80)]
    pub fn mouse_move(&mut self, x: i32, y: i32) -> (r: Vec<Action>)
        requires
            old(self).wf(),
        ensures
            final(self).wf(),
            old(self).menu matches Some(m) ==> {
                let moved = m.hovered_at(x as int, y as int);
                &&& *final(self) == (Launcher { menu: Some(moved), ..*old(self) })
                &&& r@ =~= (if moved.hovered != m.hovered {
                    seq![Action::Redraw]
                } else {
                    seq![]
                })
            },
            old(self).menu is None ==> {
                let a = *old(self);
                let enabled = !overlay_open(a);
                let tab = if a.view == Screen::Launcher && enabled {
                    tab_under(a, x as int, y as int)
                } else {
                    None
                };
                if tab is Some && tab->0 != a.config@.active_index() && tab->0 < a.config@.categories.len() {
                    category_selected(a, *final(self), tab->0, false, r@)
                } else {
                    let tool = if enabled {
                        a.layout.tool_at_spec(x as int, y as int, a.view)
                    } else {
                        None
                    };
                    let tool = if tool is Some && highlights(tool->0) {
                        tool
                    } else {
                        None
                    };
                    let bar = a.view == Screen::Launcher && a.layout.scrollbar_visible
                        && a.layout.scrollbar_track.has(x as int, y as int);
                    let item = if !bar && a.view == Screen::Launcher && enabled {
                        grid_item(a, x as int, y as int)
                    } else {
                        None
                    };
                    if item != a.hovered_item || tool != a.hovered_tool || bar != a.scrollbar_hover {
                        *final(self) == (Launcher {
                            hovered_item: item,
                            hovered_tool: tool,
                            scrollbar_hover: bar,
                            ..a
                        }) && r@ =~= seq![Action::Redraw]
                    } else {
                        *final(self) == a && r@.len() == 0
                    }
                }
            },
    {
        let mut r = Vec::new();
        if self.menu.is_some() {
            let mut menu = self.menu.take().unwrap();
            let previous = menu.hovered;
            let _ = menu.hover(x, y);
            let changed = menu.hovered != previous;
            self.menu = Some(menu);
            if changed {
                r.push(Action::Redraw);
            }
            return r;
        }
        let enabled = !self.add_overlay_open && (self.input_mode.is_none() || self.input_mode
            == Some(InputMode::Search));
        let tab = if self.view == Screen::Launcher && enabled {
            self.layout.category_at(x, y)
        } else {
            None
        };
        if let Some(k) = tab {
            let active = self.config.active_category_index();
            if k != active && k < self.config.categories.len() {
                return self.select_category(k, false);
            }
        }
        let tool = if enabled {
            match self.layout.tool_at(x, y, self.view) {
                Some(t) => match t {
                    crate::layout::ToolButton::Back | crate::layout::ToolButton::Search
                    | crate::layout::ToolButton::AddMenu | crate::layout::ToolButton::Settings
                    | crate::layout::ToolButton::Close => Some(t),
                    _ => None,
                },
                None => None,
            }
        } else {
            None
        };
        let bar = self.scrollbar_contains(x, y);
        let item = if !bar && self.view == Screen::Launcher && enabled {
            self.grid_item(x, y)
        } else {
            None
        };
        if item != self.hovered_item || tool != self.hovered_tool || bar != self.scrollbar_hover {
            self.hovered_item = item;
            self.hovered_tool = tool;
            self.scrollbar_hover = bar;
            r.push(Action::Redraw);
        }
        r
    }
}

/// What `menu_click` does.
#[verifier::opaque]
pub open spec fn menu_click_effect(a: Launcher, b: Launcher, x: int, y: int, taken: bool, r: Seq<Action>) -> bool {
    &&& (taken == a.menu is Some)
    &&& (a.menu is None ==> b == a && r.len() == 0)
    &&& (a.menu matches Some(m) ==> {
                let hit = m.hit_spec(x as int, y as int);
                if hit matches Some((false, i)) && m.root@[i as int] is Submenu {
                    b == (Launcher { menu: Some(m.hovered_at(x as int, y as int)), ..a })
                        && r =~= seq![Action::Redraw]
                } else {
                    menu_choice_effect(
                        a,
                        b,
                        m,
                        match hit {
                            Some((sub, i)) => m.command_spec(sub, i as int),
                            None => None,
                        },
                        r,
                    )
                }
            })
}

proof fn lemma_sorted_len(r: Seq<ItemModel>, s: Seq<ItemModel>)
    requires
        crate::sort::sorted_by_name(r, s),
    ensures
        r.len() == s.len(),
{
    let p = choose|p: Seq<int>| crate::sort::stable_order(r, s, p);
}

} // verus!
