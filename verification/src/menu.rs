//! In-window context menus: layout, hit testing, scrolling and keyboard
//! selection, with one level of submenu.
use crate::layout::{max2, min2, mk_rect, px, scale_px, Rect, MAX_DPI};
use crate::search::ItemRef;
use vstd::prelude::*;

verus! {

#[derive(Debug)]
pub enum MenuEntry {
    Command { id: u32, label: String, enabled: bool },
    Separator,
    Submenu { label: String, entries: Vec<MenuEntry> },
}

/// Whether an entry can be hovered and selected: an enabled command or a submenu.
pub open spec fn selectable(e: MenuEntry) -> bool {
    match e {
        MenuEntry::Command { enabled, .. } => enabled,
        MenuEntry::Separator => false,
        MenuEntry::Submenu { .. } => true,
    }
}

impl MenuEntry {
    pub fn selectable(&self) -> (r: bool)
        ensures
            r == selectable(*self),
    {
        match self {
            MenuEntry::Command { enabled, .. } => *enabled,
            MenuEntry::Separator => false,
            MenuEntry::Submenu { .. } => true,
        }
    }
}

#[derive(Clone, Copy, Debug, PartialEq, Eq, Structural)]
pub struct MenuRow {
    pub index: usize,
    pub rect: Rect,
    pub separator: bool,
    pub enabled: bool,
    pub submenu: bool,
}

/// A design length at a menu's DPI (never below 96), at least one pixel.
pub open spec fn scaled(v: int, dpi: int) -> int {
    let d = if dpi < 96 {
        96
    } else {
        dpi
    };
    if px(v, d) < 1 {
        1
    } else {
        px(v, d)
    }
}

/// Height of one menu row.
pub open spec fn entry_height(e: MenuEntry, dpi: int) -> int {
    if e is Separator {
        scaled(10, dpi)
    } else {
        scaled(34, dpi)
    }
}

/// Height of the first `n` rows.
pub open spec fn content_height(entries: Seq<MenuEntry>, n: int, dpi: int) -> int
    decreases n,
{
    if n <= 0 {
        0
    } else {
        content_height(entries, n - 1, dpi) + entry_height(entries[n - 1], dpi)
    }
}

/// `v` clamped into `[low, high]` (`i32::clamp`, with `low <= high`).
pub open spec fn clamp2(v: int, low: int, high: int) -> int {
    if v < low {
        low
    } else if v > high {
        high
    } else {
        v
    }
}

/// A menu panel opened at `anchor`: fixed width, as tall as its rows up to
/// the client height, flipped above the anchor when it would run past the
/// bottom, and kept inside the client area.
pub open spec fn panel_rect_spec(
    anchor: (i32, i32),
    client: Rect,
    entries: Seq<MenuEntry>,
    dpi: int,
) -> Rect {
    let width = scaled(220, dpi);
    let content = content_height(entries, entries.len() as int, dpi);
    let max_height = max2(client.h() - scaled(8, dpi), scaled(46, dpi));
    let height = min2(scaled(12, dpi) + content, max_height);
    let left = clamp2(anchor.0 as int, client.left as int, max2(client.right - width, client.left as int));
    let top0 = if anchor.1 + height <= client.bottom {
        anchor.1 as int
    } else {
        anchor.1 - height
    };
    let top = clamp2(top0, client.top as int, max2(client.bottom - height, client.top as int));
    mk_rect(left, top, left + width, top + height)
}

/// Rows that fit in `rect`, from entry `index` on with the next row's top at `top`.
pub open spec fn rows_from(
    entries: Seq<MenuEntry>,
    rect: Rect,
    dpi: int,
    index: int,
    top: int,
) -> Seq<MenuRow>
    decreases entries.len() - index,
{
    if index < 0 || index >= entries.len() {
        seq![]
    } else {
        let e = entries[index];
        let h = entry_height(e, dpi);
        if top + h > rect.bottom - scaled(6, dpi) {
            seq![]
        } else {
            seq![
                MenuRow {
                    index: index as usize,
                    rect: mk_rect(rect.left + scaled(4, dpi), top, rect.right - scaled(4, dpi), top + h),
                    separator: e is Separator,
                    enabled: selectable(e),
                    submenu: e is Submenu,
                },
            ] + rows_from(entries, rect, dpi, index + 1, top + h)
        }
    }
}

/// Index of the first enabled row, from `k` on, that contains the point.
pub open spec fn first_hit(rows: Seq<MenuRow>, x: int, y: int, k: int) -> Option<usize>
    decreases rows.len() - k,
{
    if k < 0 || k >= rows.len() {
        None
    } else if rows[k].rect.has(x, y) && rows[k].enabled {
        Some(rows[k].index)
    } else {
        first_hit(rows, x, y, k + 1)
    }
}

/// Indices of the selectable entries among the first `n`, in order.
pub open spec fn selectable_indices(entries: Seq<MenuEntry>, n: int) -> Seq<usize>
    decreases n,
{
    if n <= 0 {
        seq![]
    } else if selectable(entries[n - 1]) {
        selectable_indices(entries, n - 1).push((n - 1) as usize)
    } else {
        selectable_indices(entries, n - 1)
    }
}

/// Largest number of entries in a menu or submenu.
pub const MAX_ENTRIES: usize = 100_000;

/// Largest client-area coordinate a menu is laid out in.
pub const MAX_COORD: i32 = 1_000_000;

#[derive(Debug)]
pub struct MenuState {
    pub root: Vec<MenuEntry>,
    /// Index of the root entry whose submenu is open.
    pub submenu: Option<usize>,
    pub root_rect: Rect,
    pub submenu_rect: Option<Rect>,
    pub hovered: Option<(bool, usize)>,
    pub selected: Option<(bool, usize)>,
    pub scroll: usize,
    pub submenu_scroll: usize,
    pub target: Option<ItemRef>,
    /// Pixels per inch the menu is drawn at.
    pub dpi: u32,
    pub client: Rect,
}

/// Whether a rectangle's edges stay within `bound` of the origin.
pub open spec fn rect_within(r: Rect, bound: int) -> bool {
    -bound <= r.left <= bound && -bound <= r.right <= bound && -bound <= r.top <= bound && -bound
        <= r.bottom <= bound
}

/// Whether a list of entries (and each submenu in it) is small enough.
pub open spec fn entries_ok(entries: Seq<MenuEntry>) -> bool {
    &&& entries.len() <= MAX_ENTRIES
    &&& forall|i: int|
        0 <= i < entries.len() && (#[trigger] entries[i]) is Submenu ==> entries[i]->Submenu_entries@.len()
            <= MAX_ENTRIES
}

impl MenuState {
    /// The invariant every operation keeps: sizes and coordinates within
    /// range, an open submenu that is a submenu entry, offsets within the lists.
    pub open spec fn wf(self) -> bool {
        &&& self.dpi <= MAX_DPI
        &&& rect_within(self.client, MAX_COORD as int)
        &&& entries_ok(self.root@)
        &&& rect_within(self.root_rect, 4_000_000)
        &&& (self.submenu_rect matches Some(r) ==> rect_within(r, 5_000_000))
        &&& (self.submenu matches Some(i) ==> i < self.root@.len() && self.root@[i as int] is Submenu)
        &&& self.scroll <= self.root@.len()
        &&& self.submenu_scroll <= MAX_ENTRIES
    }

    /// Entries of the open submenu.
    pub open spec fn submenu_entries(self) -> Option<Seq<MenuEntry>> {
        match self.submenu {
            Some(i) => Some(self.root@[i as int]->Submenu_entries@),
            None => None,
        }
    }

    /// Entries of one of the two lists (`None` when no submenu is open).
    pub open spec fn list(self, submenu: bool) -> Option<Seq<MenuEntry>> {
        if submenu {
            self.submenu_entries()
        } else {
            Some(self.root@)
        }
    }

    /// Visible rows of the root list or of the open submenu.
    pub open spec fn rows_spec(self, submenu: bool) -> Seq<MenuRow> {
        match self.list(submenu) {
            None => seq![],
            Some(entries) => {
                let rect = if submenu {
                    match self.submenu_rect {
                        Some(r) => r,
                        None => mk_rect(0, 0, 0, 0),
                    }
                } else {
                    self.root_rect
                };
                let first = if submenu {
                    self.submenu_scroll
                } else {
                    self.scroll
                };
                rows_from(entries, rect, self.dpi as int, first as int, rect.top + scaled(6, self.dpi as int))
            },
        }
    }

    /// The enabled row under a point: submenu rows first, then root rows.
    pub open spec fn hit_spec(self, x: int, y: int) -> Option<(bool, usize)> {
        match first_hit(self.rows_spec(true), x, y, 0) {
            Some(i) => Some((true, i)),
            None => match first_hit(self.rows_spec(false), x, y, 0) {
                Some(i) => Some((false, i)),
                None => None,
            },
        }
    }

    /// The entry at `index` of a list.
    pub open spec fn entry_spec(self, submenu: bool, index: int) -> Option<MenuEntry> {
        match self.list(submenu) {
            Some(entries) => if 0 <= index < entries.len() {
                Some(entries[index])
            } else {
                None
            },
            None => None,
        }
    }

    /// The command id at `index` of a list, when that entry is an enabled command.
    pub open spec fn command_spec(self, submenu: bool, index: int) -> Option<u32> {
        match self.entry_spec(submenu, index) {
            Some(MenuEntry::Command { id, enabled, .. }) => if enabled {
                Some(id)
            } else {
                None
            },
            _ => None,
        }
    }
}

/// Exec `scaled`.
fn scaled_exec(value: i32, dpi: u32) -> (r: i32)
    requires
        0 <= value <= 1000,
        dpi <= MAX_DPI,
    ensures
        r == scaled(value as int, dpi as int),
        1 <= r <= 100 * value + 1,
{
    let d = if dpi < 96 {
        96
    } else {
        dpi
    };
    let p = scale_px(value, d);
    if p < 1 {
        1
    } else {
        p
    }
}

/// Height of the first `n` rows of a list, bounded by 3401 pixels per row.
fn content_height_exec(entries: &Vec<MenuEntry>, dpi: u32) -> (r: i32)
    requires
        entries@.len() <= MAX_ENTRIES,
        dpi <= MAX_DPI,
    ensures
        r == content_height(entries@, entries@.len() as int, dpi as int),
        0 <= r <= entries@.len() * 3401,
{
    let separator = scaled_exec(10, dpi);
    let normal = scaled_exec(34, dpi);
    let mut total: i32 = 0;
    let mut i: usize = 0;
    while i < entries.len()
        invariant
            entries@.len() <= MAX_ENTRIES,
            dpi <= MAX_DPI,
            separator == scaled(10, dpi as int),
            normal == scaled(34, dpi as int),
            1 <= separator <= 1001,
            1 <= normal <= 3401,
            i <= entries@.len(),
            total == content_height(entries@, i as int, dpi as int),
            0 <= total <= i * 3401,
        decreases entries@.len() - i,
    {
        let h = match &entries[i] {
            MenuEntry::Separator => separator,
            _ => normal,
        };
        total = total + h;
        i += 1;
    }
    total
}

/// Exec `panel_rect_spec`.
fn panel_rect(anchor: (i32, i32), client: Rect, entries: &Vec<MenuEntry>, dpi: u32) -> (r: Rect)
    requires
        entries@.len() <= MAX_ENTRIES,
        dpi <= MAX_DPI,
        rect_within(client, MAX_COORD as int),
    ensures
        r == panel_rect_spec(anchor, client, entries@, dpi as int),
        rect_within(r, 4_000_000),
{
    let width = scaled_exec(220, dpi);
    let content = content_height_exec(entries, dpi);
    let limit = (client.bottom - client.top) - scaled_exec(8, dpi);
    let least = scaled_exec(46, dpi);
    let max_height = if limit > least {
        limit
    } else {
        least
    };
    let wanted = scaled_exec(12, dpi) + content;
    let height = if wanted < max_height {
        wanted
    } else {
        max_height
    };
    let right_limit = if client.right - width > client.left {
        client.right - width
    } else {
        client.left
    };
    let left = if anchor.0 < client.left {
        client.left
    } else if anchor.0 > right_limit {
        right_limit
    } else {
        anchor.0
    };
    let top0: i64 = if anchor.1 as i64 + height as i64 <= client.bottom as i64 {
        anchor.1 as i64
    } else {
        anchor.1 as i64 - height as i64
    };
    let bottom_limit = if client.bottom - height > client.top {
        client.bottom - height
    } else {
        client.top
    };
    let top = if top0 < client.top as i64 {
        client.top
    } else if top0 > bottom_limit as i64 {
        bottom_limit
    } else {
        top0 as i32
    };
    Rect { left, top, right: left + width, bottom: top + height }
}

/// Top edge of the row for entry `index`, searching rows from `k` on.
pub open spec fn row_top(rows: Seq<MenuRow>, index: usize, k: int) -> Option<int>
    decreases rows.len() - k,
{
    if k < 0 || k >= rows.len() {
        None
    } else if rows[k].index == index {
        Some(rows[k].rect.top as int)
    } else {
        row_top(rows, index, k + 1)
    }
}

/// Position of `value` in `s`, searching from `k` on.
pub open spec fn position_of(s: Seq<usize>, value: usize, k: int) -> Option<int>
    decreases s.len() - k,
{
    if k < 0 || k >= s.len() {
        None
    } else if s[k] == value {
        Some(k)
    } else {
        position_of(s, value, k + 1)
    }
}

/// Whether some row is for entry `index`.
pub open spec fn shows_index(rows: Seq<MenuRow>, index: usize) -> bool {
    exists|k: int| 0 <= k < rows.len() && (#[trigger] rows[k]).index == index
}

impl MenuState {
    /// Where the submenu of root entry `index` opens: beside the root panel
    /// at the height of that entry's row, flipped to the left of the root
    /// panel when it would run past the client's right edge.
    pub open spec fn opened_rect(self, index: usize) -> Rect {
        let entries = self.root@[index as int]->Submenu_entries@;
        let dpi = self.dpi as int;
        let top = match row_top(self.rows_spec(false), index, 0) {
            Some(t) => t,
            None => self.root_rect.top as int,
        };
        let rect = panel_rect_spec(
            ((self.root_rect.right - scaled(4, dpi)) as i32, top as i32),
            self.client,
            entries,
            dpi,
        );
        let width = rect.w();
        if self.root_rect.right + width > self.client.right {
            let left = max2(self.root_rect.left - width, self.client.left as int);
            mk_rect(left, rect.top as int, left + width, rect.bottom as int)
        } else {
            rect
        }
    }

    /// The menu with the submenu of root entry `index` open and scrolled to its top.
    pub open spec fn opened(self, index: usize) -> MenuState {
        MenuState {
            submenu: Some(index),
            submenu_scroll: 0,
            submenu_rect: Some(self.opened_rect(index)),
            ..self
        }
    }

    /// The menu after the pointer moved to a point: the hovered row
    /// follows it; a hovered submenu entry opens its submenu and any other
    /// hovered root entry closes the open one.
    pub open spec fn hovered_at(self, x: int, y: int) -> MenuState {
        let hit = self.hit_spec(x, y);
        let s = MenuState { hovered: hit, ..self };
        match hit {
            Some((false, i)) => if self.root@[i as int] is Submenu {
                s.opened(i)
            } else {
                MenuState { submenu: None, submenu_rect: None, ..s }
            },
            _ => s,
        }
    }

    /// The menu with the scroll offset of one list set.
    pub open spec fn with_offset(self, submenu: bool, offset: int) -> MenuState {
        if submenu {
            MenuState { submenu_scroll: offset as usize, ..self }
        } else {
            MenuState { scroll: offset as usize, ..self }
        }
    }

    /// Scroll offset of one list.
    pub open spec fn offset(self, submenu: bool) -> int {
        if submenu {
            self.submenu_scroll as int
        } else {
            self.scroll as int
        }
    }

    /// The panel a list is drawn in (an empty rectangle for a submenu
    /// without one).
    pub open spec fn panel(self, submenu: bool) -> Rect {
        if submenu {
            match self.submenu_rect {
                Some(r) => r,
                None => mk_rect(0, 0, 0, 0),
            }
        } else {
            self.root_rect
        }
    }

    /// The menu after a wheel step: the list under the pointer moves one row,
    /// never before its first entry nor past the point where its last entry shows.
    pub open spec fn scrolled(self, delta: i32) -> MenuState {
        let sub = (self.hovered matches Some((true, _))) && self.submenu is Some;
        let visible = max2(self.rows_spec(sub).len() as int, 1);
        let total = self.list(sub)->0.len() as int;
        let last = max2(total - visible, 0);
        let offset = self.offset(sub);
        if delta > 0 {
            self.with_offset(sub, min2(offset + 1, last))
        } else if delta < 0 {
            self.with_offset(sub, max2(offset - 1, 0))
        } else {
            self
        }
    }

    /// The menu scrolled so that the selected row shows.
    pub open spec fn revealed(self) -> MenuState {
        match self.selected {
            None => self,
            Some((sub, index)) => {
                let rows = self.rows_spec(sub);
                let offset = self.offset(sub);
                if shows_index(rows, index) {
                    self
                } else if index < offset {
                    self.with_offset(sub, index as int)
                } else if rows.len() > 0 {
                    self.with_offset(sub, offset + max2(index - rows.last().index, 0))
                } else {
                    self
                }
            },
        }
    }

    /// The menu after moving the keyboard selection by one selectable entry
    /// (`delta < 0` up, otherwise down), staying in the list that holds the
    /// selection and stopping at its ends; without a selection it starts at
    /// the last (up) or first (down) selectable entry.
    pub open spec fn selected_next(self, delta: i32) -> MenuState {
        let sub = (self.selected matches Some((true, _))) && self.submenu is Some;
        let entries = self.list(sub)->0;
        let sel = selectable_indices(entries, entries.len() as int);
        if sel.len() == 0 {
            MenuState { selected: None, ..self }
        } else {
            let current = match self.selected {
                Some((s, i)) => if s == sub {
                    position_of(sel, i, 0)
                } else {
                    None
                },
                None => None,
            };
            let next = match current {
                Some(k) => if delta < 0 {
                    max2(k - 1, 0)
                } else {
                    min2(k + 1, sel.len() - 1)
                },
                None => if delta < 0 {
                    sel.len() - 1
                } else {
                    0
                },
            };
            MenuState { selected: Some((sub, sel[next])), ..self }.revealed()
        }
    }

    /// The menu after opening the selected submenu from the keyboard: the
    /// selection moves to its first selectable entry (or is cleared).
    pub open spec fn entered(self) -> MenuState {
        match self.selected {
            Some((false, index)) => if index < self.root@.len() && self.root@[index as int] is Submenu {
                let entries = self.root@[index as int]->Submenu_entries@;
                let sel = selectable_indices(entries, entries.len() as int);
                MenuState {
                    selected: if sel.len() > 0 {
                        Some((true, sel[0]))
                    } else {
                        None
                    },
                    ..self.opened(index)
                }
            } else {
                self
            },
            _ => self,
        }
    }
}

/// Exec `rows_from` from entry `first`.
fn layout_rows(entries: &Vec<MenuEntry>, rect: Rect, dpi: u32, first: usize) -> (rows: Vec<MenuRow>)
    requires
        dpi <= MAX_DPI,
        rect_within(rect, 5_000_000),
    ensures
        rows@ == rows_from(entries@, rect, dpi as int, first as int, rect.top + scaled(6, dpi as int)),
        forall|k: int|
            0 <= k < rows@.len() ==> first <= (#[trigger] rows@[k]).index < entries@.len() && rect.top
                <= rows@[k].rect.top <= rect.bottom,
{
    let normal = scaled_exec(34, dpi);
    let separator = scaled_exec(10, dpi);
    let margin = scaled_exec(6, dpi);
    let inset = scaled_exec(4, dpi);
    let ghost d = dpi as int;
    let ghost start = rect.top + scaled(6, d);
    let mut rows: Vec<MenuRow> = Vec::new();
    let mut top = rect.top + margin;
    let mut index = first;
    while index < entries.len()
        invariant
            dpi <= MAX_DPI,
            rect_within(rect, 5_000_000),
            d == dpi as int,
            start == rect.top + scaled(6, d),
            normal == scaled(34, d),
            separator == scaled(10, d),
            margin == scaled(6, d),
            inset == scaled(4, d),
            1 <= normal <= 3401,
            1 <= separator <= 1001,
            1 <= margin <= 601,
            1 <= inset <= 401,
            rect.top <= top <= 5_004_000,
            index >= first,
            rows@ + rows_from(entries@, rect, d, index as int, top as int) == rows_from(
                entries@,
                rect,
                d,
                first as int,
                start,
            ),
            forall|k: int|
                0 <= k < rows@.len() ==> first <= (#[trigger] rows@[k]).index < entries@.len() && rect.top
                    <= rows@[k].rect.top <= rect.bottom,
        decreases entries@.len() - index,
    {
        let entry = &entries[index];
        let is_separator = match entry {
            MenuEntry::Separator => true,
            _ => false,
        };
        let height = if is_separator {
            separator
        } else {
            normal
        };
        proof {
            assert(entries@[index as int] == *entry);
            assert(entry_height(entries@[index as int], d) == height);
        }
        if top + height > rect.bottom - margin {
            assert(rows_from(entries@, rect, d, index as int, top as int) =~= Seq::<MenuRow>::empty());
            assert(rows@ =~= rows@ + rows_from(entries@, rect, d, index as int, top as int));
            return rows;
        }
        let is_submenu = match entry {
            MenuEntry::Submenu { .. } => true,
            _ => false,
        };
        let row = MenuRow {
            index,
            rect: Rect {
                left: rect.left + inset,
                top,
                right: rect.right - inset,
                bottom: top + height,
            },
            separator: is_separator,
            enabled: entry.selectable(),
            submenu: is_submenu,
        };
        let ghost before = rows@;
        rows.push(row);
        proof {
            let rest = rows_from(entries@, rect, d, index + 1, top + height);
            assert(rows_from(entries@, rect, d, index as int, top as int) == seq![row] + rest);
            assert(rows@ + rest =~= before + (seq![row] + rest));
        }
        top = top + height;
        index += 1;
    }
    assert(rows@ =~= rows@ + rows_from(entries@, rect, d, index as int, top as int));
    rows
}

/// Exec `first_hit` from row 0.
fn first_enabled_hit(rows: &Vec<MenuRow>, x: i32, y: i32) -> (r: Option<usize>)
    ensures
        r == first_hit(rows@, x as int, y as int, 0),
{
    let mut k: usize = 0;
    while k < rows.len()
        invariant
            k <= rows@.len(),
            first_hit(rows@, x as int, y as int, 0) == first_hit(rows@, x as int, y as int, k as int),
        decreases rows@.len() - k,
    {
        if rows[k].rect.contains(x, y) && rows[k].enabled {
            return Some(rows[k].index);
        }
        k += 1;
    }
    None
}

/// Exec `selectable_indices` over a whole list.
fn selectable_positions(entries: &Vec<MenuEntry>) -> (r: Vec<usize>)
    ensures
        r@ == selectable_indices(entries@, entries@.len() as int),
        forall|k: int| 0 <= k < r@.len() ==> (#[trigger] r@[k]) < entries@.len(),
{
    let mut r: Vec<usize> = Vec::new();
    let mut i: usize = 0;
    while i < entries.len()
        invariant
            i <= entries@.len(),
            r@ == selectable_indices(entries@, i as int),
            forall|k: int| 0 <= k < r@.len() ==> (#[trigger] r@[k]) < i,
        decreases entries@.len() - i,
    {
        if entries[i].selectable() {
            r.push(i);
        }
        i += 1;
    }
    r
}

impl MenuState {
    pub fn new(
        entries: Vec<MenuEntry>,
        anchor: (i32, i32),
        client: Rect,
        dpi: u32,
        target: Option<ItemRef>,
    ) -> (r: Self)
        requires
            entries_ok(entries@),
            rect_within(client, MAX_COORD as int),
            dpi <= MAX_DPI,
        ensures
            r.wf(),
            r.root@ == entries@,
            r.root_rect == panel_rect_spec(anchor, client, entries@, dpi as int),
            r.submenu is None,
            r.submenu_rect is None,
            r.hovered is None,
            r.selected is None,
            r.scroll == 0,
            r.submenu_scroll == 0,
            r.target == target,
            r.dpi == dpi,
            r.client == client,
    {
        let root_rect = panel_rect(anchor, client, &entries, dpi);
        MenuState {
            root: entries,
            submenu: None,
            root_rect,
            submenu_rect: None,
            hovered: None,
            selected: None,
            scroll: 0,
            submenu_scroll: 0,
            target,
            dpi,
            client,
        }
    }

    /// Entries of the open submenu.
    fn submenu_list(&self) -> (r: Option<&Vec<MenuEntry>>)
        requires
            self.wf(),
        ensures
            r matches Some(v) ==> self.submenu_entries() == Some(v@) && v@.len() <= MAX_ENTRIES,
            r is None ==> self.submenu_entries() is None,
    {
        match self.submenu {
            Some(index) => match &self.root[index] {
                MenuEntry::Submenu { entries, .. } => {
                    proof {
                        assert(self.root@[index as int] is Submenu);
                        assert(entries_ok(self.root@));
                    }
                    Some(entries)
                },
                _ => None,
            },
            None => None,
        }
    }

    /// Visible rows of the root list or of the open submenu.
    pub fn rows(&self, submenu: bool) -> (r: Vec<MenuRow>)
        requires
            self.wf(),
        ensures
            r@ == self.rows_spec(submenu),
            forall|k: int|
                0 <= k < r@.len() ==> self.offset(submenu) <= (#[trigger] r@[k]).index < self.list(
                    submenu,
                )->0.len() && -5_000_000 <= r@[k].rect.top <= 5_000_000,
    {
        if submenu {
            match self.submenu_list() {
                None => Vec::new(),
                Some(entries) => {
                    let rect = match self.submenu_rect {
                        Some(r) => r,
                        None => Rect { left: 0, top: 0, right: 0, bottom: 0 },
                    };
                    layout_rows(entries, rect, self.dpi, self.submenu_scroll)
                },
            }
        } else {
            layout_rows(&self.root, self.root_rect, self.dpi, self.scroll)
        }
    }

    /// The enabled row under a point: submenu rows first, then root rows.
    pub fn hit(&self, x: i32, y: i32) -> (r: Option<(bool, usize)>)
        requires
            self.wf(),
        ensures
            r == self.hit_spec(x as int, y as int),
            r matches Some((sub, i)) ==> i < self.list(sub)->0.len(),
    {
        let rows = self.rows(true);
        if let Some(index) = first_enabled_hit(&rows, x, y) {
            proof {
                lemma_first_hit_in(rows@, x as int, y as int, 0);
            }
            return Some((true, index));
        }
        let rows = self.rows(false);
        match first_enabled_hit(&rows, x, y) {
            Some(index) => {
                proof {
                    lemma_first_hit_in(rows@, x as int, y as int, 0);
                }
                Some((false, index))
            },
            None => None,
        }
    }

    /// Follows the pointer: see `hovered_at`. Returns the row under it.
    pub fn hover(&mut self, x: i32, y: i32) -> (r: Option<(bool, usize)>)
        requires
            old(self).wf(),
        ensures
            final(self).wf(),
            r == old(self).hit_spec(x as int, y as int),
            *final(self) == old(self).hovered_at(x as int, y as int),
    {
        let hit = self.hit(x, y);
        self.hovered = hit;
        if let Some((false, index)) = hit {
            let is_submenu = match &self.root[index] {
                MenuEntry::Submenu { .. } => true,
                _ => false,
            };
            if is_submenu {
                self.open_submenu(index);
            } else {
                self.submenu = None;
                self.submenu_rect = None;
            }
        }
        hit
    }

    /// Opens the submenu of root entry `index` (nothing happens for another kind of entry).
    fn open_submenu(&mut self, index: usize)
        requires
            old(self).wf(),
            index < old(self).root@.len(),
        ensures
            final(self).wf(),
            old(self).root@[index as int] is Submenu ==> *final(self) == old(self).opened(index),
            !(old(self).root@[index as int] is Submenu) ==> *final(self) == *old(self),
    {
        let entries = match &self.root[index] {
            MenuEntry::Submenu { entries, .. } => entries,
            _ => return ,
        };
        let dpi = self.dpi;
        let rows = self.rows(false);
        let top = match find_row_top(&rows, index) {
            Some(t) => t,
            None => self.root_rect.top,
        };
        let inset = scaled_exec(4, dpi);
        let mut rect = panel_rect((self.root_rect.right - inset, top), self.client, entries, dpi);
        let width = rect.right - rect.left;
        if self.root_rect.right + width > self.client.right {
            let candidate = self.root_rect.left - width;
            rect.left = if candidate > self.client.left {
                candidate
            } else {
                self.client.left
            };
            rect.right = rect.left + width;
        }
        self.submenu = Some(index);
        self.submenu_scroll = 0;
        self.submenu_rect = Some(rect);
    }

    /// Moves the list under the pointer by one row: see `scrolled`.
    pub fn scroll(&mut self, delta: i32)
        requires
            old(self).wf(),
        ensures
            final(self).wf(),
            *final(self) == old(self).scrolled(delta),
    {
        let submenu = match self.hovered {
            Some((true, _)) => self.submenu.is_some(),
            _ => false,
        };
        let rows = self.rows(submenu);
        let visible = if rows.len() > 1 {
            rows.len()
        } else {
            1
        };
        let total = if submenu {
            match self.submenu_list() {
                Some(entries) => entries.len(),
                None => 0,
            }
        } else {
            self.root.len()
        };
        let last = if total > visible {
            total - visible
        } else {
            0
        };
        if submenu {
            if delta > 0 {
                self.submenu_scroll = if self.submenu_scroll + 1 < last {
                    self.submenu_scroll + 1
                } else {
                    last
                };
            } else if delta < 0 {
                self.submenu_scroll = if self.submenu_scroll > 0 {
                    self.submenu_scroll - 1
                } else {
                    0
                };
            }
        } else {
            if delta > 0 {
                self.scroll = if self.scroll + 1 < last {
                    self.scroll + 1
                } else {
                    last
                };
            } else if delta < 0 {
                self.scroll = if self.scroll > 0 {
                    self.scroll - 1
                } else {
                    0
                };
            }
        }
    }

    /// Moves the keyboard selection: see `selected_next`.
    pub fn select_next(&mut self, delta: i32)
        requires
            old(self).wf(),
        ensures
            final(self).wf(),
            *final(self) == old(self).selected_next(delta),
    {
        let submenu = match self.selected {
            Some((true, _)) => self.submenu.is_some(),
            _ => false,
        };
        let selectable = if submenu {
            match self.submenu_list() {
                Some(entries) => selectable_positions(entries),
                None => Vec::new(),
            }
        } else {
            selectable_positions(&self.root)
        };
        if selectable.len() == 0 {
            self.selected = None;
            return ;
        }
        let current = match self.selected {
            Some((flag, index)) => if flag == submenu {
                position_in(&selectable, index)
            } else {
                None
            },
            None => None,
        };
        let next = match current {
            Some(k) => if delta < 0 {
                if k > 0 {
                    k - 1
                } else {
                    0
                }
            } else if k + 1 < selectable.len() {
                k + 1
            } else {
                selectable.len() - 1
            },
            None => if delta < 0 {
                selectable.len() - 1
            } else {
                0
            },
        };
        self.selected = Some((submenu, selectable[next]));
        self.ensure_selected_visible();
    }

    /// Scrolls the list holding the selection so that the selected row shows.
    fn ensure_selected_visible(&mut self)
        requires
            old(self).wf(),
            old(self).selected matches Some((sub, i)) ==> old(self).list(sub) is Some && i < old(
                self,
            ).list(sub)->0.len(),
        ensures
            final(self).wf(),
            *final(self) == old(self).revealed(),
    {
        let (submenu, selected) = match self.selected {
            None => return ,
            Some(value) => value,
        };
        let visible = self.rows(submenu);
        if shows_row(&visible, selected) {
            return ;
        }
        let offset = if submenu {
            self.submenu_scroll
        } else {
            self.scroll
        };
        let new_offset = if selected < offset {
            selected
        } else if visible.len() > 0 {
            let last = visible[visible.len() - 1].index;
            offset + if selected > last {
                selected - last
            } else {
                0
            }
        } else {
            return ;
        };
        if submenu {
            self.submenu_scroll = new_offset;
        } else {
            self.scroll = new_offset;
        }
    }

    /// Opens the selected submenu from the keyboard: see `entered`.
    pub fn enter_submenu(&mut self)
        requires
            old(self).wf(),
        ensures
            final(self).wf(),
            *final(self) == old(self).entered(),
    {
        let index = match self.selected {
            Some((false, index)) => index,
            _ => return ,
        };
        if index >= self.root.len() {
            return ;
        }
        let first = match &self.root[index] {
            MenuEntry::Submenu { entries, .. } => {
                let positions = selectable_positions(entries);
                if positions.len() > 0 {
                    Some(positions[0])
                } else {
                    None
                }
            },
            _ => return ,
        };
        self.open_submenu(index);
        self.selected = match first {
            Some(i) => Some((true, i)),
            None => None,
        };
    }

    /// Moves the keyboard selection back to the entry that opened the submenu.
    pub fn leave_submenu(&mut self)
        requires
            old(self).wf(),
        ensures
            final(self).wf(),
            *final(self) == (match old(self).submenu {
                Some(parent) => MenuState { selected: Some((false, parent)), ..*old(self) },
                None => *old(self),
            }),
    {
        if let Some(parent) = self.submenu {
            self.selected = Some((false, parent));
        }
    }

    /// Command id of the selected entry, when it is an enabled command.
    pub fn selected_command(&self) -> (r: Option<u32>)
        requires
            self.wf(),
        ensures
            r == (match self.selected {
                Some((sub, i)) => self.command_spec(sub, i as int),
                None => None,
            }),
    {
        match self.selected {
            Some((submenu, index)) => self.command_at(submenu, index),
            None => None,
        }
    }

    pub fn entry(&self, submenu: bool, index: usize) -> (r: Option<&MenuEntry>)
        requires
            self.wf(),
        ensures
            r matches Some(e) ==> self.entry_spec(submenu, index as int) == Some(*e),
            r is None ==> self.entry_spec(submenu, index as int) is None,
    {
        if submenu {
            match self.submenu_list() {
                Some(entries) => if index < entries.len() {
                    Some(&entries[index])
                } else {
                    None
                },
                None => None,
            }
        } else if index < self.root.len() {
            Some(&self.root[index])
        } else {
            None
        }
    }

    pub fn command_at(&self, submenu: bool, index: usize) -> (r: Option<u32>)
        requires
            self.wf(),
        ensures
            r == self.command_spec(submenu, index as int),
    {
        match self.entry(submenu, index) {
            Some(MenuEntry::Command { id, enabled, .. }) => if *enabled {
                Some(*id)
            } else {
                None
            },
            _ => None,
        }
    }
}

/// Position of a value in a strictly increasing list.
fn position_in(values: &Vec<usize>, value: usize) -> (r: Option<usize>)
    ensures
        r matches Some(k) ==> position_of(values@, value, 0) == Some(k as int) && k < values@.len(),
        r is None ==> position_of(values@, value, 0) is None,
{
    let mut k: usize = 0;
    while k < values.len()
        invariant
            k <= values@.len(),
            position_of(values@, value, 0) == position_of(values@, value, k as int),
        decreases values@.len() - k,
    {
        if values[k] == value {
            return Some(k);
        }
        k += 1;
    }
    None
}

proof fn lemma_first_hit_in(rows: Seq<MenuRow>, x: int, y: int, k: int)
    ensures
        first_hit(rows, x, y, k) matches Some(i) ==> exists|j: int| 0 <= j < rows.len() && rows[j].index == i,
    decreases rows.len() - k,
{
    if !(k < 0 || k >= rows.len()) && !(rows[k].rect.has(x, y) && rows[k].enabled) {
        lemma_first_hit_in(rows, x, y, k + 1);
    }
}

/// Exec `row_top` from row 0.
fn find_row_top(rows: &Vec<MenuRow>, index: usize) -> (r: Option<i32>)
    ensures
        r matches Some(t) ==> row_top(rows@, index, 0) == Some(t as int),
        r is None ==> row_top(rows@, index, 0) is None,
        r matches Some(t) ==> exists|k: int| 0 <= k < rows@.len() && (#[trigger] rows@[k]).rect.top == t,
{
    let mut k: usize = 0;
    while k < rows.len()
        invariant
            k <= rows@.len(),
            row_top(rows@, index, 0) == row_top(rows@, index, k as int),
        decreases rows@.len() - k,
    {
        if rows[k].index == index {
            return Some(rows[k].rect.top);
        }
        k += 1;
    }
    None
}

/// Exec `shows_index`.
fn shows_row(rows: &Vec<MenuRow>, index: usize) -> (r: bool)
    ensures
        r == shows_index(rows@, index),
{
    let mut k: usize = 0;
    while k < rows.len()
        invariant
            k <= rows@.len(),
            forall|j: int| 0 <= j < k ==> (#[trigger] rows@[j]).index != index,
        decreases rows@.len() - k,
    {
        if rows[k].index == index {
            assert(shows_index(rows@, index));
            return true;
        }
        k += 1;
    }
    false
}

} // verus!
