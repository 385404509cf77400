//! Geometry of the launcher window at a given size and DPI.
//!
//! Every length is a 96-DPI design length scaled by `dpi / 96` and rounded
//! half up (`px`), computed exactly in integers.
use crate::text::chars_of;
use vstd::prelude::*;

verus! {

#[derive(Clone, Copy, Debug, PartialEq, Eq, Structural)]
pub struct Rect {
    pub left: i32,
    pub top: i32,
    pub right: i32,
    pub bottom: i32,
}

/// A rectangle from integer edges.
pub open spec fn mk_rect(left: int, top: int, right: int, bottom: int) -> Rect {
    Rect { left: left as i32, top: top as i32, right: right as i32, bottom: bottom as i32 }
}

/// Whether an integer is an `i32`.
pub open spec fn fits_i32(v: int) -> bool {
    i32::MIN <= v <= i32::MAX
}

impl Default for Rect {
    fn default() -> (r: Self)
        ensures
            r == mk_rect(0, 0, 0, 0),
    {
        Rect { left: 0, top: 0, right: 0, bottom: 0 }
    }
}

impl Rect {
    /// Half-open containment: left and top edges inside, right and bottom outside.
    pub open spec fn has(self, x: int, y: int) -> bool {
        self.left <= x < self.right && self.top <= y < self.bottom
    }

    pub open spec fn w(self) -> int {
        self.right - self.left
    }

    pub open spec fn h(self) -> int {
        self.bottom - self.top
    }

    pub fn contains(self, x: i32, y: i32) -> (r: bool)
        ensures
            r == self.has(x as int, y as int),
    {
        x >= self.left && x < self.right && y >= self.top && y < self.bottom
    }

    pub fn width(self) -> (r: i32)
        requires
            fits_i32(self.w()),
        ensures
            r == self.w(),
    {
        self.right - self.left
    }

    pub fn height(self) -> (r: i32)
        requires
            fits_i32(self.h()),
        ensures
            r == self.h(),
    {
        self.bottom - self.top
    }

    /// The rectangle shrunk by `value` on every side.
    pub fn inset(self, value: i32) -> (r: Self)
        requires
            fits_i32(self.left + value),
            fits_i32(self.top + value),
            fits_i32(self.right - value),
            fits_i32(self.bottom - value),
        ensures
            r == mk_rect(
                self.left + value,
                self.top + value,
                self.right - value,
                self.bottom - value,
            ),
    {
        Rect {
            left: self.left + value,
            top: self.top + value,
            right: self.right - value,
            bottom: self.bottom - value,
        }
    }
}

#[derive(Clone, Copy, Debug, PartialEq, Eq, Structural)]
pub enum Screen {
    Launcher,
    Settings,
}

#[derive(Clone, Copy, Debug, PartialEq, Eq, Structural)]
pub enum ToolButton {
    Back,
    Search,
    AddMenu,
    Settings,
    Close,
    CategoryLeft,
    CategoryRight,
    CategoryMore,
}

#[derive(Clone, Copy, Debug, PartialEq, Eq, Structural)]
pub enum SettingControl {
    Hotkey,
    Startup,
    DoubleClick,
    Centered,
    Movable,
    Resizable,
}

/// Largest window extent, in pixels, that layout is computed for.
pub const MAX_EXTENT: i32 = 100_000;

/// Smallest DPI that layout is computed for.
pub const MIN_DPI: u32 = 24;

/// Largest DPI that layout is computed for.
pub const MAX_DPI: u32 = 9600;

/// Largest number of items or categories that layout is computed for.
pub const MAX_COUNT: usize = 1_000_000_000;

/// A 96-DPI design length at `dpi`, rounded half up.
pub open spec fn px(v: int, dpi: int) -> int {
    (2 * v * dpi + 96) / 192
}

/// Exec `px`.
pub fn scale_px(value: i32, dpi: u32) -> (r: i32)
    requires
        0 <= value <= 1000,
        dpi <= MAX_DPI,
    ensures
        r == px(value as int, dpi as int),
        0 <= r <= 100 * value + 1,
{
    let v = value as i64;
    let d = dpi as i64;
    proof {
        assert(0 <= v * d <= 9_600_000) by (nonlinear_arith)
            requires
                0 <= v <= 1000,
                0 <= d <= 9600,
        ;
        assert((2 * v * d + 96) / 192 <= 100 * v + 1) by (nonlinear_arith)
            requires
                0 <= v <= 1000,
                0 <= d <= 9600,
        ;
    }
    ((2 * v * d + 96) / 192) as i32
}

/// `rect` moved `amount` pixels to the left.
pub open spec fn shifted_left(rect: Rect, amount: int) -> Rect {
    Rect { left: (rect.left - amount) as i32, right: (rect.right - amount) as i32, ..rect }
}

fn shift_left(rect: Rect, amount: i32) -> (r: Rect)
    requires
        fits_i32(rect.left - amount),
        fits_i32(rect.right - amount),
    ensures
        r == shifted_left(rect, amount as int),
{
    Rect { left: rect.left - amount, right: rect.right - amount, ..rect }
}

/// Integer division rounding toward zero, as Rust's `/` does, by a positive divisor.
pub open spec fn div_trunc(a: int, b: int) -> int {
    if a >= 0 {
        a / b
    } else {
        -((-a) / b)
    }
}

pub(crate) fn div_trunc_exec(a: i64, b: i64) -> (r: i64)
    requires
        b > 0,
        a > i64::MIN,
    ensures
        r == div_trunc(a as int, b as int),
{
    if a >= 0 {
        a / b
    } else {
        -((-a) / b)
    }
}

/// `(v / d).max(1)` for a positive divisor.
pub open spec fn at_least_one(a: int, b: int) -> int {
    if div_trunc(a, b) < 1 {
        1
    } else {
        div_trunc(a, b)
    }
}

/// Abstract inputs of a layout.
pub struct LayoutInputModel {
    pub width: i32,
    pub height: i32,
    pub dpi: u32,
    pub view: Screen,
    pub category_names: Seq<Seq<char>>,
    pub category_start: usize,
    pub search_mode: bool,
    pub item_count: usize,
}

/// Inputs describing the window state that layout depends on.
#[derive(Clone, Copy, Debug)]
pub struct LayoutInput<'a> {
    pub width: i32,
    pub height: i32,
    pub dpi: u32,
    pub view: Screen,
    pub category_names: &'a [String],
    pub category_start: usize,
    pub search_mode: bool,
    pub item_count: usize,
}

impl<'a> View for LayoutInput<'a> {
    type V = LayoutInputModel;

    open spec fn view(&self) -> LayoutInputModel {
        LayoutInputModel {
            width: self.width,
            height: self.height,
            dpi: self.dpi,
            view: self.view,
            category_names: self.category_names@.map_values(|name: String| name@),
            category_start: self.category_start,
            search_mode: self.search_mode,
            item_count: self.item_count,
        }
    }
}

impl LayoutInputModel {
    /// The window sizes, DPI and counts for which layout is computed: a
    /// window up to `MAX_EXTENT` pixels on a side, a DPI between `MIN_DPI`
    /// and `MAX_DPI`, and at most `MAX_COUNT` items and categories.
    pub open spec fn in_range(self) -> bool {
        &&& 0 <= self.width <= MAX_EXTENT
        &&& 0 <= self.height <= MAX_EXTENT
        &&& MIN_DPI <= self.dpi <= MAX_DPI
        &&& self.item_count <= MAX_COUNT
        &&& self.category_names.len() <= MAX_COUNT
    }

    pub open spec fn p(self, v: int) -> int {
        px(v, self.dpi as int)
    }

    pub open spec fn close_button(self) -> Rect {
        mk_rect(
            self.width - self.p(40) - self.p(4),
            self.p(3),
            self.width - self.p(4),
            self.p(43),
        )
    }

    pub open spec fn settings_button(self) -> Rect {
        shifted_left(self.close_button(), self.p(40))
    }

    pub open spec fn add_button(self) -> Rect {
        shifted_left(self.settings_button(), self.p(40))
    }

    pub open spec fn search_button(self) -> Rect {
        shifted_left(self.add_button(), self.p(40))
    }

    pub open spec fn back_button(self) -> Rect {
        mk_rect(self.p(6), self.p(3), self.p(46), self.p(43))
    }

    pub open spec fn title(self) -> Rect {
        if self.view == Screen::Settings {
            mk_rect(self.p(52), 0, self.p(220), self.p(46))
        } else {
            mk_rect(self.p(18), 0, self.p(180), self.p(46))
        }
    }

    pub open spec fn drag_area(self) -> Rect {
        mk_rect(
            self.title().right as int,
            0,
            if self.view == Screen::Settings {
                self.close_button().left as int
            } else {
                self.search_button().left as int
            },
            self.p(46),
        )
    }

    pub open spec fn category_more(self) -> Rect {
        mk_rect(self.width - self.p(34) - self.p(8), self.p(50), self.width - self.p(8), self.p(84))
    }

    pub open spec fn category_right(self) -> Rect {
        shifted_left(self.category_more(), self.p(34))
    }

    pub open spec fn category_left(self) -> Rect {
        shifted_left(self.category_right(), self.p(34))
    }

    /// Width of the tab of a category name with `chars` characters.
    pub open spec fn tab_width(self, chars: int) -> int {
        let shown = if chars < 10 {
            chars
        } else {
            10
        };
        let design = shown * 16 + 30;
        self.p(
            if design < 72 {
                72
            } else if design > 156 {
                156
            } else {
                design
            },
        )
    }

    /// Width taken by the tabs of the first `n` names, each with its gap.
    pub open spec fn tabs_total(self, n: int) -> int
        decreases n,
    {
        if n <= 0 {
            0
        } else {
            self.tabs_total(n - 1) + self.tab_width(self.category_names[n - 1].len() as int)
                + self.p(2)
        }
    }

    /// Whether the tabs do not all fit and the navigation buttons show.
    pub open spec fn category_overflow(self) -> bool {
        self.tabs_total(self.category_names.len() as int) - self.p(2) > self.width - self.p(22)
    }

    /// Right edge that tabs must not cross.
    pub open spec fn available_right(self) -> int {
        if self.category_overflow() {
            self.category_left().left - self.p(8)
        } else {
            self.width - self.p(8)
        }
    }

    /// Tabs placed left to right from name `i` on at `left`, stopping at the
    /// first that does not fit.
    pub open spec fn tabs_from(self, i: int, left: int) -> Seq<(usize, Rect)>
        decreases self.category_names.len() - i,
    {
        if i < 0 || i >= self.category_names.len() {
            seq![]
        } else {
            let w = self.tab_width(self.category_names[i].len() as int);
            if left + w > self.available_right() {
                seq![]
            } else {
                seq![(i as usize, mk_rect(left, self.p(48), left + w, self.p(86)))] + self.tabs_from(
                    i + 1,
                    left + w + self.p(2),
                )
            }
        }
    }

    pub open spec fn categories(self) -> Seq<(usize, Rect)> {
        self.tabs_from(self.category_start as int, self.p(14))
    }

    pub open spec fn search_box(self) -> Rect {
        mk_rect(self.p(18), self.p(98), self.width - self.p(18), self.p(130))
    }

    pub open spec fn search_close_button(self) -> Rect {
        let b = self.search_box();
        mk_rect(b.right - self.p(32), b.top as int, b.right as int, b.bottom as int)
    }

    pub open spec fn content_full(self) -> Rect {
        mk_rect(
            self.p(8),
            if self.search_mode {
                self.p(132)
            } else {
                self.p(90)
            },
            self.width - self.p(8),
            self.height - self.p(8),
        )
    }

    pub open spec fn min_cell_width(self) -> int {
        if self.p(88) < 1 {
            1
        } else {
            self.p(88)
        }
    }

    pub open spec fn cell_height(self) -> int {
        if self.p(94) < 1 {
            1
        } else {
            self.p(94)
        }
    }

    pub open spec fn scrollbar_visible(self) -> bool {
        let full = self.content_full();
        self.view == Screen::Launcher && self.item_count > at_least_one(
            full.w(),
            self.min_cell_width(),
        ) * at_least_one(full.h(), self.cell_height())
    }

    pub open spec fn content(self) -> Rect {
        let full = self.content_full();
        if self.scrollbar_visible() {
            Rect { right: (full.right - self.p(10)) as i32, ..full }
        } else {
            full
        }
    }

    pub open spec fn columns(self) -> int {
        at_least_one(self.content().w(), self.min_cell_width())
    }

    pub open spec fn rows(self) -> int {
        at_least_one(self.content().h(), self.cell_height())
    }

    pub open spec fn cell_width(self) -> int {
        at_least_one(self.content().w(), self.columns())
    }

    pub open spec fn visible_capacity(self) -> int {
        self.columns() * self.rows()
    }

    pub open spec fn max_page_offset(self) -> int {
        if self.view == Screen::Launcher && self.item_count > self.visible_capacity() {
            self.item_count - self.visible_capacity()
        } else {
            0
        }
    }

    pub open spec fn scrollbar_track(self) -> Rect {
        let full = self.content_full();
        mk_rect(full.right - self.p(10), full.top as int, full.right as int, full.bottom as int)
    }

    /// The `index`-th cell of the item grid, row by row.
    pub open spec fn cell(self, index: int) -> Rect {
        let c = self.content();
        let left = c.left + (index % self.columns()) * self.cell_width();
        let top = c.top + (index / self.columns()) * self.cell_height();
        mk_rect(left, top, left + self.cell_width(), top + self.cell_height())
    }

    pub open spec fn settings_content(self) -> Rect {
        mk_rect(self.p(24), self.p(50), self.width - self.p(24), self.height - self.p(14))
    }

    /// The `index`-th settings row and its control.
    pub open spec fn settings_row(self, index: int) -> (SettingControl, Rect, Rect) {
        let sc = self.settings_content();
        let top = sc.top + index * self.p(54);
        let right = sc.right - self.p(20);
        let control = setting_control_at(index);
        (
            control,
            mk_rect(sc.left as int, top, sc.right as int, top + self.p(54)),
            if control == SettingControl::Hotkey {
                mk_rect(right - self.p(190), top + self.p(11), right, top + self.p(43))
            } else {
                mk_rect(right - self.p(40), top + self.p(17), right, top + self.p(37))
            },
        )
    }

    pub open spec fn add_overlay(self) -> Rect {
        let w = if self.p(500) < self.width - self.p(48) {
            self.p(500)
        } else {
            self.width - self.p(48)
        };
        let h = if self.p(300) < self.height - self.p(48) {
            self.p(300)
        } else {
            self.height - self.p(48)
        };
        let left = (self.width - w) / 2;
        let top = (self.height - h) / 2;
        mk_rect(left, top, left + w, top + h)
    }

    pub open spec fn add_close_button(self) -> Rect {
        let o = self.add_overlay();
        mk_rect(o.right - self.p(46), o.top + self.p(8), o.right - self.p(8), o.top + self.p(46))
    }

    pub open spec fn add_file_button(self) -> Rect {
        let o = self.add_overlay();
        let bw = div_trunc(o.w() - self.p(56) - self.p(12), 2);
        mk_rect(
            o.left + self.p(22),
            o.top + self.p(72),
            o.left + self.p(22) + bw,
            o.top + self.p(118),
        )
    }

    pub open spec fn add_folder_button(self) -> Rect {
        let o = self.add_overlay();
        let f = self.add_file_button();
        mk_rect(f.right + self.p(12), f.top as int, o.right - self.p(22), f.bottom as int)
    }

    pub open spec fn add_drop_zone(self) -> Rect {
        let o = self.add_overlay();
        mk_rect(
            o.left + self.p(22),
            o.top + self.p(140),
            o.right - self.p(22),
            o.bottom - self.p(22),
        )
    }

    pub open spec fn text_overlay(self) -> Rect {
        let w = if self.p(460) < self.width - self.p(48) {
            self.p(460)
        } else {
            self.width - self.p(48)
        };
        let h = if self.p(190) < self.height - self.p(48) {
            self.p(190)
        } else {
            self.height - self.p(48)
        };
        let left = (self.width - w) / 2;
        let top = (self.height - h) / 2;
        mk_rect(left, top, left + w, top + h)
    }

    pub open spec fn text_input(self) -> Rect {
        let o = self.text_overlay();
        mk_rect(o.left + self.p(24), o.top + self.p(64), o.right - self.p(24), o.top + self.p(100))
    }

    pub open spec fn text_confirm_button(self) -> Rect {
        let o = self.text_overlay();
        mk_rect(
            o.right - self.p(202),
            o.bottom - self.p(58),
            o.right - self.p(112),
            o.bottom - self.p(20),
        )
    }

    pub open spec fn text_cancel_button(self) -> Rect {
        let o = self.text_overlay();
        let c = self.text_confirm_button();
        mk_rect(o.right - self.p(102), c.top as int, o.right - self.p(12), c.bottom as int)
    }
}

/// Order of the settings rows.
pub open spec fn setting_control_at(index: int) -> SettingControl {
    if index == 0 {
        SettingControl::Hotkey
    } else if index == 1 {
        SettingControl::Startup
    } else if index == 2 {
        SettingControl::DoubleClick
    } else if index == 3 {
        SettingControl::Centered
    } else if index == 4 {
        SettingControl::Movable
    } else {
        SettingControl::Resizable
    }
}


#[derive(Clone, Debug)]
pub struct Layout {
    /// Pixels per inch the layout was computed for (96 is 100%).
    pub dpi: u32,
    pub client: Rect,
    pub titlebar: Rect,
    pub categorybar: Rect,
    pub content: Rect,
    pub title: Rect,
    pub drag_area: Rect,
    pub back_button: Rect,
    pub search_button: Rect,
    pub add_button: Rect,
    pub settings_button: Rect,
    pub close_button: Rect,
    pub category_left: Rect,
    pub category_right: Rect,
    pub category_more: Rect,
    pub category_overflow: bool,
    pub categories: Vec<(usize, Rect)>,
    pub search_box: Rect,
    pub search_close_button: Rect,
    pub cells: Vec<Rect>,
    pub columns: usize,
    pub visible_capacity: usize,
    pub max_page_offset: usize,
    pub scrollbar_visible: bool,
    pub scrollbar_track: Rect,
    pub settings_content: Rect,
    pub settings_rows: Vec<(SettingControl, Rect, Rect)>,
    pub add_overlay: Rect,
    pub add_file_button: Rect,
    pub add_folder_button: Rect,
    pub add_drop_zone: Rect,
    pub add_close_button: Rect,
    pub text_overlay: Rect,
    pub text_input: Rect,
    pub text_confirm_button: Rect,
    pub text_cancel_button: Rect,
}

impl Layout {
    /// This layout is the one computed for `i`.
    #[verifier::opaque]
    pub open spec fn is_layout_of(self, i: LayoutInputModel) -> bool {
        &&& self.dpi == i.dpi
        &&& self.client == mk_rect(0, 0, i.width as int, i.height as int)
        &&& self.titlebar == mk_rect(0, 0, i.width as int, i.p(46))
        &&& self.categorybar == mk_rect(0, i.p(46), i.width as int, i.p(88))
        &&& self.content == i.content()
        &&& self.title == i.title()
        &&& self.drag_area == i.drag_area()
        &&& self.back_button == i.back_button()
        &&& self.search_button == i.search_button()
        &&& self.add_button == i.add_button()
        &&& self.settings_button == i.settings_button()
        &&& self.close_button == i.close_button()
        &&& self.category_left == i.category_left()
        &&& self.category_right == i.category_right()
        &&& self.category_more == i.category_more()
        &&& self.category_overflow == i.category_overflow()
        &&& self.categories@ == i.categories()
        &&& self.search_box == i.search_box()
        &&& self.search_close_button == i.search_close_button()
        &&& self.cells@.len() == i.visible_capacity()
        &&& forall|k: int| 0 <= k < self.cells@.len() ==> #[trigger] self.cells@[k] == i.cell(k)
        &&& self.columns == i.columns()
        &&& self.visible_capacity == i.visible_capacity()
        &&& self.max_page_offset == i.max_page_offset()
        &&& self.scrollbar_visible == i.scrollbar_visible()
        &&& self.scrollbar_track == i.scrollbar_track()
        &&& self.settings_content == i.settings_content()
        &&& self.settings_rows@ == (if i.view == Screen::Settings {
            Seq::new(6, |k: int| i.settings_row(k))
        } else {
            seq![]
        })
        &&& self.add_overlay == i.add_overlay()
        &&& self.add_file_button == i.add_file_button()
        &&& self.add_folder_button == i.add_folder_button()
        &&& self.add_drop_zone == i.add_drop_zone()
        &&& self.add_close_button == i.add_close_button()
        &&& self.text_overlay == i.text_overlay()
        &&& self.text_input == i.text_input()
        &&& self.text_confirm_button == i.text_confirm_button()
        &&& self.text_cancel_button == i.text_cancel_button()
    }
}


/// Width of the tab for a name of `chars` characters (exec `tab_width`).
fn tab_width_exec(chars: usize, dpi: u32) -> (r: i32)
    requires
        dpi <= MAX_DPI,
    ensures
        forall|i: LayoutInputModel| i.dpi == dpi ==> r == i.tab_width(chars as int),
        0 <= r <= 15601,
{
    let shown: i32 = if chars < 10 {
        chars as i32
    } else {
        10
    };
    let design = shown * 16 + 30;
    let clamped = if design < 72 {
        72
    } else if design > 156 {
        156
    } else {
        design
    };
    scale_px(clamped, dpi)
}

/// Number of characters of a name.
fn char_count(name: &String) -> (r: usize)
    ensures
        r == name@.len(),
{
    chars_of(name.as_str()).len()
}

impl<'a> LayoutInput<'a> {
    /// Total tab width over every name (exec `tabs_total`).
    fn tabs_total_exec(&self) -> (r: i64)
        requires
            self@.in_range(),
        ensures
            r == self@.tabs_total(self@.category_names.len() as int),
            0 <= r <= self@.category_names.len() * 20000,
    {
        let ghost m = self@;
        let p2 = scale_px(2, self.dpi) as i64;
        let mut total: i64 = 0;
        let mut k: usize = 0;
        while k < self.category_names.len()
            invariant
                m == self@,
                m.in_range(),
                k <= m.category_names.len(),
                p2 == m.p(2),
                0 <= p2 <= 201,
                total == m.tabs_total(k as int),
                0 <= total <= k * 20000,
            decreases m.category_names.len() - k,
        {
            let w = tab_width_exec(char_count(&self.category_names[k]), self.dpi) as i64;
            assert(m.category_names[k as int] == self.category_names@[k as int]@);
            total = total + w + p2;
            k += 1;
        }
        total
    }

    /// Tabs laid out from `category_start` up to `available_right`.
    fn tabs_exec(&self, available_right: i32) -> (r: Vec<(usize, Rect)>)
        requires
            self@.in_range(),
            available_right == self@.available_right(),
            -20000 <= available_right <= MAX_EXTENT,
        ensures
            r@ == self@.categories(),
    {
        let ghost m = self@;
        let p2 = scale_px(2, self.dpi);
        let top = scale_px(48, self.dpi);
        let bottom = scale_px(86, self.dpi);
        let mut left = scale_px(14, self.dpi);
        let mut tabs: Vec<(usize, Rect)> = Vec::new();
        let mut index = self.category_start;
        while index < self.category_names.len()
            invariant
                m == self@,
                m.in_range(),
                available_right == m.available_right(),
                -20000 <= available_right <= MAX_EXTENT,
                p2 == m.p(2),
                top == m.p(48),
                bottom == m.p(86),
                0 <= p2 <= 201,
                0 <= left <= MAX_EXTENT + 201,
                index >= self.category_start,
                tabs@ + m.tabs_from(index as int, left as int) == m.categories(),
            decreases m.category_names.len() - index,
        {
            let w = tab_width_exec(char_count(&self.category_names[index]), self.dpi);
            assert(m.category_names[index as int] == self.category_names@[index as int]@);
            if left + w > available_right {
                assert(m.tabs_from(index as int, left as int) =~= seq![]);
                assert(tabs@ =~= tabs@ + seq![]);
                return tabs;
            }
            let ghost before = tabs@;
            let rect = Rect { left, top, right: left + w, bottom };
            tabs.push((index, rect));
            proof {
                let rest = m.tabs_from(index + 1, left + w + p2);
                assert(m.tabs_from(index as int, left as int) == seq![(index, rect)] + rest);
                assert(tabs@ + rest =~= before + (seq![(index, rect)] + rest));
            }
            left = left + w + p2;
            index += 1;
        }
        assert(m.tabs_from(index as int, left as int) =~= seq![]);
        assert(tabs@ =~= tabs@ + seq![]);
        tabs
    }
}


/// Cells of the item grid, row by row.
fn grid_cells(
    content: Rect,
    columns: usize,
    capacity: usize,
    cell_width: i64,
    cell_height: i64,
    Ghost(m): Ghost<LayoutInputModel>,
) -> (r: Vec<Rect>)
    requires
        1 <= columns <= 200_000,
        content == m.content(),
        columns == m.columns(),
        capacity == m.visible_capacity(),
        cell_width == m.cell_width(),
        cell_height == m.cell_height(),
        1 <= cell_width <= 200_000,
        1 <= cell_height <= 200_000,
        capacity <= 40_000_000_000,
    ensures
        r@.len() == capacity,
        forall|k: int| 0 <= k < capacity ==> #[trigger] r@[k] == m.cell(k),
{
    let mut cells: Vec<Rect> = Vec::new();
    let mut index: usize = 0;
    let mut column: usize = 0;
    let mut row: usize = 0;
    while index < capacity
        invariant
            1 <= columns <= 200_000,
            content == m.content(),
            columns == m.columns(),
            cell_width == m.cell_width(),
            cell_height == m.cell_height(),
            1 <= cell_width <= 200_000,
            1 <= cell_height <= 200_000,
            capacity <= 40_000_000_000,
            index <= capacity,
            column < columns,
            index == row * columns + column,
            row <= index,
            cells@.len() == index,
            forall|k: int| 0 <= k < index ==> #[trigger] cells@[k] == m.cell(k),
        decreases capacity - index,
    {
        proof {
            vstd::arithmetic::div_mod::lemma_fundamental_div_mod_converse(
                index as int,
                columns as int,
                row as int,
                column as int,
            );
            assert(column * cell_width <= 200_000 * 200_000) by (nonlinear_arith)
                requires
                    column < 200_000,
                    cell_width <= 200_000,
                    column >= 0,
                    cell_width >= 1,
            ;
            assert(row * cell_height <= 40_000_000_000 * 200_000) by (nonlinear_arith)
                requires
                    row <= 40_000_000_000,
                    cell_height <= 200_000,
                    row >= 0,
                    cell_height >= 1,
            ;
        }
        let left = content.left as i64 + column as i64 * cell_width;
        let top = content.top as i64 + row as i64 * cell_height;
        let rect = Rect {
            left: #[verifier::truncate] (left as i32),
            top: #[verifier::truncate] (top as i32),
            right: #[verifier::truncate] ((left + cell_width) as i32),
            bottom: #[verifier::truncate] ((top + cell_height) as i32),
        };
        assert(rect == m.cell(index as int));
        cells.push(rect);
        index += 1;
        if column + 1 == columns {
            proof {
                assert((row + 1) * columns == row * columns + columns) by (nonlinear_arith);
            }
            column = 0;
            row += 1;
        } else {
            column += 1;
        }
    }
    cells
}

/// The six settings rows.
fn settings_rows_exec(m: &LayoutInput, settings_content: Rect) -> (r: Vec<(SettingControl, Rect, Rect)>)
    requires
        m@.in_range(),
        settings_content == m@.settings_content(),
        -200_000 <= settings_content.top <= 200_000,
        -200_000 <= settings_content.right <= 200_000,
    ensures
        r@ == Seq::new(6, |k: int| m@.settings_row(k)),
{
    let ghost mm = m@;
    let row_height = scale_px(54, m.dpi);
    let p20 = scale_px(20, m.dpi);
    let control_right = settings_content.right - p20;
    let mut rows: Vec<(SettingControl, Rect, Rect)> = Vec::new();
    let mut index: i32 = 0;
    let mut top: i32 = settings_content.top;
    while index < 6
        invariant
            mm == m@,
            mm.in_range(),
            settings_content == mm.settings_content(),
            row_height == mm.p(54),
            p20 == mm.p(20),
            0 <= row_height <= 5401,
            control_right == settings_content.right - p20,
            0 <= index <= 6,
            -200_000 <= settings_content.top <= 200_000,
            -200_000 <= settings_content.right <= 200_000,
            top == settings_content.top + index * row_height,
            rows@.len() == index,
            forall|k: int| 0 <= k < index ==> #[trigger] rows@[k] == mm.settings_row(k),
        decreases 6 - index,
    {
        let control = if index == 0 {
            SettingControl::Hotkey
        } else if index == 1 {
            SettingControl::Startup
        } else if index == 2 {
            SettingControl::DoubleClick
        } else if index == 3 {
            SettingControl::Centered
        } else if index == 4 {
            SettingControl::Movable
        } else {
            SettingControl::Resizable
        };
        let row = Rect {
            left: settings_content.left,
            top,
            right: settings_content.right,
            bottom: top + row_height,
        };
        let target = match control {
            SettingControl::Hotkey => Rect {
                left: control_right - scale_px(190, m.dpi),
                top: top + scale_px(11, m.dpi),
                right: control_right,
                bottom: top + scale_px(43, m.dpi),
            },
            _ => Rect {
                left: control_right - scale_px(40, m.dpi),
                top: top + scale_px(17, m.dpi),
                right: control_right,
                bottom: top + scale_px(37, m.dpi),
            },
        };
        rows.push((control, row, target));
        proof {
            assert(top + row_height == settings_content.top + (index + 1) * row_height) by (nonlinear_arith)
                requires
                    top == settings_content.top + index * row_height,
            ;
        }
        index += 1;
        top = top + row_height;
    }
    assert(rows@ =~= Seq::new(6, |k: int| mm.settings_row(k)));
    rows
}


/// Bounds of `px` for design lengths up to 1000 at supported DPIs.
pub proof fn lemma_px_bounds(v: int, dpi: int)
    requires
        0 <= v <= 1000,
        0 <= dpi <= 9600,
    ensures
        0 <= px(v, dpi) <= 100 * v + 1,
{
    assert(0 <= v * dpi <= 9_600_000) by (nonlinear_arith)
        requires
            0 <= v <= 1000,
            0 <= dpi <= 9600,
    ;
    assert((2 * v * dpi + 96) / 192 <= 100 * v + 1) by (nonlinear_arith)
        requires
            0 <= v <= 1000,
            0 <= dpi <= 9600,
    ;
}

/// `max(a / b, 1)` for a positive divisor (exec `at_least_one`).
fn at_least_one_exec(a: i64, b: i64) -> (r: i64)
    requires
        b > 0,
        -1_000_000_000 <= a <= 1_000_000_000,
    ensures
        r == at_least_one(a as int, b as int),
        1 <= r,
        a >= 1 ==> r <= a,
        a < 1 ==> r == 1,
        r == 1 || r * b <= a,
{
    let q = div_trunc_exec(a, b);
    if a >= 0 {
        assert(q <= a && q * b <= a) by (nonlinear_arith)
            requires
                q == a / b,
                b > 0,
                a >= 0,
        ;
    }
    if q < 1 {
        1
    } else {
        q
    }
}

proof fn lemma_px_table(dpi: int)
    requires
        MIN_DPI <= dpi <= MAX_DPI,
    ensures
        forall|v: int| 0 <= v <= 1000 ==> 0 <= #[trigger] px(v, dpi) <= 100 * v + 1,
        px(88, dpi) >= 22,
        px(94, dpi) >= 24,
{
    assert forall|v: int| 0 <= v <= 1000 implies 0 <= #[trigger] px(v, dpi) <= 100 * v + 1 by {
        lemma_px_bounds(v, dpi);
    }
    assert(px(88, dpi) >= 22) by (nonlinear_arith)
        requires
            dpi >= 24,
    ;
    assert(px(94, dpi) >= 24) by (nonlinear_arith)
        requires
            dpi >= 24,
    ;
}

/// The title bar and the category bar.
struct Header {
    titlebar: Rect,
    categorybar: Rect,
    title: Rect,
    drag_area: Rect,
    back_button: Rect,
    search_button: Rect,
    add_button: Rect,
    settings_button: Rect,
    close_button: Rect,
    category_left: Rect,
    category_right: Rect,
    category_more: Rect,
    category_overflow: bool,
    categories: Vec<(usize, Rect)>,
}

/// The item grid and the search box above it.
struct Grid {
    content: Rect,
    search_box: Rect,
    search_close_button: Rect,
    cells: Vec<Rect>,
    columns: usize,
    visible_capacity: usize,
    max_page_offset: usize,
    scrollbar_visible: bool,
    scrollbar_track: Rect,
}

/// The add-items and text-input dialogs.
struct Overlays {
    add_overlay: Rect,
    add_file_button: Rect,
    add_folder_button: Rect,
    add_drop_zone: Rect,
    add_close_button: Rect,
    text_overlay: Rect,
    text_input: Rect,
    text_confirm_button: Rect,
    text_cancel_button: Rect,
}

fn header(input: &LayoutInput) -> (h: Header)
    requires
        input@.in_range(),
    ensures
        h.titlebar == mk_rect(0, 0, input@.width as int, input@.p(46)),
        h.categorybar == mk_rect(0, input@.p(46), input@.width as int, input@.p(88)),
        h.title == input@.title(),
        h.drag_area == input@.drag_area(),
        h.back_button == input@.back_button(),
        h.search_button == input@.search_button(),
        h.add_button == input@.add_button(),
        h.settings_button == input@.settings_button(),
        h.close_button == input@.close_button(),
        h.category_left == input@.category_left(),
        h.category_right == input@.category_right(),
        h.category_more == input@.category_more(),
        h.category_overflow == input@.category_overflow(),
        h.categories@ == input@.categories(),
{
    let ghost m = input@;
    let width = input.width;
    let dpi = input.dpi;
    let view = input.view;
    proof {
        lemma_px_table(dpi as int);
    }
    let p46 = scale_px(46, dpi);
    let titlebar = Rect { left: 0, top: 0, right: width, bottom: p46 };
    let button_size = scale_px(40, dpi);
    let p3 = scale_px(3, dpi);
    let p4 = scale_px(4, dpi);
    let p43 = scale_px(43, dpi);
    let close_button = Rect {
        left: width - button_size - p4,
        top: p3,
        right: width - p4,
        bottom: p43,
    };
    let settings_button = shift_left(close_button, button_size);
    let add_button = shift_left(settings_button, button_size);
    let search_button = shift_left(add_button, button_size);
    let back_button = Rect { left: scale_px(6, dpi), top: p3, right: p46, bottom: p43 };
    let title = if view == Screen::Settings {
        Rect { left: scale_px(52, dpi), top: 0, right: scale_px(220, dpi), bottom: p46 }
    } else {
        Rect { left: scale_px(18, dpi), top: 0, right: scale_px(180, dpi), bottom: p46 }
    };
    let drag_area = Rect {
        left: title.right,
        top: 0,
        right: if view == Screen::Settings {
            close_button.left
        } else {
            search_button.left
        },
        bottom: p46,
    };
    let p8 = scale_px(8, dpi);
    let categorybar = Rect { left: 0, top: p46, right: width, bottom: scale_px(88, dpi) };
    let mini = scale_px(34, dpi);
    let category_more = Rect {
        left: width - mini - p8,
        top: scale_px(50, dpi),
        right: width - p8,
        bottom: scale_px(84, dpi),
    };
    let p2 = scale_px(2, dpi);
    let total_tab_width = input.tabs_total_exec();
    let category_overflow = total_tab_width - p2 as i64 > (width - scale_px(22, dpi)) as i64;
    let category_right = shift_left(category_more, mini);
    let category_left = shift_left(category_right, mini);
    let available_right = if category_overflow {
        category_left.left - p8
    } else {
        width - p8
    };
    let categories = input.tabs_exec(available_right);
    Header {
        titlebar,
        categorybar,
        title,
        drag_area,
        back_button,
        search_button,
        add_button,
        settings_button,
        close_button,
        category_left,
        category_right,
        category_more,
        category_overflow,
        categories,
    }
}

fn grid(input: &LayoutInput) -> (g: Grid)
    requires
        input@.in_range(),
    ensures
        g.content == input@.content(),
        g.search_box == input@.search_box(),
        g.search_close_button == input@.search_close_button(),
        g.cells@.len() == input@.visible_capacity(),
        forall|k: int| 0 <= k < g.cells@.len() ==> #[trigger] g.cells@[k] == input@.cell(k),
        g.columns == input@.columns(),
        g.visible_capacity == input@.visible_capacity(),
        g.max_page_offset == input@.max_page_offset(),
        g.scrollbar_visible == input@.scrollbar_visible(),
        g.scrollbar_track == input@.scrollbar_track(),
        g.visible_capacity <= 25_000_000,
        g.max_page_offset <= MAX_COUNT,
        -300_000 <= g.scrollbar_track.top <= 300_000,
        -300_000 <= g.scrollbar_track.bottom <= 300_000,
{
    let ghost m = input@;
    let width = input.width;
    let height = input.height;
    let dpi = input.dpi;
    let view = input.view;
    proof {
        lemma_px_table(dpi as int);
    }
    let p8 = scale_px(8, dpi);
    let p18 = scale_px(18, dpi);
    let search_box = Rect {
        left: p18,
        top: scale_px(98, dpi),
        right: width - p18,
        bottom: scale_px(130, dpi),
    };
    let search_close_button = Rect {
        left: search_box.right - scale_px(32, dpi),
        top: search_box.top,
        right: search_box.right,
        bottom: search_box.bottom,
    };
    let content_top = if input.search_mode {
        scale_px(132, dpi)
    } else {
        scale_px(90, dpi)
    };
    let content_full = Rect {
        left: p8,
        top: content_top,
        right: width - p8,
        bottom: height - p8,
    };
    assert(content_full == m.content_full());
    let p88 = scale_px(88, dpi);
    let p94 = scale_px(94, dpi);
    let min_cell_width: i64 = if p88 < 1 {
        1
    } else {
        p88 as i64
    };
    let cell_height: i64 = if p94 < 1 {
        1
    } else {
        p94 as i64
    };
    let scrollbar_width = scale_px(10, dpi);
    let full_columns = at_least_one_exec(
        (content_full.right - content_full.left) as i64,
        min_cell_width,
    );
    let full_rows = at_least_one_exec(
        (content_full.bottom - content_full.top) as i64,
        cell_height,
    );
    proof {
        assert(full_columns * full_rows <= 100_000 * 100_000) by (nonlinear_arith)
            requires
                1 <= full_columns <= 100_000,
                1 <= full_rows <= 100_000,
        ;
    }
    let scrollbar_visible = view == Screen::Launcher && (input.item_count as i64) > full_columns
        * full_rows;
    let content = if scrollbar_visible {
        Rect { right: content_full.right - scrollbar_width, ..content_full }
    } else {
        content_full
    };
    let columns = at_least_one_exec((content.right - content.left) as i64, min_cell_width);
    let cell_width = at_least_one_exec((content.right - content.left) as i64, columns);
    let rows = at_least_one_exec((content.bottom - content.top) as i64, cell_height);
    proof {
        assert(columns <= 5000) by (nonlinear_arith)
            requires
                columns == 1 || columns * min_cell_width <= 100_000,
                min_cell_width >= 22,
                columns >= 1,
        ;
        assert(rows <= 5000) by (nonlinear_arith)
            requires
                rows == 1 || rows * cell_height <= 100_000,
                cell_height >= 24,
                rows >= 1,
        ;
        assert(columns * rows <= 25_000_000) by (nonlinear_arith)
            requires
                1 <= columns <= 5000,
                1 <= rows <= 5000,
        ;
    }
    let capacity = columns * rows;
    let visible_capacity = capacity as usize;
    let max_page_offset: usize = if view == Screen::Launcher && input.item_count
        > visible_capacity {
        input.item_count - visible_capacity
    } else {
        0
    };
    let scrollbar_track = Rect {
        left: content_full.right - scrollbar_width,
        top: content_full.top,
        right: content_full.right,
        bottom: content_full.bottom,
    };
    let cells = grid_cells(
        content,
        columns as usize,
        visible_capacity,
        cell_width,
        cell_height,
        Ghost(m),
    );
    Grid {
        content,
        search_box,
        search_close_button,
        cells,
        columns: columns as usize,
        visible_capacity,
        max_page_offset,
        scrollbar_visible,
        scrollbar_track,
    }
}

#[verifier::spinoff_prover]
#[verifier::rlimit(40)]
fn overlays(input: &LayoutInput) -> (o: Overlays)
    requires
        input@.in_range(),
    ensures
        o.add_overlay == input@.add_overlay(),
        o.add_file_button == input@.add_file_button(),
        o.add_folder_button == input@.add_folder_button(),
        o.add_drop_zone == input@.add_drop_zone(),
        o.add_close_button == input@.add_close_button(),
        o.text_overlay == input@.text_overlay(),
        o.text_input == input@.text_input(),
        o.text_confirm_button == input@.text_confirm_button(),
        o.text_cancel_button == input@.text_cancel_button(),
{
    let width = input.width;
    let height = input.height;
    let dpi = input.dpi;
    proof {
        lemma_px_table(dpi as int);
    }
    let p8 = scale_px(8, dpi);
    let p24 = scale_px(24, dpi);
    let p46 = scale_px(46, dpi);
    let p48 = scale_px(48, dpi);
    let p500 = scale_px(500, dpi);
    let p300 = scale_px(300, dpi);
    let overlay_width = if p500 < width - p48 {
        p500
    } else {
        width - p48
    };
    let overlay_height = if p300 < height - p48 {
        p300
    } else {
        height - p48
    };
    let overlay_left = (width - overlay_width) / 2;
    let overlay_top = (height - overlay_height) / 2;
    let add_overlay = Rect {
        left: overlay_left,
        top: overlay_top,
        right: overlay_left + overlay_width,
        bottom: overlay_top + overlay_height,
    };
    let add_close_button = Rect {
        left: add_overlay.right - p46,
        top: add_overlay.top + p8,
        right: add_overlay.right - p8,
        bottom: add_overlay.top + p46,
    };
    let button_gap = scale_px(12, dpi);
    let button_width = div_trunc_exec(
        (add_overlay.right - add_overlay.left - scale_px(56, dpi) - button_gap) as i64,
        2,
    ) as i32;
    let p22 = scale_px(22, dpi);
    let add_file_button = Rect {
        left: add_overlay.left + p22,
        top: add_overlay.top + scale_px(72, dpi),
        right: add_overlay.left + p22 + button_width,
        bottom: add_overlay.top + scale_px(118, dpi),
    };
    let add_folder_button = Rect {
        left: add_file_button.right + button_gap,
        top: add_file_button.top,
        right: add_overlay.right - p22,
        bottom: add_file_button.bottom,
    };
    let add_drop_zone = Rect {
        left: add_overlay.left + p22,
        top: add_overlay.top + scale_px(140, dpi),
        right: add_overlay.right - p22,
        bottom: add_overlay.bottom - p22,
    };
    let p460 = scale_px(460, dpi);
    let p190 = scale_px(190, dpi);
    let text_width = if p460 < width - p48 {
        p460
    } else {
        width - p48
    };
    let text_height = if p190 < height - p48 {
        p190
    } else {
        height - p48
    };
    let text_left = (width - text_width) / 2;
    let text_top = (height - text_height) / 2;
    let text_overlay = Rect {
        left: text_left,
        top: text_top,
        right: text_left + text_width,
        bottom: text_top + text_height,
    };
    let text_input = Rect {
        left: text_overlay.left + p24,
        top: text_overlay.top + scale_px(64, dpi),
        right: text_overlay.right - p24,
        bottom: text_overlay.top + scale_px(100, dpi),
    };
    let text_confirm_button = Rect {
        left: text_overlay.right - scale_px(202, dpi),
        top: text_overlay.bottom - scale_px(58, dpi),
        right: text_overlay.right - scale_px(112, dpi),
        bottom: text_overlay.bottom - scale_px(20, dpi),
    };
    let text_cancel_button = Rect {
        left: text_overlay.right - scale_px(102, dpi),
        top: text_confirm_button.top,
        right: text_overlay.right - scale_px(12, dpi),
        bottom: text_confirm_button.bottom,
    };
    Overlays {
        add_overlay,
        add_file_button,
        add_folder_button,
        add_drop_zone,
        add_close_button,
        text_overlay,
        text_input,
        text_confirm_button,
        text_cancel_button,
    }
}

impl Layout {
    pub fn calculate(input: LayoutInput<'_>) -> (r: Self)
        requires
            input@.in_range(),
        ensures
            r.is_layout_of(input@),
            r.bounded(),
    {
        let dpi = input.dpi;
        proof {
            lemma_px_table(dpi as int);
            reveal(Layout::is_layout_of);
        }
        let h = header(&input);
        let g = grid(&input);
        let o = overlays(&input);
        let p24 = scale_px(24, dpi);
        let settings_content = Rect {
            left: p24,
            top: scale_px(50, dpi),
            right: input.width - p24,
            bottom: input.height - scale_px(14, dpi),
        };
        let settings_rows = if input.view == Screen::Settings {
            settings_rows_exec(&input, settings_content)
        } else {
            Vec::new()
        };
        Layout {
            dpi,
            client: Rect { left: 0, top: 0, right: input.width, bottom: input.height },
            titlebar: h.titlebar,
            categorybar: h.categorybar,
            content: g.content,
            title: h.title,
            drag_area: h.drag_area,
            back_button: h.back_button,
            search_button: h.search_button,
            add_button: h.add_button,
            settings_button: h.settings_button,
            close_button: h.close_button,
            category_left: h.category_left,
            category_right: h.category_right,
            category_more: h.category_more,
            category_overflow: h.category_overflow,
            categories: h.categories,
            search_box: g.search_box,
            search_close_button: g.search_close_button,
            cells: g.cells,
            columns: g.columns,
            visible_capacity: g.visible_capacity,
            max_page_offset: g.max_page_offset,
            scrollbar_visible: g.scrollbar_visible,
            scrollbar_track: g.scrollbar_track,
            settings_content,
            settings_rows,
            add_overlay: o.add_overlay,
            add_file_button: o.add_file_button,
            add_folder_button: o.add_folder_button,
            add_drop_zone: o.add_drop_zone,
            add_close_button: o.add_close_button,
            text_overlay: o.text_overlay,
            text_input: o.text_input,
            text_confirm_button: o.text_confirm_button,
            text_cancel_button: o.text_cancel_button,
        }
    }
}

/// Index of the first rectangle at or after `i` that contains the point.
pub open spec fn first_containing(rects: Seq<Rect>, x: int, y: int, i: int) -> Option<int>
    decreases rects.len() - i,
{
    if i < 0 || i >= rects.len() {
        None
    } else if rects[i].has(x, y) {
        Some(i)
    } else {
        first_containing(rects, x, y, i + 1)
    }
}

/// Exec `first_containing` from index 0.
fn first_rect_at(rects: &Vec<Rect>, x: i32, y: i32) -> (r: Option<usize>)
    ensures
        r matches Some(k) ==> first_containing(rects@, x as int, y as int, 0) == Some(k as int),
        r is None ==> first_containing(rects@, x as int, y as int, 0) is None,
{
    let mut i: usize = 0;
    while i < rects.len()
        invariant
            i <= rects@.len(),
            first_containing(rects@, x as int, y as int, 0) == first_containing(
                rects@,
                x as int,
                y as int,
                i as int,
            ),
        decreases rects@.len() - i,
    {
        if rects[i].contains(x, y) {
            return Some(i);
        }
        i += 1;
    }
    None
}

/// Larger of two integers.
pub open spec fn max2(a: int, b: int) -> int {
    if a > b {
        a
    } else {
        b
    }
}

/// Smaller of two integers.
pub open spec fn min2(a: int, b: int) -> int {
    if a < b {
        a
    } else {
        b
    }
}

/// `n / d` rounded to the nearest integer, halves up (`d > 0`).
pub open spec fn nearest_quotient(n: int, d: int) -> int {
    (2 * n + d) / (2 * d)
}

/// A numerator at most `d * m` gives a nearest quotient between 0 and `m`.
pub proof fn lemma_nearest_quotient_bound(n: int, d: int, m: int)
    requires
        1 <= d,
        0 <= m,
        0 <= n <= d * m,
    ensures
        0 <= nearest_quotient(n, d) <= m,
{
    assert(0 <= (2 * n + d) / (2 * d) <= m) by (nonlinear_arith)
        requires
            1 <= d,
            0 <= m,
            0 <= n <= d * m,
    ;
}

impl Layout {
    /// The fields that the hit tests and the scrollbar compute with stay
    /// within the ranges that `calculate` produces.
    pub open spec fn bounded(self) -> bool {
        &&& MIN_DPI <= self.dpi <= MAX_DPI
        &&& -300_000 <= self.scrollbar_track.top <= 300_000
        &&& -300_000 <= self.scrollbar_track.bottom <= 300_000
        &&& self.visible_capacity <= 25_000_000
        &&& self.max_page_offset <= MAX_COUNT
        &&& 0 <= self.client.left <= self.client.right <= MAX_EXTENT
        &&& 0 <= self.client.top <= self.client.bottom <= MAX_EXTENT
        &&& -300_000 <= self.add_button.right <= 300_000
        &&& -300_000 <= self.add_button.bottom <= 300_000
        &&& -300_000 <= self.category_more.left <= 300_000
        &&& -300_000 <= self.category_more.bottom <= 300_000
    }

    /// Tool button under a point: the close button always, the back button
    /// in settings, otherwise the toolbar buttons and, when tabs overflow,
    /// the category navigation buttons.
    pub open spec fn tool_at_spec(self, x: int, y: int, view: Screen) -> Option<ToolButton> {
        if self.close_button.has(x, y) {
            Some(ToolButton::Close)
        } else if view == Screen::Settings {
            if self.back_button.has(x, y) {
                Some(ToolButton::Back)
            } else {
                None
            }
        } else if self.search_button.has(x, y) {
            Some(ToolButton::Search)
        } else if self.add_button.has(x, y) {
            Some(ToolButton::AddMenu)
        } else if self.settings_button.has(x, y) {
            Some(ToolButton::Settings)
        } else if self.category_overflow && self.category_left.has(x, y) {
            Some(ToolButton::CategoryLeft)
        } else if self.category_overflow && self.category_right.has(x, y) {
            Some(ToolButton::CategoryRight)
        } else if self.category_overflow && self.category_more.has(x, y) {
            Some(ToolButton::CategoryMore)
        } else {
            None
        }
    }

    pub fn tool_at(&self, x: i32, y: i32, view: Screen) -> (r: Option<ToolButton>)
        ensures
            r == self.tool_at_spec(x as int, y as int, view),
    {
        if self.close_button.contains(x, y) {
            return Some(ToolButton::Close);
        }
        if view == Screen::Settings {
            return if self.back_button.contains(x, y) {
                Some(ToolButton::Back)
            } else {
                None
            };
        }
        if self.search_button.contains(x, y) {
            Some(ToolButton::Search)
        } else if self.add_button.contains(x, y) {
            Some(ToolButton::AddMenu)
        } else if self.settings_button.contains(x, y) {
            Some(ToolButton::Settings)
        } else if self.category_overflow && self.category_left.contains(x, y) {
            Some(ToolButton::CategoryLeft)
        } else if self.category_overflow && self.category_right.contains(x, y) {
            Some(ToolButton::CategoryRight)
        } else if self.category_overflow && self.category_more.contains(x, y) {
            Some(ToolButton::CategoryMore)
        } else {
            None
        }
    }

    /// Rectangles of the visible category tabs.
    pub open spec fn tab_rects(self) -> Seq<Rect> {
        self.categories@.map_values(|tab: (usize, Rect)| tab.1)
    }

    /// Category whose tab is under a point.
    pub fn category_at(&self, x: i32, y: i32) -> (r: Option<usize>)
        ensures
            r == (match first_containing(self.tab_rects(), x as int, y as int, 0) {
                Some(k) => Some(self.categories@[k].0),
                None => None,
            }),
    {
        let mut i: usize = 0;
        while i < self.categories.len()
            invariant
                i <= self.categories@.len(),
                first_containing(self.tab_rects(), x as int, y as int, 0) == first_containing(
                    self.tab_rects(),
                    x as int,
                    y as int,
                    i as int,
                ),
            decreases self.categories@.len() - i,
        {
            let (index, rect) = self.categories[i];
            assert(self.tab_rects()[i as int] == rect);
            if rect.contains(x, y) {
                return Some(index);
            }
            i += 1;
        }
        None
    }

    /// Index, within the visible page, of the grid cell under a point.
    pub fn item_at(&self, x: i32, y: i32) -> (r: Option<usize>)
        ensures
            r matches Some(k) ==> first_containing(self.cells@, x as int, y as int, 0) == Some(
                k as int,
            ),
            r is None ==> first_containing(self.cells@, x as int, y as int, 0) is None,
    {
        first_rect_at(&self.cells, x, y)
    }

    /// Rectangles of the settings rows.
    pub open spec fn setting_rects(self) -> Seq<Rect> {
        self.settings_rows@.map_values(|row: (SettingControl, Rect, Rect)| row.1)
    }

    /// Settings control whose row is under a point.
    pub fn setting_at(&self, x: i32, y: i32) -> (r: Option<SettingControl>)
        ensures
            r == (match first_containing(self.setting_rects(), x as int, y as int, 0) {
                Some(k) => Some(self.settings_rows@[k].0),
                None => None,
            }),
    {
        let mut i: usize = 0;
        while i < self.settings_rows.len()
            invariant
                i <= self.settings_rows@.len(),
                first_containing(self.setting_rects(), x as int, y as int, 0) == first_containing(
                    self.setting_rects(),
                    x as int,
                    y as int,
                    i as int,
                ),
            decreases self.settings_rows@.len() - i,
        {
            let (control, row, _) = self.settings_rows[i];
            assert(self.setting_rects()[i as int] == row);
            if row.contains(x, y) {
                return Some(control);
            }
            i += 1;
        }
        None
    }

    /// Height of the scrollbar thumb for `item_count` items.
    pub open spec fn thumb_height(self, item_count: int) -> int {
        let th = self.scrollbar_track.h();
        let raw = th * self.visible_capacity / item_count;
        min2(max2(raw, px(28, self.dpi as int)), th)
    }

    /// Geometry of the scrollbar thumb at page offset `offset`, or `None`
    /// when the scrollbar is hidden, everything fits or the track is empty.
    pub open spec fn thumb_spec(self, offset: int, item_count: int) -> Option<Rect> {
        let track = self.scrollbar_track;
        if !self.scrollbar_visible || self.visible_capacity == 0 || item_count
            <= self.visible_capacity || track.h() <= 0 {
            None
        } else {
            let thumb = self.thumb_height(item_count);
            let travel = max2(track.h() - thumb, 0);
            let top = track.top + travel * offset / max2(self.max_page_offset as int, 1);
            Some(mk_rect(track.left as int, top, track.right as int, top + thumb))
        }
    }

    /// Geometry of the draggable scrollbar thumb, or `None` when everything fits.
    /// Within the track whenever the offset is a valid page offset.
    pub fn scrollbar_thumb(&self, offset: usize, item_count: usize) -> (r: Option<Rect>)
        requires
            self.bounded(),
            offset <= self.max_page_offset,
            item_count <= MAX_COUNT,
        ensures
            r == self.thumb_spec(offset as int, item_count as int),
            r matches Some(t) ==> self.scrollbar_track.top <= t.top && t.bottom
                <= self.scrollbar_track.bottom && t.left == self.scrollbar_track.left && t.right
                == self.scrollbar_track.right && t.top <= t.bottom,
    {
        if !self.scrollbar_visible || self.visible_capacity == 0 || item_count
            <= self.visible_capacity {
            return None;
        }
        let track = self.scrollbar_track;
        let track_height = track.bottom - track.top;
        if track_height <= 0 {
            return None;
        }
        proof {
            lemma_px_bounds(28, self.dpi as int);
            assert(0 <= track_height as int * self.visible_capacity as int <= 600_000
                * 25_000_000) by (nonlinear_arith)
                requires
                    0 < track_height <= 600_000,
                    0 <= self.visible_capacity <= 25_000_000,
            ;
        }
        let minimum = scale_px(28, self.dpi) as i64;
        let raw = (track_height as i64 * self.visible_capacity as i64) / (item_count as i64);
        let at_least = if raw < minimum {
            minimum
        } else {
            raw
        };
        let thumb_height = if at_least < track_height as i64 {
            at_least as i32
        } else {
            track_height
        };
        let travel = if track_height - thumb_height > 0 {
            track_height - thumb_height
        } else {
            0
        };
        let max_offset: i64 = if self.max_page_offset > 1 {
            self.max_page_offset as i64
        } else {
            1
        };
        proof {
            assert(0 <= travel as int * offset as int <= travel as int * max_offset as int)
                by (nonlinear_arith)
                requires
                    0 <= travel,
                    0 <= offset <= max_offset,
            ;
            assert(travel as int * offset as int <= 600_000 * 1_000_000_000) by (nonlinear_arith)
                requires
                    0 <= travel <= 600_000,
                    0 <= offset <= 1_000_000_000,
            ;
            assert((travel as int * offset as int) / max_offset as int <= travel as int)
                by (nonlinear_arith)
                requires
                    0 <= travel as int * offset as int <= travel as int * max_offset as int,
                    max_offset >= 1,
            ;
        }
        let step = (travel as i64 * offset as i64) / max_offset;
        let top = track.top + step as i32;
        Some(Rect { left: track.left, top, right: track.right, bottom: top + thumb_height })
    }

    /// Page offset for a drag position on the track: the offset closest to
    /// the position's share of the thumb's travel (halves round up).
    pub open spec fn offset_at_spec(self, y: int, item_count: int) -> int {
        match self.thumb_spec(self.max_page_offset as int, item_count) {
            None => 0,
            Some(thumb) => {
                let track = self.scrollbar_track;
                let travel = max2(track.h() - thumb.h(), 1);
                let relative = min2(max2(y - track.top - thumb.h() / 2, 0), travel);
                nearest_quotient(relative * self.max_page_offset, travel)
            },
        }
    }

    /// Maps a track position to the closest page offset; never past the last page.
    pub fn scrollbar_offset_at(&self, y: i32, item_count: usize) -> (r: usize)
        requires
            self.bounded(),
            item_count <= MAX_COUNT,
            -1_000_000_000 <= y <= 1_000_000_000,
        ensures
            r == self.offset_at_spec(y as int, item_count as int),
            r <= self.max_page_offset,
    {
        let thumb = match self.scrollbar_thumb(self.max_page_offset, item_count) {
            None => return 0,
            Some(thumb) => thumb,
        };
        let track = self.scrollbar_track;
        let thumb_height = thumb.bottom - thumb.top;
        let gap = (track.bottom - track.top) - thumb_height;
        let travel = if gap > 1 {
            gap
        } else {
            1
        };
        let offset = y - track.top - thumb_height / 2;
        let relative = if offset < 0 {
            0
        } else if offset > travel {
            travel
        } else {
            offset
        };
        let m = self.max_page_offset;
        proof {
            assert(0 <= relative as int * m as int <= travel as int * m as int) by (nonlinear_arith)
                requires
                    0 <= relative <= travel,
                    0 <= m,
            ;
            assert(travel as int * m as int <= 600_000 * 1_000_000_000) by (nonlinear_arith)
                requires
                    1 <= travel <= 600_000,
                    m <= 1_000_000_000,
            ;
            lemma_nearest_quotient_bound(relative as int * m as int, travel as int, m as int);
        }
        let product = relative as i64 * m as i64;
        ((2 * product + travel as i64) / (2 * travel as i64)) as usize
    }
}

} // verus!
