//! Properties of the launcher that hold across its operations.
use crate::config::{after_category_deletion, category_candidate, deletion_destination, fresh_category_id, has_category_id, hex_digit, CategoryModel, ConfigModel, ItemModel, WindowModel};
use crate::input::placement;
use crate::keys::{frame_hit_spec, key_command_spec, FrameHit, KeyCommand};
use crate::launcher::{offset_showing, scaled_len};
use crate::launcher::{
    added_paths, known_path, moved_item, search_closed, search_entered, valid_item, with_items,
    without_item, Launcher,
};
use crate::layout::{div_trunc, max2, min2, Layout, Rect, MAX_DPI};
use vstd::arithmetic::div_mod::{lemma_div_by_multiple, lemma_div_is_ordered, lemma_div_pos_is_pos};
use vstd::arithmetic::mul::{lemma_mul_inequality, lemma_mul_is_commutative, lemma_mul_nonnegative};
use crate::menu::{entry_height, first_hit, panel_rect_spec, rows_from, scaled, selectable, MenuEntry, MenuRow, MenuState};
use crate::search::{is_ranking, item_score, ranked_before, search_key, valid_ref, ItemRef};
use crate::text::{find_from, first_non_white, index_of_from, is_white, lowercase, occurs_at, trim, trimmed_end};
use crate::search::{byte_len, greedy_last, match_score_spec, subsequence_gaps_spec};
use crate::launcher::selected_target;
use crate::hotkey::{modifier_key, valid_hotkey};
use crate::config::HotkeyConfig;
use vstd::prelude::*;

verus! {

/// Normalising a configuration twice gives what normalising once gives.
pub proof fn law_normalize_idempotent(c: ConfigModel)
    ensures
        c.normalized().normalized() == c.normalized(),
{
    let n = c.normalized();
    assert(n.categories.len() > 0);
    if c.categories.len() > 0 {
        if crate::config::has_category_id(c.categories, c.active_category) {
        } else {
            assert(n.categories[0].id == n.active_category);
            assert(crate::config::has_category_id(n.categories, n.active_category));
        }
    } else {
        assert(n.categories[0].id == n.active_category);
        assert(crate::config::has_category_id(n.categories, n.active_category));
    }
    assert(n.window.normalized() == n.window);
}

/// Deleting a category loses no item: the total stays the same, one
/// category fewer remains, and the receiving neighbour holds its own items
/// followed by the deleted category's.
pub proof fn law_deletion_keeps_items(c: ConfigModel, category: int)
    requires
        c.categories.len() > 1,
        0 <= category < c.categories.len(),
    ensures
        after_category_deletion(c, category).total_items() == c.total_items(),
        after_category_deletion(c, category).categories.len() == c.categories.len() - 1,
        after_category_deletion(c, category).categories[deletion_destination(category)].items
            == c.categories.remove(category)[deletion_destination(category)].items
            + c.categories[category].items,
{
    crate::config::lemma_deletion_keeps_total(c, category);
}

/// Moving an item to another category keeps the number of items.
pub proof fn law_move_keeps_total(c: ConfigModel, r: ItemRef, dest: int)
    requires
        valid_item(c, r),
        0 <= dest < c.categories.len(),
    ensures
        moved_item(c, r, dest).total_items() == c.total_items(),
        moved_item(c, r, dest).categories.len() == c.categories.len(),
{
    let k = r.category as int;
    let cat = crate::config::CategoryModel { items: c.categories[k].items.remove(r.item as int), ..c.categories[k] };
    crate::config::lemma_total_update(c.categories, k, cat, c.categories.len() as int);
    let c1 = without_item(c, r);
    let item = c.categories[k].items[r.item as int];
    let cat2 = crate::config::CategoryModel { items: c1.categories[dest].items.push(item), ..c1.categories[dest] };
    crate::config::lemma_total_update(c1.categories, dest, cat2, c1.categories.len() as int);
}

/// Deleting an item leaves one item fewer.
pub proof fn law_delete_removes_one(c: ConfigModel, r: ItemRef)
    requires
        valid_item(c, r),
    ensures
        without_item(c, r).total_items() == c.total_items() - 1,
{
    let k = r.category as int;
    let cat = crate::config::CategoryModel { items: c.categories[k].items.remove(r.item as int), ..c.categories[k] };
    crate::config::lemma_total_update(c.categories, k, cat, c.categories.len() as int);
}

/// A menu panel stays inside the client area whenever the client area can
/// hold the narrowest panel: wide enough for its width and taller than its
/// margins.
pub proof fn law_menu_inside_client(anchor: (i32, i32), client: Rect, entries: Seq<MenuEntry>, dpi: int)
    requires
        0 <= dpi <= 9600,
        crate::menu::rect_within(client, 1_000_000),
        client.w() >= scaled(220, dpi),
        client.h() >= scaled(8, dpi) + scaled(46, dpi),
        crate::menu::content_height(entries, entries.len() as int, dpi) >= 0,
    ensures
        ({
            let r = panel_rect_spec(anchor, client, entries, dpi);
            client.left <= r.left && r.right <= client.right && client.top <= r.top && r.bottom
                <= client.bottom
        }),
{
    lemma_scaled_bounds(220, dpi);
    lemma_scaled_bounds(8, dpi);
    lemma_scaled_bounds(46, dpi);
    lemma_scaled_bounds(12, dpi);
}

proof fn lemma_scaled_bounds(v: int, dpi: int)
    requires
        0 <= v <= 1000,
        0 <= dpi <= 9600,
    ensures
        1 <= scaled(v, dpi) <= 100 * v + 1,
{
    let d = if dpi < 96 {
        96
    } else {
        dpi
    };
    crate::layout::lemma_px_bounds(v, d);
}

/// The row a pointer hits is always for an entry that can be chosen.
pub proof fn law_hit_is_selectable(rows: Seq<MenuRow>, entries: Seq<MenuEntry>, rect: Rect, dpi: int, first: int, top: int, x: int, y: int)
    requires
        entries.len() <= usize::MAX,
        rows == rows_from(entries, rect, dpi, first, top),
    ensures
        first_hit(rows, x, y, 0) matches Some(i) ==> 0 <= i < entries.len() && selectable(entries[i as int]),
{
    lemma_rows_enabled(entries, rect, dpi, first, top);
    lemma_hit_row(rows, x, y, 0);
}

proof fn lemma_rows_enabled(entries: Seq<MenuEntry>, rect: Rect, dpi: int, index: int, top: int)
    requires
        entries.len() <= usize::MAX,
    ensures
        forall|k: int|
            0 <= k < rows_from(entries, rect, dpi, index, top).len() ==> {
                let row = #[trigger] rows_from(entries, rect, dpi, index, top)[k];
                0 <= row.index < entries.len() && row.enabled == selectable(entries[row.index as int])
            },
    decreases entries.len() - index,
{
    if !(index < 0 || index >= entries.len()) {
        let h = entry_height(entries[index], dpi);
        if !(top + h > rect.bottom - scaled(6, dpi)) {
            lemma_rows_enabled(entries, rect, dpi, index + 1, top + h);
            let rest = rows_from(entries, rect, dpi, index + 1, top + h);
            let all = rows_from(entries, rect, dpi, index, top);
            assert forall|k: int| 0 <= k < all.len() implies {
                let row = #[trigger] all[k];
                0 <= row.index < entries.len() && row.enabled == selectable(entries[row.index as int])
            } by {
                if k > 0 {
                    assert(all[k] == rest[k - 1]);
                } else {
                    assert(all[0].index == index as usize);
                    assert(all[0].index as int == index);
                }
            }
        }
    }
}

/// The rows shown for a menu list stand for consecutive entries from the
/// list's scroll offset on, carry their entry's kind and whether it can be
/// chosen, lie inside the list's panel (inset on the left and the right),
/// and follow one another from top to bottom without overlapping. With no
/// submenu open, the submenu shows no rows.
pub proof fn law_menu_rows_follow_entries(m: MenuState, submenu: bool)
    requires
        m.wf(),
    ensures
        m.list(submenu) is None ==> m.rows_spec(submenu).len() == 0,
        m.list(submenu) matches Some(entries) ==> {
            let rows = m.rows_spec(submenu);
            let panel = m.panel(submenu);
            &&& forall|k: int|
                0 <= k < rows.len() ==> {
                    let row = #[trigger] rows[k];
                    &&& row.index == m.offset(submenu) + k
                    &&& row.index < entries.len()
                    &&& row.separator == (entries[row.index as int] is Separator)
                    &&& row.enabled == selectable(entries[row.index as int])
                    &&& row.submenu == (entries[row.index as int] is Submenu)
                    &&& panel.left < row.rect.left
                    &&& row.rect.right < panel.right
                    &&& panel.top <= row.rect.top < row.rect.bottom <= panel.bottom
                }
            &&& forall|j: int, k: int|
                0 <= j && k == j + 1 && k < rows.len() ==> (#[trigger] rows[j]).rect.bottom == (
                #[trigger] rows[k]).rect.top
        },
{
    if let Some(entries) = m.list(submenu) {
        let rect = m.panel(submenu);
        let d = m.dpi as int;
        assert(crate::menu::rect_within(rect, 5_000_000));
        lemma_scaled_bounds(6, d);
        lemma_rows_layout(entries, rect, d, m.offset(submenu), rect.top + scaled(6, d));
    }
}

/// Shape of the rows laid out from entry `index` with the first top at `top`.
proof fn lemma_rows_layout(entries: Seq<MenuEntry>, rect: Rect, dpi: int, index: int, top: int)
    requires
        entries.len() <= usize::MAX,
        0 <= index,
        0 <= dpi <= 9600,
        crate::menu::rect_within(rect, 5_000_000),
        rect.top <= top,
    ensures
        ({
            let rows = rows_from(entries, rect, dpi, index, top);
            &&& rows.len() > 0 ==> rows[0].rect.top == top
            &&& forall|k: int|
                0 <= k < rows.len() ==> {
                    let row = #[trigger] rows[k];
                    &&& row.index == index + k
                    &&& row.index < entries.len()
                    &&& row.separator == (entries[row.index as int] is Separator)
                    &&& row.enabled == selectable(entries[row.index as int])
                    &&& row.submenu == (entries[row.index as int] is Submenu)
                    &&& rect.left < row.rect.left
                    &&& row.rect.right < rect.right
                    &&& top <= row.rect.top < row.rect.bottom <= rect.bottom
                }
            &&& forall|j: int, k: int|
                0 <= j && k == j + 1 && k < rows.len() ==> (#[trigger] rows[j]).rect.bottom == (
                #[trigger] rows[k]).rect.top
        }),
    decreases entries.len() - index,
{
    let all = rows_from(entries, rect, dpi, index, top);
    if !(index < 0 || index >= entries.len()) {
        let e = entries[index];
        let h = entry_height(e, dpi);
        lemma_scaled_bounds(4, dpi);
        lemma_scaled_bounds(6, dpi);
        lemma_scaled_bounds(10, dpi);
        lemma_scaled_bounds(34, dpi);
        if !(top + h > rect.bottom - scaled(6, dpi)) {
            lemma_rows_layout(entries, rect, dpi, index + 1, top + h);
            let rest = rows_from(entries, rect, dpi, index + 1, top + h);
            assert(all == seq![all[0]] + rest);
            assert(all[0].rect.top as int == top);
            assert(all[0].rect.bottom as int == top + h);
            assert(all[0].rect.left as int == rect.left + scaled(4, dpi));
            assert(all[0].rect.right as int == rect.right - scaled(4, dpi));
            assert forall|k: int| 0 <= k < all.len() implies {
                let row = #[trigger] all[k];
                &&& row.index == index + k
                &&& row.index < entries.len()
                &&& row.separator == (entries[row.index as int] is Separator)
                &&& row.enabled == selectable(entries[row.index as int])
                &&& row.submenu == (entries[row.index as int] is Submenu)
                &&& rect.left < row.rect.left
                &&& row.rect.right < rect.right
                &&& top <= row.rect.top < row.rect.bottom <= rect.bottom
            } by {
                if k > 0 {
                    assert(all[k] == rest[k - 1]);
                }
            }
            assert forall|j: int, k: int|
                0 <= j && k == j + 1 && k < all.len() implies (#[trigger] all[j]).rect.bottom == (
                #[trigger] all[k]).rect.top by {
                assert(all[k] == rest[k - 1]);
                if j > 0 {
                    assert(all[j] == rest[j - 1]);
                    assert(rest[j - 1].rect.bottom == rest[k - 1].rect.top);
                }
            }
        }
    }
}

proof fn lemma_hit_row(rows: Seq<MenuRow>, x: int, y: int, k: int)
    ensures
        first_hit(rows, x, y, k) matches Some(i) ==> exists|j: int| 0 <= j < rows.len() && (#[trigger] rows[j]).index == i && rows[j].enabled,
    decreases rows.len() - k,
{
    if !(k < 0 || k >= rows.len()) && !(rows[k].rect.has(x, y) && rows[k].enabled) {
        lemma_hit_row(rows, x, y, k + 1);
    }
}

/// The dialog text box sits in the middle of its field: the space above it
/// and below it differ by at most one pixel.
pub proof fn law_dialog_input_centered(rect: Rect, dpi: int)
    requires
        rect.h() >= crate::text_input::input_scale(24, dpi),
        crate::text_input::input_scale(24, dpi) >= 1,
        -100_000_000 <= rect.top <= rect.bottom <= 100_000_000,
    ensures
        ({
            let r = crate::text_input::input_rect(rect, dpi, true);
            r.h() == crate::text_input::input_scale(24, dpi) && -1 <= (r.top - rect.top) - (rect.bottom
                - r.bottom) <= 1
        }),
{
}

/// A centred control keeps its size, and its centre is the rectangle's up
/// to a pixel.
pub proof fn law_centered_control(rect: Rect, width: int, height: int)
    requires
        -100_000_000 <= rect.left <= rect.right <= 100_000_000,
        -100_000_000 <= rect.top <= rect.bottom <= 100_000_000,
        0 <= width <= rect.w(),
        0 <= height <= rect.h(),
    ensures
        ({
            let r = crate::render::centered_spec(rect, width, height);
            &&& r.w() == width
            &&& r.h() == height
            &&& -1 <= (r.left - rect.left) - (rect.right - r.right) <= 1
            &&& -1 <= (r.top - rect.top) - (rect.bottom - r.bottom) <= 1
        }),
{
}

/// Paths that differ only in case get the same item id.
pub proof fn law_item_id_ignores_case(a: Seq<char>, b: Seq<char>)
    requires
        lowercase(a) == lowercase(b),
    ensures
        crate::shell::item_id(a) == crate::shell::item_id(b),
{
}

/// A text without `%` expands to itself.
pub proof fn law_expand_without_references(s: Seq<char>, env: Seq<crate::shell::EnvVar>)
    requires
        index_of_from(s, '%', 0) is None,
    ensures
        crate::shell::expand_from(s, 0, env) == s,
{
    assert(s.subrange(0, s.len() as int) =~= s);
}

/// The command registered for starting with Windows is recognised as
/// enabled for the same executable and for no other.
pub proof fn law_startup_command_recognised(a: Seq<char>, b: Seq<char>)
    ensures
        (crate::startup::startup_command(a) == crate::startup::startup_command(b)) == (a == b),
{
    let ca = crate::startup::startup_command(a);
    let cb = crate::startup::startup_command(b);
    reveal_strlit("\" --startup");
    if ca == cb {
        assert(ca.len() == cb.len());
        assert(a =~= ca.subrange(1, a.len() + 1int));
        assert(b =~= cb.subrange(1, b.len() + 1int));
    }
}

/// A normalised configuration is consistent: the window size within its
/// limits, a centred window never movable, at least one category, and the
/// active category one of them.
pub proof fn law_normalized_is_consistent(c: ConfigModel)
    ensures
        ({
            let n = c.normalized();
            &&& 620 <= n.window.width <= 1600
            &&& 400 <= n.window.height <= 1200
            &&& n.window.centered ==> !n.window.movable
            &&& n.categories.len() >= 1
            &&& has_category_id(n.categories, n.active_category)
        }),
{
    let n = c.normalized();
    if !has_category_id(n.categories, c.active_category) {
        assert(n.categories[0].id == n.active_category);
    }
}

/// Keys typed while the text box has the focus only leave or confirm the
/// text box or move the selection: they never run, delete, start a search
/// or record a hotkey.
pub proof fn law_text_box_keys_stay_local(
    key: u32,
    searching: bool,
    capturing: bool,
    ctrl: bool,
    columns: int,
)
    ensures
        ({
            let c = key_command_spec(key, true, searching, capturing, ctrl, columns);
            c is Nothing || c is CloseSearch || c is CancelTextInput || c is ConfirmTextInput
                || c is MoveSelection
        }),
{
}

/// A window that may not be resized has no resize border: a point is on
/// the caption exactly where the window may be dragged, elsewhere in the
/// client area.
pub proof fn law_fixed_window_has_no_border(window: Rect, x: int, y: int, dpi: int, drag: bool)
    ensures
        frame_hit_spec(window, x, y, dpi, false, drag) == (if drag {
            FrameHit::Caption
        } else {
            FrameHit::Client
        }),
{
}

/// After the keyboard moves the selection, the page shown holds the
/// selected item.
pub proof fn law_selection_in_view(offset: usize, index: int, capacity: usize)
    requires
        0 <= index <= usize::MAX,
        capacity > 0,
    ensures
        offset_showing(offset, index, capacity) <= index < offset_showing(offset, index, capacity)
            + capacity,
{
}

/// A shown window lies inside the monitor's work area whenever the work
/// area can hold the smallest window at that DPI.
pub proof fn law_placement_inside_work_area(work: Rect, window: WindowModel, dpi: int)
    requires
        0 <= window.width <= 100_000,
        0 <= window.height <= 100_000,
        0 <= dpi <= MAX_DPI,
        -1_000_000_000 <= work.left <= work.right <= 1_000_000_000,
        -1_000_000_000 <= work.top <= work.bottom <= 1_000_000_000,
        scaled_len(620, if dpi < 96 { 96 } else { dpi }) <= work.w(),
        scaled_len(400, if dpi < 96 { 96 } else { dpi }) <= work.h(),
    ensures
        ({
            let p = placement(work, window, dpi);
            &&& work.left <= p.left <= p.right <= work.right
            &&& work.top <= p.top <= p.bottom <= work.bottom
        }),
{
    let d = if dpi < 96 {
        96
    } else {
        dpi
    };
    assert(0 <= scaled_len(620, d)) by (nonlinear_arith)
        requires
            96 <= d,
    ;
    assert(0 <= scaled_len(400, d)) by (nonlinear_arith)
        requires
            96 <= d,
    ;
}

/// Scrolling further down never moves the scrollbar thumb up: whether a
/// thumb shows does not depend on the page offset, and its top follows the
/// offset.
pub proof fn law_thumb_follows_offset(l: Layout, o1: int, o2: int, count: int)
    requires
        l.bounded(),
        0 <= o1 <= o2 <= l.max_page_offset,
    ensures
        l.thumb_spec(o1, count) is Some <==> l.thumb_spec(o2, count) is Some,
        l.thumb_spec(o1, count) is Some ==> l.thumb_spec(o1, count)->0.top <= l.thumb_spec(
            o2,
            count,
        )->0.top,
{
    if l.thumb_spec(o1, count) is Some {
        let track = l.scrollbar_track;
        let th = track.h();
        let thumb = l.thumb_height(count);
        let travel = max2(th - thumb, 0);
        let m = max2(l.max_page_offset as int, 1);
        assert(0 <= travel <= th);
        lemma_mul_inequality(o1, o2, travel);
        lemma_mul_inequality(o2, m, travel);
        lemma_mul_nonnegative(o1, travel);
        lemma_mul_is_commutative(o1, travel);
        lemma_mul_is_commutative(o2, travel);
        lemma_mul_is_commutative(m, travel);
        lemma_div_is_ordered(travel * o1, travel * o2, m);
        lemma_div_is_ordered(travel * o2, travel * m, m);
        lemma_div_by_multiple(travel, m);
        lemma_div_pos_is_pos(travel * o1, m);
        assert(0 <= travel * o1 / m <= travel * o2 / m <= travel);
    }
}

/// Dragging the pointer further down the scrollbar never scrolls back up.
pub proof fn law_offset_follows_pointer(l: Layout, y1: int, y2: int, count: int)
    requires
        l.bounded(),
        y1 <= y2,
    ensures
        l.offset_at_spec(y1, count) <= l.offset_at_spec(y2, count),
{
    match l.thumb_spec(l.max_page_offset as int, count) {
        None => {},
        Some(thumb) => {
            let track = l.scrollbar_track;
            let travel = max2(track.h() - thumb.h(), 1);
            let r1 = min2(max2(y1 - track.top - thumb.h() / 2, 0), travel);
            let r2 = min2(max2(y2 - track.top - thumb.h() / 2, 0), travel);
            let m = l.max_page_offset as int;
            assert(0 <= r1 <= r2);
            lemma_mul_inequality(r1, r2, m);
            lemma_div_is_ordered(2 * (r1 * m) + travel, 2 * (r2 * m) + travel, 2 * travel);
        },
    }
}

/// A drag position maps to the page offset closest to its share of the
/// thumb's travel: `relative / travel` of the last offset, off by at most
/// half a page (halves round up).
pub proof fn law_offset_is_closest(l: Layout, y: int, count: int)
    requires
        l.bounded(),
        l.thumb_spec(l.max_page_offset as int, count) is Some,
    ensures
        ({
            let thumb = l.thumb_spec(l.max_page_offset as int, count)->0;
            let track = l.scrollbar_track;
            let travel = max2(track.h() - thumb.h(), 1);
            let relative = min2(max2(y - track.top - thumb.h() / 2, 0), travel);
            let offset = l.offset_at_spec(y, count);
            2 * travel * offset - travel <= 2 * (relative * l.max_page_offset) < 2 * travel * offset
                + travel
        }),
{
    let thumb = l.thumb_spec(l.max_page_offset as int, count)->0;
    let track = l.scrollbar_track;
    let travel = max2(track.h() - thumb.h(), 1);
    let relative = min2(max2(y - track.top - thumb.h() / 2, 0), travel);
    let n = relative * l.max_page_offset;
    let q = (2 * n + travel) / (2 * travel);
    assert(2 * travel * q <= 2 * n + travel < 2 * travel * q + 2 * travel) by (nonlinear_arith)
        requires
            travel >= 1,
            q == (2 * n + travel) / (2 * travel),
    ;
}

/// Adding an item keeps every path known.
proof fn lemma_push_keeps_known(
    c: ConfigModel,
    k: int,
    item: ItemModel,
    env: Seq<crate::shell::EnvVar>,
    key: Seq<char>,
)
    requires
        0 <= k < c.categories.len(),
        known_path(c, env, key),
    ensures
        known_path(with_items(c, k, c.categories[k].items.push(item)), env, key),
{
    let (k2, j) = choose|k2: int, j: int|
        0 <= k2 < c.categories.len() && 0 <= j < c.categories[k2].items.len() && #[trigger] lowercase(
            crate::shell::expand_from(c.categories[k2].items[j].path, 0, env),
        ) == key;
    let c2 = with_items(c, k, c.categories[k].items.push(item));
    assert(c2.categories[k2].items[j] == c.categories[k2].items[j]);
    assert(lowercase(crate::shell::expand_from(c2.categories[k2].items[j].path, 0, env)) == key);
}

/// Adding paths keeps the number of categories.
proof fn lemma_added_keeps_categories(
    c: ConfigModel,
    k: int,
    ps: Seq<Seq<char>>,
    env: Seq<crate::shell::EnvVar>,
)
    requires
        0 <= k < c.categories.len(),
    ensures
        added_paths(c, k, ps, env).categories.len() == c.categories.len(),
    decreases ps.len(),
{
    if ps.len() > 0 {
        lemma_added_keeps_categories(c, k, ps.drop_last(), env);
    }
}

/// Every path that expands to itself is known once it has been added.
proof fn lemma_added_are_known(
    c: ConfigModel,
    k: int,
    ps: Seq<Seq<char>>,
    env: Seq<crate::shell::EnvVar>,
    i: int,
)
    requires
        0 <= k < c.categories.len(),
        0 <= i < ps.len(),
        crate::shell::expand_from(ps[i], 0, env) == ps[i],
    ensures
        known_path(added_paths(c, k, ps, env), env, lowercase(ps[i])),
    decreases ps.len(),
{
    let n = ps.len() as int;
    let rest = ps.drop_last();
    let prev = added_paths(c, k, rest, env);
    let p = ps.last();
    lemma_added_keeps_categories(c, k, rest, env);
    if i == n - 1 {
        if !known_path(prev, env, lowercase(p)) {
            let c2 = with_items(prev, k, prev.categories[k].items.push(crate::shell::item_for_path(p)));
            let j = prev.categories[k].items.len() as int;
            assert(c2.categories[k].items[j] == crate::shell::item_for_path(p));
            assert(lowercase(crate::shell::expand_from(c2.categories[k].items[j].path, 0, env))
                == lowercase(p));
        }
    } else {
        assert(rest[i] == ps[i]);
        lemma_added_are_known(c, k, rest, env, i);
        if !known_path(prev, env, lowercase(p)) {
            lemma_push_keeps_known(prev, k, crate::shell::item_for_path(p), env, lowercase(ps[i]));
        }
    }
}

/// Adding the same files or folders again adds nothing: every path that
/// expands to itself is skipped the second time, because the first time
/// left an item pointing to it.
pub proof fn law_adding_again_adds_nothing(
    c: ConfigModel,
    k: int,
    ps: Seq<Seq<char>>,
    env: Seq<crate::shell::EnvVar>,
)
    requires
        0 <= k < c.categories.len(),
        forall|i: int| 0 <= i < ps.len() ==> crate::shell::expand_from(#[trigger] ps[i], 0, env) == ps[i],
    ensures
        added_paths(added_paths(c, k, ps, env), k, ps, env) == added_paths(c, k, ps, env),
{
    lemma_readding_prefix(c, k, ps, env, ps.len() as int);
    assert(ps.take(ps.len() as int) =~= ps);
}

/// Adding the first `m` paths again to the result of adding them all
/// changes nothing.
proof fn lemma_readding_prefix(
    c: ConfigModel,
    k: int,
    ps: Seq<Seq<char>>,
    env: Seq<crate::shell::EnvVar>,
    m: int,
)
    requires
        0 <= k < c.categories.len(),
        0 <= m <= ps.len(),
        forall|i: int| 0 <= i < ps.len() ==> crate::shell::expand_from(#[trigger] ps[i], 0, env) == ps[i],
    ensures
        added_paths(added_paths(c, k, ps, env), k, ps.take(m), env) == added_paths(c, k, ps, env),
    decreases m,
{
    if m > 0 {
        lemma_readding_prefix(c, k, ps, env, m - 1);
        let next = ps.take(m);
        assert(next.drop_last() =~= ps.take(m - 1));
        assert(next.last() == ps[m - 1]);
        lemma_added_are_known(c, k, ps, env, m - 1);
    }
}

/// Leaving a search undoes entering it: the configuration, the page shown,
/// the window's size and DPI, the menu, the overlays, hotkey capture and
/// the start-up flag are as before, with no query, no results, no
/// selection and no text box in use.
pub proof fn law_search_round_trip(
    a: Launcher,
    b: Launcher,
    c: Launcher,
    r1: Seq<crate::launcher::Action>,
    r2: Seq<crate::launcher::Action>,
)
    requires
        a.view == crate::layout::Screen::Launcher,
        !a.add_overlay_open,
        !a.search_mode,
        a.input_mode is None,
        search_entered(a, b, r1),
        search_closed(b, c, r2),
    ensures
        c.config == a.config,
        c.view == a.view,
        !c.search_mode,
        c.input_mode is None,
        c.query@.len() == 0,
        c.search_results@.len() == 0,
        c.selected is None,
        c.dpi == a.dpi && c.width == a.width && c.height == a.height,
        c.menu == a.menu && c.modal_open == a.modal_open,
        c.hotkey_capture == a.hotkey_capture && c.add_overlay_open == a.add_overlay_open,
        c.startup_enabled == a.startup_enabled,
{
    reveal(search_entered);
    reveal(search_closed);
}

/// In search results an item named exactly as the query comes before every
/// item whose name is not the query (matches by name part, by subsequence
/// or by path).
pub proof fn law_exact_names_first(c: ConfigModel, q: Seq<char>, refs: Seq<ItemRef>, i: int, j: int)
    requires
        is_ranking(c, q, refs),
        0 <= i < refs.len(),
        0 <= j < refs.len(),
        lowercase(c.categories[refs[i].category as int].items[refs[i].item as int].name) == q,
        lowercase(c.categories[refs[j].category as int].items[refs[j].item as int].name) != q,
    ensures
        i < j,
{
    if j < i {
        assert(crate::search::ranked_before(
            crate::search::item_score(c, refs[j], q)->0,
            refs[j],
            crate::search::item_score(c, refs[i], q)->0,
            refs[i],
        ));
    }
}

/// Whether a character is a lowercase hexadecimal digit.
pub open spec fn is_hex_digit(c: char) -> bool {
    exists|v: u64| v < 16 && c == hex_digit(v)
}

/// While some candidate id for a name is free, the id chosen for a new
/// category is settled by the configuration and the name: it is
/// `category-` followed by sixteen lowercase hexadecimal digits, and once a
/// category with that id is added, the next id chosen differs from it.
pub proof fn law_category_id_form(
    categories: Seq<CategoryModel>,
    name: Seq<char>,
    id: Seq<char>,
    other: Seq<char>,
    added: CategoryModel,
    next: Seq<char>,
)
    requires
        exists|a: u64| !has_category_id(categories, #[trigger] category_candidate(name, a)),
        fresh_category_id(categories, name, id),
    ensures
        fresh_category_id(categories, name, other) ==> other == id,
        id.len() == 25,
        id.subrange(0, 9) == seq!['c', 'a', 't', 'e', 'g', 'o', 'r', 'y', '-'],
        forall|i: int| 9 <= i < 25 ==> is_hex_digit(#[trigger] id[i]),
        added.id == id && fresh_category_id(categories.push(added), name, next) ==> next != id,
{
    let free = choose|a: u64| !has_category_id(categories, #[trigger] category_candidate(name, a));
    assert(!has_category_id(categories, category_candidate(name, free)));
    let a1 = choose|a: u64|
        id == category_candidate(name, a) && forall|b: u64|
            b < a ==> has_category_id(categories, #[trigger] category_candidate(name, b));
    assert(id == category_candidate(name, a1));
    if fresh_category_id(categories, name, other) {
        let a2 = choose|a: u64|
            other == category_candidate(name, a) && forall|b: u64|
                b < a ==> has_category_id(categories, #[trigger] category_candidate(name, b));
        assert(other == category_candidate(name, a2));
        if a1 < a2 {
            assert(has_category_id(categories, category_candidate(name, a1)));
        } else if a2 < a1 {
            assert(has_category_id(categories, category_candidate(name, a2)));
        }
    }
    assert forall|i: int| 9 <= i < 25 implies is_hex_digit(#[trigger] id[i]) by {
        let h = crate::config::name_attempt_hash(name, a1);
        let shift = (60 - 4 * (i - 9)) as u64;
        let v = (h >> shift) & 15u64;
        assert((h >> shift) & 15u64 < 16) by (bit_vector);
        assert(id[i] == hex_digit(v));
    }
    assert(id.subrange(0, 9) =~= seq!['c', 'a', 't', 'e', 'g', 'o', 'r', 'y', '-']);
    if added.id == id && fresh_category_id(categories.push(added), name, next) {
        assert(categories.push(added)[categories.len() as int].id == id);
    }
}

/// Where the first non-whitespace character at or after `i` lies.
proof fn lemma_first_non_white(s: Seq<char>, i: int)
    requires
        0 <= i <= s.len(),
    ensures
        i <= first_non_white(s, i) <= s.len(),
        first_non_white(s, i) < s.len() ==> !is_white(s[first_non_white(s, i)]),
    decreases s.len() - i,
{
    if i < s.len() && is_white(s[i]) {
        lemma_first_non_white(s, i + 1);
    }
}

/// Where trailing whitespace above `low` ends.
proof fn lemma_trimmed_end(s: Seq<char>, low: int, j: int)
    requires
        0 <= low <= j <= s.len(),
    ensures
        low <= trimmed_end(s, low, j) <= j,
        trimmed_end(s, low, j) > low ==> !is_white(s[trimmed_end(s, low, j) - 1]),
    decreases j - low,
{
    if j > low && is_white(s[j - 1]) {
        lemma_trimmed_end(s, low, j - 1);
    }
}

/// Trimming a trimmed text changes nothing.
proof fn lemma_trim_idempotent(s: Seq<char>)
    ensures
        trim(trim(s)) == trim(s),
{
    let a = first_non_white(s, 0);
    lemma_first_non_white(s, 0);
    let b = trimmed_end(s, a, s.len() as int);
    lemma_trimmed_end(s, a, s.len() as int);
    let t = trim(s);
    assert(t == s.subrange(a, b));
    if t.len() > 0 {
        assert(t[0] == s[a]);
        assert(first_non_white(t, 0) == 0);
        assert(t[t.len() - 1] == s[b - 1]);
        assert(trimmed_end(t, 0, t.len() as int) == t.len());
    }
    assert(trim(t) =~= t);
}

/// Two lists, each strictly increasing for an order that is irreflexive
/// and asymmetric, that hold the same elements are equal.
proof fn lemma_sorted_same_members<T>(lt: spec_fn(T, T) -> bool, r1: Seq<T>, r2: Seq<T>)
    requires
        forall|a: T| !#[trigger] lt(a, a),
        forall|a: T, b: T| #[trigger] lt(a, b) ==> !lt(b, a),
        forall|k1: int, k2: int| 0 <= k1 < k2 < r1.len() ==> lt(#[trigger] r1[k1], #[trigger] r1[k2]),
        forall|k1: int, k2: int| 0 <= k1 < k2 < r2.len() ==> lt(#[trigger] r2[k1], #[trigger] r2[k2]),
        forall|k: int| 0 <= k < r1.len() ==> r2.contains(#[trigger] r1[k]),
        forall|k: int| 0 <= k < r2.len() ==> r1.contains(#[trigger] r2[k]),
    ensures
        r1 == r2,
    decreases r1.len(),
{
    if r1.len() == 0 {
        if r2.len() > 0 {
            assert(r1.contains(r2[0]));
        }
    } else if r2.len() == 0 {
        assert(r2.contains(r1[0]));
    } else {
        let x = r1[0];
        let y = r2[0];
        assert(r2.contains(x));
        assert(r1.contains(y));
        let j = choose|m: int| 0 <= m < r2.len() && r2[m] == x;
        let i = choose|m: int| 0 <= m < r1.len() && r1[m] == y;
        if j > 0 {
            assert(lt(r2[0], r2[j]));
            if i > 0 {
                assert(lt(r1[0], r1[i]));
            }
            assert(false);
        }
        let t1 = r1.drop_first();
        let t2 = r2.drop_first();
        assert forall|k1: int, k2: int| 0 <= k1 < k2 < t1.len() implies lt(#[trigger] t1[k1], #[trigger] t1[k2]) by {
            assert(t1[k1] == r1[k1 + 1] && t1[k2] == r1[k2 + 1]);
        }
        assert forall|k1: int, k2: int| 0 <= k1 < k2 < t2.len() implies lt(#[trigger] t2[k1], #[trigger] t2[k2]) by {
            assert(t2[k1] == r2[k1 + 1] && t2[k2] == r2[k2 + 1]);
        }
        assert forall|k: int| 0 <= k < t1.len() implies t2.contains(#[trigger] t1[k]) by {
            assert(t1[k] == r1[k + 1]);
            assert(lt(r1[0], r1[k + 1]));
            assert(r2.contains(r1[k + 1]));
            let m = choose|m: int| 0 <= m < r2.len() && r2[m] == r1[k + 1];
            assert(m != 0);
            assert(t2[m - 1] == t1[k]);
        }
        assert forall|k: int| 0 <= k < t2.len() implies t1.contains(#[trigger] t2[k]) by {
            assert(t2[k] == r2[k + 1]);
            assert(lt(r2[0], r2[k + 1]));
            assert(r1.contains(r2[k + 1]));
            let m = choose|m: int| 0 <= m < r1.len() && r1[m] == r2[k + 1];
            assert(m != 0);
            assert(t1[m - 1] == t2[k]);
        }
        lemma_sorted_same_members(lt, t1, t2);
        assert(r1 =~= seq![x] + t1);
        assert(r2 =~= seq![x] + t2);
    }
}

/// The ranking order is strict: no item comes before itself, and of two
/// items at most one comes first.
proof fn lemma_ranked_before_strict(s1: (u8, usize, usize), r1: ItemRef, s2: (u8, usize, usize), r2: ItemRef)
    ensures
        !ranked_before(s1, r1, s1, r1),
        ranked_before(s1, r1, s2, r2) ==> !ranked_before(s2, r2, s1, r1),
{
}

/// Two rankings of the same matches are the same list.
#[verifier::spinoff_prover]
proof fn lemma_ranking_unique(c: ConfigModel, q: Seq<char>, r1: Seq<ItemRef>, r2: Seq<ItemRef>)
    requires
        is_ranking(c, q, r1),
        is_ranking(c, q, r2),
    ensures
        r1 == r2,
{
    let lt = |a: ItemRef, b: ItemRef|
        ranked_before(item_score(c, a, q)->0, a, item_score(c, b, q)->0, b);
    assert forall|a: ItemRef| !#[trigger] lt(a, a) by {
        lemma_ranked_before_strict(item_score(c, a, q)->0, a, item_score(c, a, q)->0, a);
    }
    assert forall|a: ItemRef, b: ItemRef| #[trigger] lt(a, b) implies !lt(b, a) by {
        lemma_ranked_before_strict(item_score(c, a, q)->0, a, item_score(c, b, q)->0, b);
    }
    assert forall|k1: int, k2: int| 0 <= k1 < k2 < r1.len() implies lt(#[trigger] r1[k1], #[trigger] r1[k2]) by {
    }
    assert forall|k1: int, k2: int| 0 <= k1 < k2 < r2.len() implies lt(#[trigger] r2[k1], #[trigger] r2[k2]) by {
    }
    assert forall|k: int| 0 <= k < r1.len() implies r2.contains(#[trigger] r1[k]) by {
        assert(valid_ref(c, r1[k]) && item_score(c, r1[k], q) is Some);
    }
    assert forall|k: int| 0 <= k < r2.len() implies r1.contains(#[trigger] r2[k]) by {
        assert(valid_ref(c, r2[k]) && item_score(c, r2[k], q) is Some);
    }
    lemma_sorted_same_members(lt, r1, r2);
}

/// Search results do not depend on whitespace around the query: a query
/// and the same query trimmed give the same list, since each gives the one
/// ranking of its matches.
pub proof fn law_results_ignore_surrounding_space(
    c: ConfigModel,
    query: Seq<char>,
    r1: Seq<ItemRef>,
    r2: Seq<ItemRef>,
)
    requires
        search_key(query).len() == 0 ==> r1.len() == 0,
        search_key(query).len() > 0 ==> is_ranking(c, search_key(query), r1),
        search_key(trim(query)).len() == 0 ==> r2.len() == 0,
        search_key(trim(query)).len() > 0 ==> is_ranking(c, search_key(trim(query)), r2),
    ensures
        r1 == r2,
{
    lemma_trim_idempotent(query);
    assert(search_key(trim(query)) == search_key(query));
    if search_key(query).len() > 0 {
        lemma_ranking_unique(c, search_key(query), r1, r2);
    }
}

/// Whether `p` occurs in `t` as a contiguous run of characters.
pub open spec fn contains_text(t: Seq<char>, p: Seq<char>) -> bool {
    exists|i: int| 0 <= i && i + p.len() <= t.len() && #[trigger] t.subrange(i, i + p.len()) == p
}

/// Whether `f` places the characters of `q` in `t`, at increasing positions.
pub open spec fn embeds(t: Seq<char>, q: Seq<char>, f: spec_fn(int) -> int) -> bool {
    &&& forall|j: int| 0 <= j < q.len() ==> 0 <= #[trigger] f(j) < t.len() && t[f(j)] == q[j]
    &&& forall|a: int, b: int| 0 <= a < b < q.len() ==> #[trigger] f(a) < #[trigger] f(b)
}

/// Whether the characters of `q` appear in `t` in order (not necessarily
/// next to each other).
pub open spec fn in_order(t: Seq<char>, q: Seq<char>) -> bool {
    exists|f: spec_fn(int) -> int| #[trigger] embeds(t, q, f)
}

/// A run of `q` in `t` is also an in-order appearance.
proof fn lemma_contains_in_order(t: Seq<char>, q: Seq<char>)
    requires
        contains_text(t, q),
    ensures
        in_order(t, q),
{
    let i = choose|i: int| 0 <= i && i + q.len() <= t.len() && #[trigger] t.subrange(i, i + q.len()) == q;
    let f = |j: int| i + j;
    assert forall|j: int| 0 <= j < q.len() implies 0 <= #[trigger] f(j) < t.len() && t[f(j)] == q[j] by {
        assert(t.subrange(i, i + q.len())[j] == t[i + j]);
    }
    assert(embeds(t, q, f));
}

/// `find_from` finds an occurrence at or after `i` whenever there is one
/// at `k`, no later than `k`.
proof fn lemma_find_from_complete(t: Seq<char>, p: Seq<char>, i: int, k: int)
    requires
        0 <= i <= k,
        occurs_at(t, p, k),
    ensures
        find_from(t, p, i) is Some,
    decreases k - i,
{
    if !occurs_at(t, p, i) {
        lemma_find_from_complete(t, p, i + 1, k);
    }
}

/// What `find_from` finds is an occurrence.
proof fn lemma_find_from_sound(t: Seq<char>, p: Seq<char>, i: int)
    ensures
        find_from(t, p, i) matches Some(k) ==> occurs_at(t, p, k),
    decreases t.len() + 1 - i,
{
    if !(i < 0 || i + p.len() > t.len()) && !occurs_at(t, p, i) {
        lemma_find_from_sound(t, p, i + 1);
    }
}

/// `find_from(t, p, 0)` finds something exactly when `p` occurs in `t`.
proof fn lemma_find_iff_contains(t: Seq<char>, p: Seq<char>)
    ensures
        find_from(t, p, 0) is Some <==> contains_text(t, p),
{
    lemma_find_from_sound(t, p, 0);
    if let Some(k) = find_from(t, p, 0) {
        assert(t.subrange(k, k + p.len()) == p);
    }
    if contains_text(t, p) {
        let i = choose|i: int| 0 <= i && i + p.len() <= t.len() && #[trigger] t.subrange(i, i + p.len()) == p;
        lemma_find_from_complete(t, p, 0, i);
    }
}

/// `index_of_from` finds a character at or after `i` no later than an
/// occurrence `k`.
proof fn lemma_index_of_complete(t: Seq<char>, c: char, i: int, k: int)
    requires
        0 <= i <= k < t.len(),
        t[k] == c,
    ensures
        index_of_from(t, c, i) matches Some(p) && i <= p <= k,
    decreases k - i,
{
    if t[i] != c {
        lemma_index_of_complete(t, c, i + 1, k);
    }
}

/// What `index_of_from` finds is the character, at or after `i`.
proof fn lemma_index_of_sound(t: Seq<char>, c: char, i: int)
    ensures
        index_of_from(t, c, i) matches Some(p) ==> i <= p < t.len() && t[p] == c,
    decreases t.len() - i,
{
    if !(i < 0 || i >= t.len()) && t[i] != c {
        lemma_index_of_sound(t, c, i + 1);
    }
}

/// The greedy embedding of `q[j..]` from `from` succeeds whenever some
/// embedding places `q[j]` at or after `from`.
proof fn lemma_greedy_complete(t: Seq<char>, q: Seq<char>, f: spec_fn(int) -> int, j: int, from: int)
    requires
        embeds(t, q, f),
        0 <= j <= q.len(),
        0 <= from,
        j < q.len() ==> from <= f(j),
    ensures
        greedy_last(t, q, j, from) is Some,
    decreases q.len() - j,
{
    if j < q.len() {
        assert(0 <= f(j) < t.len() && t[f(j)] == q[j]);
        lemma_index_of_complete(t, q[j], from, f(j));
        let p = index_of_from(t, q[j], from)->0;
        if j + 1 < q.len() {
            assert(f(j) < f(j + 1));
        }
        lemma_greedy_complete(t, q, f, j + 1, p + 1);
    }
}

/// A successful greedy embedding of `q[j..]` from `from` is an embedding.
proof fn lemma_greedy_sound(t: Seq<char>, q: Seq<char>, j: int, from: int) -> (f: spec_fn(int) -> int)
    requires
        0 <= j <= q.len(),
        0 <= from,
        greedy_last(t, q, j, from) is Some,
    ensures
        forall|x: int| j <= x < q.len() ==> from <= #[trigger] f(x) < t.len() && t[f(x)] == q[x],
        forall|a: int, b: int| j <= a < b < q.len() ==> #[trigger] f(a) < #[trigger] f(b),
    decreases q.len() - j,
{
    if j >= q.len() {
        |x: int| 0int
    } else {
        lemma_index_of_sound(t, q[j], from);
        let p = index_of_from(t, q[j], from)->0;
        let g = lemma_greedy_sound(t, q, j + 1, p + 1);
        let f = |x: int| if x == j { p } else { g(x) };
        assert forall|a: int, b: int| j <= a < b < q.len() implies #[trigger] f(a) < #[trigger] f(b) by {
            if a == j {
                assert(p + 1 <= g(b));
            } else {
                assert(g(a) < g(b));
            }
        }
        f
    }
}

/// The greedy subsequence search succeeds exactly when the characters of a
/// non-empty `q` appear in `t` in order.
proof fn lemma_subsequence_iff_in_order(t: Seq<char>, q: Seq<char>)
    requires
        q.len() > 0,
    ensures
        subsequence_gaps_spec(t, q) is Some <==> in_order(t, q),
{
    if in_order(t, q) {
        let f = choose|f: spec_fn(int) -> int| #[trigger] embeds(t, q, f);
        assert(0 <= f(0) < t.len() && t[f(0)] == q[0]);
        lemma_index_of_complete(t, q[0], 0, f(0));
        let first = index_of_from(t, q[0], 0)->0;
        if 1 < q.len() {
            assert(f(0) < f(1));
        }
        lemma_greedy_complete(t, q, f, 1, first + 1);
    }
    if subsequence_gaps_spec(t, q) is Some {
        lemma_index_of_sound(t, q[0], 0);
        let first = index_of_from(t, q[0], 0)->0;
        let g = lemma_greedy_sound(t, q, 1, first + 1);
        let f = |x: int| if x == 0 { first } else { g(x) };
        assert forall|a: int, b: int| 0 <= a < b < q.len() implies #[trigger] f(a) < #[trigger] f(b) by {
            if a == 0 {
                assert(first + 1 <= g(b));
            } else {
                assert(g(a) < g(b));
            }
        }
        assert forall|x: int| 0 <= x < q.len() implies 0 <= #[trigger] f(x) < t.len() && t[f(x)] == q[x] by {
            if x > 0 {
                assert(first + 1 <= g(x) < t.len() && t[g(x)] == q[x]);
            }
        }
        assert(embeds(t, q, f));
    }
}

/// How one item ranks against a query: it matches exactly when the query's
/// characters appear in order in its name or its path, and its tier is
/// 0 for a name equal to the query, 1 for a name containing the query,
/// 2 for a name holding its characters in order, 3 for a path containing
/// the query, and 4 for a path holding its characters in order, each
/// tier taken only when no better one applies.
pub proof fn law_match_tiers(name: Seq<char>, path: Seq<char>, q: Seq<char>)
    requires
        q.len() > 0,
    ensures
        match_score_spec(name, path, q) is Some <==> in_order(name, q) || in_order(path, q),
        contains_text(path, q) ==> match_score_spec(name, path, q) is Some,
        (match_score_spec(name, path, q) matches Some(s) && s.0 == 0) <==> name == q,
        (match_score_spec(name, path, q) matches Some(s) && s.0 == 1) <==> name != q && contains_text(name, q),
        (match_score_spec(name, path, q) matches Some(s) && s.0 == 2) <==> !contains_text(name, q) && in_order(name, q),
        (match_score_spec(name, path, q) matches Some(s) && s.0 == 3) <==> !in_order(name, q) && contains_text(path, q),
        (match_score_spec(name, path, q) matches Some(s) && s.0 == 4) <==> !in_order(name, q) && !contains_text(path, q)
            && in_order(path, q),
{
    lemma_find_iff_contains(name, q);
    lemma_find_iff_contains(path, q);
    lemma_subsequence_iff_in_order(name, q);
    lemma_subsequence_iff_in_order(path, q);
    if contains_text(name, q) {
        lemma_contains_in_order(name, q);
    }
    if contains_text(path, q) {
        lemma_contains_in_order(path, q);
    }
    if name == q {
        assert(name.subrange(0, q.len() as int) == q);
        assert(contains_text(name, q));
        lemma_contains_in_order(name, q);
    }
}

/// Where `find_from` stops: no occurrence lies between `i` and what it finds.
proof fn lemma_find_from_first(t: Seq<char>, p: Seq<char>, i: int)
    requires
        0 <= i,
    ensures
        find_from(t, p, i) matches Some(k) ==> forall|j: int| i <= j < k ==> !occurs_at(t, p, j),
    decreases t.len() + 1 - i,
{
    if !(i < 0 || i + p.len() > t.len()) && !occurs_at(t, p, i) {
        lemma_find_from_first(t, p, i + 1);
    }
}

/// Within a tier, the score compares what the tier is about: an exact
/// name scores zero, a name or path containing the query scores the UTF-8
/// length of the text before the query's first occurrence, and every
/// score ends with the UTF-8 length of the text matched (the name for
/// tiers 0 to 2, the path for tiers 3 and 4).
pub proof fn law_match_positions(name: Seq<char>, path: Seq<char>, q: Seq<char>)
    requires
        q.len() > 0,
    ensures
        match_score_spec(name, path, q) matches Some(s) ==> {
            &&& s.0 == 0 ==> s.1 == 0
            &&& s.0 <= 2 ==> s.2 == byte_len(name)
            &&& s.0 >= 3 ==> s.2 == byte_len(path)
            &&& s.0 == 1 ==> exists|i: int|
                0 <= i && i + q.len() <= name.len() && name.subrange(i, i + q.len()) == q && (forall|j: int|
                    0 <= j < i ==> #[trigger] name.subrange(j, j + q.len()) != q) && s.1 == byte_len(
                    #[trigger] name.take(i),
                )
            &&& s.0 == 3 ==> exists|i: int|
                0 <= i && i + q.len() <= path.len() && path.subrange(i, i + q.len()) == q && (forall|j: int|
                    0 <= j < i ==> #[trigger] path.subrange(j, j + q.len()) != q) && s.1 == byte_len(
                    #[trigger] path.take(i),
                )
        },
{
    lemma_find_from_sound(name, q, 0);
    lemma_find_from_sound(path, q, 0);
    lemma_find_from_first(name, q, 0);
    lemma_find_from_first(path, q, 0);
    if let Some(s) = match_score_spec(name, path, q) {
        if s.0 == 1 {
            let i = find_from(name, q, 0)->0;
            assert forall|j: int| 0 <= j < i implies #[trigger] name.subrange(j, j + q.len()) != q by {
                assert(!occurs_at(name, q, j));
            }
            assert(s.1 == byte_len(name.take(i)));
        }
        if s.0 == 3 {
            let i = find_from(path, q, 0)->0;
            assert forall|j: int| 0 <= j < i implies #[trigger] path.subrange(j, j + q.len()) != q by {
                assert(!occurs_at(path, q, j));
            }
            assert(s.1 == byte_len(path.take(i)));
        }
    }
}

/// Search finds an item exactly when the query's characters appear in
/// order in its lowercase name or lowercase path; in particular an item
/// whose path contains the query is found, whatever its name.
pub proof fn law_search_finds_matching_items(c: ConfigModel, q: Seq<char>, refs: Seq<ItemRef>, r: ItemRef)
    requires
        q.len() > 0,
        is_ranking(c, q, refs),
        valid_ref(c, r),
    ensures
        ({
            let item = c.categories[r.category as int].items[r.item as int];
            &&& refs.contains(r) <==> in_order(lowercase(item.name), q) || in_order(lowercase(item.path), q)
            &&& contains_text(lowercase(item.path), q) ==> refs.contains(r)
        }),
{
    let item = c.categories[r.category as int].items[r.item as int];
    law_match_tiers(lowercase(item.name), lowercase(item.path), q);
    if refs.contains(r) {
        let k = choose|k: int| 0 <= k < refs.len() && refs[k] == r;
        assert(item_score(c, refs[k], q) is Some);
    }
    if item_score(c, r, q) is Some {
        let k = choose|k: int| 0 <= k < refs.len() && #[trigger] refs[k] == r;
        assert(refs[k] == r);
    }
}

/// With the launcher focused and no hotkey being recorded, Right moves the
/// selection one item forward and Left one item back, Down one grid row
/// forward and Up one row back, whether Ctrl is held or not; Return runs
/// the selection, Delete removes it, Escape steps back and Ctrl+F opens the
/// search. While a hotkey is being recorded every key goes to it. While
/// the text box has the focus, Left and Right belong to it, Return confirms
/// it, Escape closes the search or cancels the edit, and Up and Down still
/// move the selection by a row.
pub proof fn law_arrow_keys(searching: bool, capturing: bool, ctrl: bool, columns: int, key: u32)
    requires
        0 <= columns <= isize::MAX,
    ensures
        key_command_spec(0x27, false, searching, false, ctrl, columns) == KeyCommand::MoveSelection(1isize),
        key_command_spec(0x25, false, searching, false, ctrl, columns) == KeyCommand::MoveSelection(-1isize),
        key_command_spec(0x28, false, searching, false, ctrl, columns) == KeyCommand::MoveSelection(columns as isize),
        key_command_spec(0x26, false, searching, false, ctrl, columns) == KeyCommand::MoveSelection((-columns) as isize),
        key_command_spec(0x0D, false, searching, false, ctrl, columns) == KeyCommand::RunSelected,
        key_command_spec(0x2E, false, searching, false, ctrl, columns) == KeyCommand::DeleteSelected,
        key_command_spec(0x1B, false, searching, false, ctrl, columns) == KeyCommand::Escape,
        key_command_spec(0x46, false, searching, false, true, columns) == KeyCommand::EnterSearch,
        key_command_spec(0x46, false, searching, false, false, columns) == KeyCommand::Nothing,
        key_command_spec(key, false, searching, true, ctrl, columns) == KeyCommand::CaptureHotkey,
        key_command_spec(0x27, true, searching, capturing, ctrl, columns) == KeyCommand::Nothing,
        key_command_spec(0x25, true, searching, capturing, ctrl, columns) == KeyCommand::Nothing,
        key_command_spec(0x0D, true, searching, capturing, ctrl, columns) == KeyCommand::ConfirmTextInput,
        key_command_spec(0x1B, true, true, capturing, ctrl, columns) == KeyCommand::CloseSearch,
        key_command_spec(0x1B, true, false, capturing, ctrl, columns) == KeyCommand::CancelTextInput,
        key_command_spec(0x28, true, searching, capturing, ctrl, columns) == KeyCommand::MoveSelection(columns as isize),
        key_command_spec(0x26, true, searching, capturing, ctrl, columns) == KeyCommand::MoveSelection((-columns) as isize),
        !(key == 0x0D || key == 0x1B || key == 0x2E || (0x25 <= key <= 0x28) || key == 0x46)
            ==> key_command_spec(key, false, searching, false, ctrl, columns) == KeyCommand::Nothing,
        !(key == 0x0D || key == 0x1B || key == 0x26 || key == 0x28) ==> key_command_spec(
            key,
            true,
            searching,
            capturing,
            ctrl,
            columns,
        ) == KeyCommand::Nothing,
{
}

/// Running the selection launches the item shown at the selected position
/// when that position holds an existing item, and nothing when nothing is
/// selected or the position is past the items on show.
pub proof fn law_selected_item_is_the_one_shown(l: Launcher)
    ensures
        l.selected matches Some(i) && i < l.visible().len() && valid_item(l.config@, l.visible()[i as int])
            ==> selected_target(l) == Some(l.visible()[l.selected->0 as int]),
        l.selected matches Some(i) && i >= l.visible().len() ==> selected_target(l) is None,
        l.selected is None ==> selected_target(l) is None,
{
}

/// Deleting a category hands its items to the category on its left, or to
/// the next one when it is the first: that category keeps its id and now
/// holds its own items followed by the deleted one's, it is the index
/// reported, categories before it are unchanged and later ones move up by
/// one. When the deleted category was the active one, the receiving one
/// becomes active.
pub proof fn law_deletion_goes_to_left_neighbour(c: ConfigModel, k: int)
    requires
        c.categories.len() > 1,
        0 <= k < c.categories.len(),
    ensures
        ({
            let d = after_category_deletion(c, k);
            let left = if k > 0 { k - 1 } else { 0 };
            let neighbour = if k > 0 { k - 1 } else { 1 };
            &&& deletion_destination(k) == left
            &&& d.categories[left].id == c.categories[neighbour].id
            &&& d.categories[left].items == c.categories[neighbour].items + c.categories[k].items
            &&& forall|j: int| 0 <= j < left ==> #[trigger] d.categories[j] == c.categories[j]
            &&& forall|j: int| k < j < c.categories.len() && j - 1 != left ==> #[trigger] d.categories[j - 1] == c.categories[j]
            &&& d.categories.len() == c.categories.len() - 1
            &&& c.active_category == c.categories[k].id ==> d.active_category == c.categories[neighbour].id
            &&& c.active_category != c.categories[k].id ==> d.active_category == c.active_category
        }),
{
}

/// A hotkey is accepted exactly when Alt, Ctrl, Shift or Win is held and
/// the key is a letter `A`-`Z`, a digit `0`-`9` or `F1`-`F24`; a modifier
/// key on its own never is.
pub proof fn law_hotkey_keys(h: HotkeyConfig)
    ensures
        valid_hotkey(h) <==> (h.modifiers & 1 != 0 || h.modifiers & 2 != 0 || h.modifiers & 4 != 0
            || h.modifiers & 8 != 0) && ((0x41 <= h.key <= 0x5A) || (0x30 <= h.key <= 0x39) || (0x70
            <= h.key <= 0x87)),
        modifier_key(h.key) ==> !valid_hotkey(h),
{
    let m = h.modifiers;
    assert((m & 0xF != 0) <==> (m & 1 != 0 || m & 2 != 0 || m & 4 != 0 || m & 8 != 0)) by (bit_vector);
}

/// A hotkey is shown as its modifiers followed by its key's name: `Ctrl + `
/// first when Ctrl is held, the key last; a letter or digit key is named by
/// that character, `F1`-`F9` by `F` and one digit, `F10`-`F24` by `F` and
/// two digits.
pub proof fn law_hotkey_text(h: HotkeyConfig)
    ensures
        ({
            let text = crate::hotkey::hotkey_label(h);
            let name = crate::hotkey::key_label(h.key);
            &&& text.len() >= name.len()
            &&& text.subrange(text.len() - name.len(), text.len() as int) == name
            &&& h.modifiers & 2 != 0 ==> text.take(7) == seq!['C', 't', 'r', 'l', ' ', '+', ' ']
            &&& (0x30 <= h.key <= 0x39 || 0x41 <= h.key <= 0x5A) ==> name.len() == 1 && name[0] as u32 == h.key
            &&& 0x70 <= h.key <= 0x78 ==> name == seq!['F', ((h.key - 0x70 + 1) + 0x30) as char]
            &&& 0x79 <= h.key <= 0x87 ==> name == seq!['F', ((h.key - 0x70 + 1) / 10 + 0x30) as char, ((h.key - 0x70 + 1) % 10 + 0x30) as char]
        }),
{
    let text = crate::hotkey::hotkey_label(h);
    let name = crate::hotkey::key_label(h.key);
    assert(text.subrange(text.len() - name.len(), text.len() as int) =~= name);
}

/// What `index_of_from` skips holds no such character.
proof fn lemma_index_of_first(t: Seq<char>, c: char, i: int)
    requires
        0 <= i,
    ensures
        index_of_from(t, c, i) matches Some(p) ==> forall|x: int| i <= x < p ==> t[x] != c,
    decreases t.len() - i,
{
    if !(i < 0 || i >= t.len()) && t[i] != c {
        lemma_index_of_first(t, c, i + 1);
    }
}

/// Whether `f` is the leftmost way of placing `q` in `t`: each character
/// of `q` at the first fitting position after the previous one.
pub open spec fn leftmost(t: Seq<char>, q: Seq<char>, f: spec_fn(int) -> int) -> bool {
    &&& embeds(t, q, f)
    &&& forall|x: int| 0 <= x < f(0) ==> t[x] != q[0]
    &&& forall|j: int, x: int| 0 < j < q.len() && f(j - 1) < x < #[trigger] f(j) ==> #[trigger] t[x] != q[j]
}

/// The greedy embedding of `q[j..]` from `from` places each character at
/// the first fitting position, and ends where `greedy_last` says.
proof fn lemma_greedy_leftmost(t: Seq<char>, q: Seq<char>, j: int, from: int) -> (f: spec_fn(int) -> int)
    requires
        0 <= j < q.len(),
        0 <= from,
        greedy_last(t, q, j, from) is Some,
    ensures
        forall|x: int| j <= x < q.len() ==> from <= #[trigger] f(x) < t.len() && t[f(x)] == q[x],
        forall|a: int, b: int| j <= a < b < q.len() ==> #[trigger] f(a) < #[trigger] f(b),
        forall|x: int| from <= x < f(j) ==> t[x] != q[j],
        forall|k: int, x: int| j < k < q.len() && f(k - 1) < x < #[trigger] f(k) ==> #[trigger] t[x] != q[k],
        f(q.len() - 1) == greedy_last(t, q, j, from)->0,
        f(j) == index_of_from(t, q[j], from)->0,
    decreases q.len() - j,
{
    lemma_index_of_sound(t, q[j], from);
    lemma_index_of_first(t, q[j], from);
    let p = index_of_from(t, q[j], from)->0;
    if j + 1 >= q.len() {
        assert(greedy_last(t, q, j + 1, p + 1) == Some(p));
        |x: int| p
    } else {
        let g = lemma_greedy_leftmost(t, q, j + 1, p + 1);
        let f = |x: int| if x == j { p } else { g(x) };
        assert(f(q.len() - 1) == g(q.len() - 1));
        assert forall|a: int, b: int| j <= a < b < q.len() implies #[trigger] f(a) < #[trigger] f(b) by {
            if a == j {
                assert(p + 1 <= g(b));
            } else {
                assert(g(a) < g(b));
            }
        }
        assert forall|k: int, x: int| j < k < q.len() && f(k - 1) < x < #[trigger] f(k) implies #[trigger] t[x] != q[k] by {
            if k == j + 1 {
                assert(p + 1 <= x < g(j + 1));
            } else {
                assert(g(k - 1) < x < g(k));
            }
        }
        f
    }
}

/// A subsequence score counts the characters skipped between the first
/// and the last character of the leftmost placement of the query in the
/// name (tier 2) or the path (tier 4).
pub proof fn law_match_gaps(name: Seq<char>, path: Seq<char>, q: Seq<char>)
    requires
        q.len() > 0,
        name.len() <= usize::MAX,
        path.len() <= usize::MAX,
    ensures
        match_score_spec(name, path, q) matches Some(s) ==> {
            &&& s.0 == 2 ==> exists|f: spec_fn(int) -> int|
                #[trigger] leftmost(name, q, f) && s.1 == f(q.len() - 1) - f(0) + 1 - q.len()
            &&& s.0 == 4 ==> exists|f: spec_fn(int) -> int|
                #[trigger] leftmost(path, q, f) && s.1 == f(q.len() - 1) - f(0) + 1 - q.len()
        },
{
    if let Some(s) = match_score_spec(name, path, q) {
        if s.0 == 2 {
            lemma_gaps_leftmost(name, q);
        }
        if s.0 == 4 {
            lemma_gaps_leftmost(path, q);
        }
    }
}

/// Positions that strictly increase spread at least one apart.
proof fn lemma_spread(f: spec_fn(int) -> int, n: int, b: int)
    requires
        0 <= b < n,
        forall|x: int, y: int| 0 <= x < y < n ==> #[trigger] f(x) < #[trigger] f(y),
    ensures
        f(b) - f(0) >= b,
    decreases b,
{
    if b > 0 {
        lemma_spread(f, n, b - 1);
        assert(f(b - 1) < f(b));
    }
}

/// The gaps the greedy search reports are those of the leftmost placement.
#[verifier::spinoff_prover]
#[verifier::rlimit(40)]
proof fn lemma_gaps_leftmost(t: Seq<char>, q: Seq<char>)
    requires
        q.len() > 0,
        t.len() <= usize::MAX,
        subsequence_gaps_spec(t, q) is Some,
    ensures
        exists|f: spec_fn(int) -> int|
            #[trigger] leftmost(t, q, f) && subsequence_gaps_spec(t, q)->0 == f(q.len() - 1) - f(0) + 1 - q.len(),
{
    let first = index_of_from(t, q[0], 0)->0;
    assert(greedy_last(t, q, 0, 0) == greedy_last(t, q, 1, first + 1));
    let f = lemma_greedy_leftmost(t, q, 0, 0);
    assert(f(0) == first);
    assert(embeds(t, q, f));
    assert(leftmost(t, q, f));
    lemma_spread(f, q.len() as int, q.len() - 1);
    assert(f(q.len() - 1) < t.len());
}

} // verus!
