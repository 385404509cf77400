//! The launcher's persistent configuration and the rules that keep it sane.
use crate::text::{is_blank, is_blank_str, owned, push_char, string_of};
use vstd::prelude::*;
use std::hash::{Hash, Hasher};
use vstd::string::StringExecFns;

verus! {

/// Abstract value of a launch item: its texts.
pub struct ItemModel {
    pub id: Seq<char>,
    pub name: Seq<char>,
    pub path: Seq<char>,
    pub icon_path: Seq<char>,
    pub arguments: Seq<char>,
    pub working_directory: Seq<char>,
}

/// Abstract value of a category.
pub struct CategoryModel {
    pub id: Seq<char>,
    pub name: Seq<char>,
    pub items: Seq<ItemModel>,
}

/// Abstract value of the window settings.
pub struct WindowModel {
    pub width: i32,
    pub height: i32,
    pub monitor: Seq<char>,
    pub x: i32,
    pub y: i32,
    pub centered: bool,
    pub movable: bool,
    pub resizable: bool,
}

/// Abstract value of a whole configuration.
pub struct ConfigModel {
    pub version: u32,
    pub window: WindowModel,
    pub hotkey: HotkeyConfig,
    pub double_click_launch: bool,
    pub active_category: Seq<char>,
    pub categories: Seq<CategoryModel>,
}

#[derive(Clone, Debug, PartialEq)]
pub struct Config {
    pub version: u32,
    pub window: WindowConfig,
    pub hotkey: HotkeyConfig,
    pub double_click_launch: bool,
    pub active_category: String,
    pub categories: Vec<Category>,
}

#[derive(Clone, Debug, PartialEq)]
pub struct WindowConfig {
    pub width: i32,
    pub height: i32,
    pub monitor: String,
    pub x: i32,
    pub y: i32,
    pub centered: bool,
    pub movable: bool,
    pub resizable: bool,
}

#[derive(Clone, Copy, Debug, PartialEq, Eq, Structural)]
pub struct HotkeyConfig {
    pub modifiers: u32,
    pub key: u32,
}

#[derive(Clone, Debug, PartialEq)]
pub struct Category {
    pub id: String,
    pub name: String,
    pub items: Vec<LaunchItem>,
}

#[derive(Clone, Debug, PartialEq)]
pub struct LaunchItem {
    pub id: String,
    pub name: String,
    pub path: String,
    /// Optional custom icon source; the target's own icon is used when blank.
    pub icon_path: String,
    pub arguments: String,
    pub working_directory: String,
}

impl View for LaunchItem {
    type V = ItemModel;

    open spec fn view(&self) -> ItemModel {
        ItemModel {
            id: self.id@,
            name: self.name@,
            path: self.path@,
            icon_path: self.icon_path@,
            arguments: self.arguments@,
            working_directory: self.working_directory@,
        }
    }
}

impl View for Category {
    type V = CategoryModel;

    open spec fn view(&self) -> CategoryModel {
        CategoryModel {
            id: self.id@,
            name: self.name@,
            items: self.items@.map_values(|item: LaunchItem| item@),
        }
    }
}

impl View for WindowConfig {
    type V = WindowModel;

    open spec fn view(&self) -> WindowModel {
        WindowModel {
            width: self.width,
            height: self.height,
            monitor: self.monitor@,
            x: self.x,
            y: self.y,
            centered: self.centered,
            movable: self.movable,
            resizable: self.resizable,
        }
    }
}

impl View for Config {
    type V = ConfigModel;

    open spec fn view(&self) -> ConfigModel {
        ConfigModel {
            version: self.version,
            window: self.window@,
            hotkey: self.hotkey,
            double_click_launch: self.double_click_launch,
            active_category: self.active_category@,
            categories: self.categories@.map_values(|category: Category| category@),
        }
    }
}

/// `v` clamped into `[low, high]`.
pub open spec fn clamp_int(v: int, low: int, high: int) -> int {
    if v < low {
        low
    } else if v > high {
        high
    } else {
        v
    }
}

impl WindowModel {
    /// Window settings after normalisation: size within the supported
    /// range, and a centered window never movable.
    pub open spec fn normalized(self) -> WindowModel {
        WindowModel {
            width: clamp_int(self.width as int, 620, 1600) as i32,
            height: clamp_int(self.height as int, 400, 1200) as i32,
            movable: if self.centered {
                false
            } else {
                self.movable
            },
            ..self
        }
    }
}

/// Id of the category created when a configuration has none.
pub open spec fn default_category_id() -> Seq<char> {
    seq!['f', 'r', 'e', 'q', 'u', 'e', 'n', 't']
}

/// Display name of that category.
pub open spec fn default_category_name() -> Seq<char> {
    seq!['常', '用']
}

pub open spec fn default_category() -> CategoryModel {
    CategoryModel { id: default_category_id(), name: default_category_name(), items: seq![] }
}

/// Whether some category has the given id.
pub open spec fn has_category_id(categories: Seq<CategoryModel>, id: Seq<char>) -> bool {
    exists|i: int| 0 <= i < categories.len() && #[trigger] categories[i].id == id
}

/// The first position holding an id exists whenever some position holds it.
pub proof fn lemma_first_id(categories: Seq<CategoryModel>, id: Seq<char>, n: int)
    requires
        0 <= n <= categories.len(),
        exists|i: int| 0 <= i < n && #[trigger] categories[i].id == id,
    ensures
        exists|i: int|
            0 <= i < n && categories[i].id == id && forall|j: int|
                0 <= j < i ==> #[trigger] categories[j].id != id,
    decreases n,
{
    if exists|i: int| 0 <= i < n - 1 && #[trigger] categories[i].id == id {
        lemma_first_id(categories, id, n - 1);
    } else {
        assert(categories[n - 1].id == id);
    }
}

/// The active index is a position of the categories (0 when there are none).
pub proof fn lemma_active_index(c: ConfigModel)
    ensures
        0 <= c.active_index(),
        c.categories.len() > 0 ==> c.active_index() < c.categories.len(),
{
    if has_category_id(c.categories, c.active_category) {
        lemma_first_id(c.categories, c.active_category, c.categories.len() as int);
    }
}

/// Position of the first category with the given id, or 0 when none has it.
pub open spec fn index_of_id(categories: Seq<CategoryModel>, id: Seq<char>) -> int {
    if has_category_id(categories, id) {
        choose|i: int|
            0 <= i < categories.len() && categories[i].id == id && forall|j: int|
                0 <= j < i ==> #[trigger] categories[j].id != id
    } else {
        0
    }
}

impl ConfigModel {
    /// Configuration after `Config::normalize`.
    pub open spec fn normalized(self) -> ConfigModel {
        let categories = if self.categories.len() == 0 {
            seq![default_category()]
        } else {
            self.categories
        };
        ConfigModel {
            version: 3,
            window: self.window.normalized(),
            active_category: if has_category_id(categories, self.active_category) {
                self.active_category
            } else {
                categories[0].id
            },
            categories,
            ..self
        }
    }

    /// Index of the active category (`Config::active_category_index`).
    pub open spec fn active_index(self) -> int {
        index_of_id(self.categories, self.active_category)
    }

    /// Total number of items over all categories.
    pub open spec fn total_items(self) -> nat {
        total_items_upto(self.categories, self.categories.len() as int)
    }
}

/// Number of items in the first `n` categories.
pub open spec fn total_items_upto(categories: Seq<CategoryModel>, n: int) -> nat
    decreases n,
{
    if n <= 0 {
        0
    } else {
        total_items_upto(categories, n - 1) + categories[n - 1].items.len()
    }
}

/// The launcher's built-in window settings.
pub open spec fn default_window() -> WindowModel {
    WindowModel {
        width: 840,
        height: 520,
        monitor: seq![],
        x: 80,
        y: 80,
        centered: true,
        movable: false,
        resizable: true,
    }
}

/// Virtual-key code of `Q`, the default hotkey's key.
pub open spec fn default_hotkey() -> HotkeyConfig {
    HotkeyConfig { modifiers: 0x0001, key: 0x51 }
}

impl Default for WindowConfig {
    fn default() -> (r: Self)
        ensures
            r@ == default_window(),
    {
        WindowConfig {
            width: 840,
            height: 520,
            monitor: String::new(),
            x: 80,
            y: 80,
            centered: true,
            movable: false,
            resizable: true,
        }
    }
}

impl Default for HotkeyConfig {
    fn default() -> (r: Self)
        ensures
            r == default_hotkey(),
    {
        HotkeyConfig { modifiers: 0x0001, key: 0x51 }
    }
}

impl Default for LaunchItem {
    fn default() -> (r: Self)
        ensures
            r@.id.len() == 0,
            r@.name.len() == 0,
            r@.path.len() == 0,
            r@.icon_path.len() == 0,
            r@.arguments.len() == 0,
            r@.working_directory.len() == 0,
    {
        LaunchItem {
            id: String::new(),
            name: String::new(),
            path: String::new(),
            icon_path: String::new(),
            arguments: String::new(),
            working_directory: String::new(),
        }
    }
}

impl Default for Category {
    fn default() -> (r: Self)
        ensures
            r@.id == seq!['c', 'a', 't', 'e', 'g', 'o', 'r', 'y'],
            r@.name == seq!['分', '类'],
            r@.items.len() == 0,
    {
        let r = Category::new("category", "分类");
        proof {
            reveal_strlit("category");
            reveal_strlit("分类");
        }
        r
    }
}

impl Default for Config {
    fn default() -> (r: Self)
        ensures
            r@.version == 3,
            r@.window == default_window(),
            r@.hotkey == default_hotkey(),
            r@.double_click_launch,
            r@.active_category == default_category_id(),
            r@.categories == seq![default_category()],
    {
        let category = Self::default_category();
        let mut categories: Vec<Category> = Vec::new();
        categories.push(category);
        let r = Config {
            version: 3,
            window: WindowConfig::default(),
            hotkey: HotkeyConfig::default(),
            double_click_launch: true,
            active_category: owned("frequent"),
            categories,
        };
        proof {
            reveal_strlit("frequent");
            assert(r@.categories =~= seq![default_category()]);
        }
        r
    }
}

impl Config {
    /// The category that an empty configuration starts with.
    pub fn default_category() -> (r: Category)
        ensures
            r@ == default_category(),
    {
        let r = Category::new("frequent", "常用");
        proof {
            reveal_strlit("frequent");
            reveal_strlit("常用");
            assert(r@.id =~= default_category_id());
            assert(r@.name =~= default_category_name());
            assert(r@.items =~= Seq::<ItemModel>::empty());
        }
        r
    }
}

impl WindowConfig {
    pub fn normalize(&mut self)
        ensures
            final(self)@ == old(self)@.normalized(),
    {
        self.width = if self.width < 620 {
            620
        } else if self.width > 1600 {
            1600
        } else {
            self.width
        };
        self.height = if self.height < 400 {
            400
        } else if self.height > 1200 {
            1200
        } else {
            self.height
        };
        if self.centered {
            self.movable = false;
        }
    }
}

impl Category {
    pub fn new(id: &str, name: &str) -> (r: Self)
        ensures
            r@.id == id@,
            r@.name == name@,
            r@.items.len() == 0,
    {
        let r = Category { id: owned(id), name: owned(name), items: Vec::new() };
        assert(r@.items =~= Seq::<ItemModel>::empty());
        r
    }
}

impl LaunchItem {
    /// The file whose icon represents this item: the custom icon source
    /// when one is set, the launch target otherwise.
    pub fn icon_source(&self) -> (r: &str)
        ensures
            r@ == if is_blank(self.icon_path@) {
                self.path@
            } else {
                self.icon_path@
            },
    {
        if is_blank_str(self.icon_path.as_str()) {
            self.path.as_str()
        } else {
            self.icon_path.as_str()
        }
    }

    /// The files an icon is asked for while this item's icon is missing, in
    /// order: the custom icon source when one is set, then the launch target.
    pub fn icon_request_sources(&self) -> (r: Vec<String>)
        ensures
            r@.map_values(|v: String| v@) == if is_blank(self.icon_path@) {
                seq![self.path@]
            } else {
                seq![self.icon_path@, self.path@]
            },
    {
        let mut r: Vec<String> = Vec::new();
        if !is_blank_str(self.icon_path.as_str()) {
            r.push(self.icon_path.clone());
        }
        r.push(self.path.clone());
        proof {
            if is_blank(self.icon_path@) {
                assert(r@.map_values(|v: String| v@) =~= seq![self.path@]);
            } else {
                assert(r@.map_values(|v: String| v@) =~= seq![self.icon_path@, self.path@]);
            }
        }
        r
    }
}

/// Name under which `unique_category_id` hashes a category name with the
/// number of the attempt (std's `DefaultHasher`, `str` then `u64`).
pub uninterp spec fn name_attempt_hash(name: Seq<char>, attempt: u64) -> u64;

/// Hashes a name and an attempt number with std's `DefaultHasher`
/// (created by `new`, which always starts from the same keys).
#[verifier::external_body]
fn hash_name_attempt(name: &str, attempt: u64) -> (h: u64)
    ensures
        h == name_attempt_hash(name@, attempt),
{
    let mut hasher = std::collections::hash_map::DefaultHasher::new();
    name.hash(&mut hasher);
    attempt.hash(&mut hasher);
    hasher.finish()
}

/// Lowercase hexadecimal digit of a value below 16.
pub open spec fn hex_digit(v: u64) -> char {
    if v < 10 {
        ((v + 0x30) as u32) as char
    } else {
        ((v - 10 + 0x61) as u32) as char
    }
}

/// Sixteen lowercase hexadecimal digits of `v`, most significant first
/// (`format!("{:016x}", v)`).
pub open spec fn hex16(v: u64) -> Seq<char> {
    Seq::new(16, |i: int| hex_digit((v >> ((60 - 4 * i) as u64)) & 15u64))
}

/// Exec `hex16`, appended to `out`.
pub fn push_hex16(out: &mut String, v: u64)
    ensures
        final(out)@ == old(out)@ + hex16(v),
{
    let ghost start = out@;
    let mut i: u64 = 0;
    while i < 16
        invariant
            i <= 16,
            out@ == start + hex16(v).take(i as int),
        decreases 16 - i,
    {
        let shift: u64 = 60 - 4 * i;
        let d: u64 = (v >> shift) & 15u64;
        assert(d < 16) by (bit_vector)
            requires
                d == (v >> shift) & 15u64,
        ;
        let c = if d < 10 {
            crate::text::char_from_ascii((d + 0x30) as u8)
        } else {
            crate::text::char_from_ascii((d - 10 + 0x61) as u8)
        };
        assert(c == hex_digit(d));
        push_char(out, c);
        proof {
            assert(hex16(v)[i as int] == c);
            assert(hex16(v).take(i + 1) =~= hex16(v).take(i as int).push(c));
        }
        i += 1;
    }
    assert(hex16(v).take(16) =~= hex16(v));
}

/// `id` is the id `unique_category_id` picks for `name`: used by no
/// category, and the candidate of the first attempt that is free (unless
/// every candidate is taken).
pub open spec fn fresh_category_id(categories: Seq<CategoryModel>, name: Seq<char>, id: Seq<char>) -> bool {
    &&& !has_category_id(categories, id)
    &&& (exists|a: u64|
        id == category_candidate(name, a) && forall|b: u64|
            b < a ==> has_category_id(categories, #[trigger] category_candidate(name, b)))
        || (forall|a: u64| has_category_id(categories, #[trigger] category_candidate(name, a)))
}

/// The id that `unique_category_id` tries for a given attempt:
/// `category-` followed by the hash in sixteen hex digits.
pub open spec fn category_candidate(name: Seq<char>, attempt: u64) -> Seq<char> {
    seq!['c', 'a', 't', 'e', 'g', 'o', 'r', 'y', '-'] + hex16(name_attempt_hash(name, attempt))
}

impl Config {
    pub fn normalize(&mut self)
        ensures
            final(self)@ == old(self)@.normalized(),
    {
        self.version = 3;
        self.window.normalize();
        if self.categories.len() == 0 {
            let category = Self::default_category();
            self.categories.push(category);
        }
        assert(self@.categories == old(self)@.normalized().categories);
        if !self.has_category(self.active_category.as_str()) {
            let first = self.categories[0].id.clone();
            self.active_category = first;
        }
    }

    /// Whether some category has the given id.
    pub fn has_category(&self, id: &str) -> (r: bool)
        ensures
            r == has_category_id(self@.categories, id@),
    {
        let mut i: usize = 0;
        while i < self.categories.len()
            invariant
                i <= self.categories@.len(),
                forall|j: int| 0 <= j < i ==> self@.categories[j].id != id@,
            decreases self.categories@.len() - i,
        {
            if crate::text::same_text(self.categories[i].id.as_str(), id) {
                assert(self@.categories[i as int].id == id@);
                return true;
            }
            i += 1;
        }
        false
    }

    pub fn active_category_index(&self) -> (r: usize)
        ensures
            r == self@.active_index(),
            self@.categories.len() > 0 ==> r < self@.categories.len(),
    {
        let mut i: usize = 0;
        while i < self.categories.len()
            invariant
                i <= self.categories@.len(),
                forall|j: int| 0 <= j < i ==> self@.categories[j].id != self@.active_category,
            decreases self.categories@.len() - i,
        {
            if crate::text::same_text(
                self.categories[i].id.as_str(),
                self.active_category.as_str(),
            ) {
                proof {
                    let cats = self@.categories;
                    let id = self@.active_category;
                    assert(cats[i as int].id == id);
                    let k = index_of_id(cats, id);
                    if k < i {
                        assert(cats[k].id != id);
                    } else if k > i {
                        assert(cats[i as int].id != id);
                    }
                }
                return i;
            }
            i += 1;
        }
        0
    }

    /// A category id derived from `name` that no category uses yet.
    ///
    /// Ids are hash-derived (`category-` and sixteen hex digits); the first
    /// attempt number whose candidate is free wins. In the unreachable case
    /// where every one of the 2^64 candidates is taken, the id is the longest
    /// existing id extended by `-`, which is free too.
    pub fn unique_category_id(&self, name: &str) -> (r: String)
        ensures
            fresh_category_id(self@.categories, name@, r@),
    {
        let mut attempt: u64 = 0;
        loop
            invariant
                forall|b: u64|
                    b < attempt ==> has_category_id(
                        self@.categories,
                        #[trigger] category_candidate(name@, b),
                    ),
            decreases u64::MAX - attempt,
        {
            let mut candidate = String::from_str("category-");
            let hash = hash_name_attempt(name, attempt);
            push_hex16(&mut candidate, hash);
            proof {
                reveal_strlit("category-");
                assert(candidate@ == category_candidate(name@, attempt));
            }
            if !self.has_category(candidate.as_str()) {
                return candidate;
            }
            if attempt == u64::MAX {
                let r = self.longer_than_every_id();
                assert forall|a: u64|
                    has_category_id(
                        self@.categories,
                        #[trigger] category_candidate(name@, a),
                    ) by {
                    if a < attempt {
                    } else {
                        assert(a == attempt);
                    }
                }
                return r;
            }
            attempt += 1;
        }
    }

    /// An id longer than every existing id (so used by no category).
    fn longer_than_every_id(&self) -> (r: String)
        ensures
            forall|i: int|
                0 <= i < self@.categories.len() ==> self@.categories[i].id.len() < r@.len(),
            !has_category_id(self@.categories, r@),
    {
        let mut longest: usize = 0;
        let mut best: usize = 0;
        let mut i: usize = 0;
        while i < self.categories.len()
            invariant
                i <= self.categories@.len(),
                best < self.categories@.len() || self.categories@.len() == 0,
                i > 0 ==> longest == self@.categories[best as int].id.len(),
                i == 0 ==> longest == 0,
                forall|j: int| 0 <= j < i ==> self@.categories[j].id.len() <= longest,
            decreases self.categories@.len() - i,
        {
            let chars = crate::text::chars_of(self.categories[i].id.as_str());
            if i == 0 || chars.len() > longest {
                longest = chars.len();
                best = i;
            }
            i += 1;
        }
        let mut r = if self.categories.len() == 0 {
            String::new()
        } else {
            self.categories[best].id.clone()
        };
        push_char(&mut r, '-');
        r
    }
}

impl Config {
    /// Puts `category` at position `index` and hands back the one that was there.
    pub fn replace_category(&mut self, index: usize, category: Category) -> (previous: Category)
        requires
            index < old(self)@.categories.len(),
        ensures
            final(self)@ == (ConfigModel {
                categories: old(self)@.categories.update(index as int, category@),
                ..old(self)@
            }),
            previous@ == old(self)@.categories[index as int],
    {
        let mut slot = category;
        self.categories.set_and_swap(index, &mut slot);
        proof {
            assert(self@.categories =~= old(self)@.categories.update(index as int, category@));
        }
        slot
    }
}

/// Total items after category `k` is replaced by `c`.
pub proof fn lemma_total_update(categories: Seq<CategoryModel>, k: int, c: CategoryModel, n: int)
    requires
        0 <= k < categories.len(),
        0 <= n <= categories.len(),
    ensures
        total_items_upto(categories.update(k, c), n) == total_items_upto(categories, n) + (if k
            < n {
            c.items.len() - categories[k].items.len()
        } else {
            0
        }),
    decreases n,
{
    if n > 0 {
        lemma_total_update(categories, k, c, n - 1);
    }
}

/// Total items after a category is appended.
pub proof fn lemma_total_push(categories: Seq<CategoryModel>, c: CategoryModel, n: int)
    requires
        0 <= n <= categories.len(),
    ensures
        total_items_upto(categories.push(c), n) == total_items_upto(categories, n),
        n == categories.len() ==> total_items_upto(categories.push(c), categories.len() + 1int) == total_items_upto(
            categories,
            categories.len() as int,
        ) + c.items.len(),
    decreases n,
{
    if n > 0 {
        lemma_total_push(categories, c, n - 1);
    }
    if n == categories.len() {
        assert(categories.push(c)[n] == c);
    }
}

/// Total items after category `k` is removed.
pub proof fn lemma_total_remove(categories: Seq<CategoryModel>, k: int, n: int)
    requires
        0 <= k < categories.len(),
        k <= n <= categories.len() - 1,
    ensures
        total_items_upto(categories.remove(k), n) == total_items_upto(categories, n + 1)
            - categories[k].items.len(),
    decreases n,
{
    if n > k {
        lemma_total_remove(categories, k, n - 1);
    } else {
        lemma_total_prefix_remove(categories, k, k);
    }
}

proof fn lemma_total_prefix_remove(categories: Seq<CategoryModel>, k: int, n: int)
    requires
        0 <= k < categories.len(),
        0 <= n <= k,
    ensures
        total_items_upto(categories.remove(k), n) == total_items_upto(categories, n),
    decreases n,
{
    if n > 0 {
        lemma_total_prefix_remove(categories, k, n - 1);
    }
}

/// Deleting a category keeps every item: the total stays the same.
pub proof fn lemma_deletion_keeps_total(c: ConfigModel, category: int)
    requires
        c.categories.len() > 1,
        0 <= category < c.categories.len(),
    ensures
        after_category_deletion(c, category).total_items() == c.total_items(),
        after_category_deletion(c, category).categories.len() == c.categories.len() - 1,
{
    let removed = c.categories[category];
    let rest = c.categories.remove(category);
    let dest = deletion_destination(category);
    let merged = CategoryModel { items: rest[dest].items + removed.items, ..rest[dest] };
    lemma_total_remove(c.categories, category, c.categories.len() - 1);
    lemma_total_update(rest, dest, merged, rest.len() as int);
}

/// Names of all categories, in order.
pub fn category_names(config: &Config) -> (names: Vec<String>)
    ensures
        names@.len() == config@.categories.len(),
        forall|i: int| 0 <= i < names@.len() ==> names@[i]@ == config@.categories[i].name,
{
    let mut names: Vec<String> = Vec::new();
    let mut i: usize = 0;
    while i < config.categories.len()
        invariant
            i <= config.categories@.len(),
            names@.len() == i,
            forall|j: int| 0 <= j < i ==> names@[j]@ == config@.categories[j].name,
        decreases config.categories@.len() - i,
    {
        names.push(config.categories[i].name.clone());
        i += 1;
    }
    names
}

/// Where the items of a deleted category go: its left neighbour, or the
/// new first category when the first one is deleted.
pub open spec fn deletion_destination(category: int) -> int {
    if category == 0 {
        0
    } else {
        category - 1
    }
}

/// Configuration after deleting category `category` (when deletion is allowed).
pub open spec fn after_category_deletion(c: ConfigModel, category: int) -> ConfigModel {
    let removed = c.categories[category];
    let rest = c.categories.remove(category);
    let dest = deletion_destination(category);
    let merged = CategoryModel { items: rest[dest].items + removed.items, ..rest[dest] };
    ConfigModel {
        categories: rest.update(dest, merged),
        active_category: if c.active_category == removed.id {
            rest[dest].id
        } else {
            c.active_category
        },
        ..c
    }
}

/// Deletes a category and moves its items to a neighbour. Refused (with the
/// configuration unchanged) for the last remaining category or an index out
/// of range; otherwise returns the index of the category that received the items.
pub fn apply_category_deletion(config: &mut Config, category: usize) -> (r: Option<usize>)
    ensures
        old(config)@.categories.len() <= 1 || category >= old(config)@.categories.len() ==> r
            is None && final(config)@ == old(config)@,
        !(old(config)@.categories.len() <= 1 || category >= old(config)@.categories.len()) ==> r
            == Some(deletion_destination(category as int) as usize) && final(config)@
            == after_category_deletion(old(config)@, category as int),
{
    if config.categories.len() <= 1 || category >= config.categories.len() {
        return None;
    }
    let ghost c0 = config@;
    let mut removed = config.categories.remove(category);
    let destination = if category == 0 {
        0
    } else {
        category - 1
    };
    assert(config@.categories =~= c0.categories.remove(category as int));
    assert(removed@ == c0.categories[category as int]);
    let mut target = Category { id: String::new(), name: String::new(), items: Vec::new() };
    config.categories.set_and_swap(destination, &mut target);
    let ghost before_items = target@.items;
    let ghost before_raw = target.items@;
    let ghost removed_raw = removed.items@;
    let ghost removed_id = removed.id@;
    target.items.append(&mut removed.items);
    proof {
        assert(target.items@ == before_raw + removed_raw);
        assert(target@.items =~= before_raw.map_values(|item: LaunchItem| item@)
            + removed_raw.map_values(|item: LaunchItem| item@));
    }
    let ghost merged = target@;
    config.categories.set_and_swap(destination, &mut target);
    assert(removed.id@ == removed_id);
    if crate::text::same_text(config.active_category.as_str(), removed.id.as_str()) {
        let id = config.categories[destination].id.clone();
        config.active_category = id;
    }
    proof {
        let expected = after_category_deletion(c0, category as int);
        let rest = c0.categories.remove(category as int);
        assert(before_items == rest[destination as int].items);
        assert(merged.items =~= rest[destination as int].items + c0.categories[category as int].items);
        assert(config@.categories =~= expected.categories);
    }
    Some(destination)
}

} // verus!
