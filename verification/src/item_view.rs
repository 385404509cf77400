//! Which items the launcher shows, resolved lazily.
//!
//! A `Scope` denotes a sequence of item references (`Scope::refs`); counting,
//! indexing and paging work on that sequence without materialising it.
use crate::config::{total_items_upto, Config, ConfigModel};
use crate::search::ItemRef;
use crate::text::{is_blank, is_blank_str};
use vstd::prelude::*;

verus! {

/// Which items the launcher currently shows.
#[derive(Clone, Copy)]
pub enum Scope<'a> {
    /// A single category, in launcher mode.
    Category(usize),
    /// Every item in every category, used by search before a query is typed.
    All,
    /// Pre-computed search matches.
    Matches(&'a [ItemRef]),
}

/// Number of items in category `k`, or 0 when there is no such category.
pub open spec fn item_count_spec(c: ConfigModel, k: int) -> nat {
    if 0 <= k < c.categories.len() {
        c.categories[k].items.len()
    } else {
        0
    }
}

/// References to every item of category `k`, in order.
pub open spec fn category_refs(c: ConfigModel, k: int) -> Seq<ItemRef> {
    Seq::new(item_count_spec(c, k), |i: int| ItemRef { category: k as usize, item: i as usize })
}

/// References to every item of the first `n` categories, category by category.
pub open spec fn all_refs_upto(c: ConfigModel, n: int) -> Seq<ItemRef>
    decreases n,
{
    if n <= 0 {
        seq![]
    } else {
        all_refs_upto(c, n - 1) + category_refs(c, n - 1)
    }
}

/// References to every item of the configuration.
pub open spec fn all_refs(c: ConfigModel) -> Seq<ItemRef> {
    all_refs_upto(c, c.categories.len() as int)
}

impl<'a> Scope<'a> {
    /// The references this scope denotes.
    pub open spec fn refs(self, c: ConfigModel) -> Seq<ItemRef> {
        match self {
            Scope::Category(k) => category_refs(c, k as int),
            Scope::All => all_refs(c),
            Scope::Matches(matches) => matches@,
        }
    }

    /// Scope of the launcher: the active category outside search, every item
    /// while the search query is blank, the search results otherwise.
    pub open spec fn spec_new(
        c: ConfigModel,
        search_mode: bool,
        query: Seq<char>,
        results: &'a [ItemRef],
    ) -> Scope<'a> {
        if !search_mode {
            Scope::Category(c.active_index() as usize)
        } else if is_blank(query) {
            Scope::All
        } else {
            Scope::Matches(results)
        }
    }

    pub fn new(config: &Config, search_mode: bool, query: &str, results: &'a [ItemRef]) -> (r:
        Self)
        ensures
            r == Self::spec_new(config@, search_mode, query@, results),
    {
        if !search_mode {
            Scope::Category(config.active_category_index())
        } else if is_blank_str(query) {
            Scope::All
        } else {
            Scope::Matches(results)
        }
    }

    /// Number of references in the scope.
    pub fn len(self, config: &Config) -> (r: usize)
        requires
            config@.total_items() <= usize::MAX,
        ensures
            r == self.refs(config@).len(),
    {
        match self {
            Scope::Category(category) => item_count(config, category),
            Scope::All => {
                let ghost c = config@;
                let mut total: usize = 0;
                let mut k: usize = 0;
                proof {
                    lemma_total_monotone(c.categories, 0, c.categories.len() as int);
                }
                while k < config.categories.len()
                    invariant
                        c == config@,
                        k <= c.categories.len(),
                        total == total_items_upto(c.categories, k as int),
                        c.total_items() <= usize::MAX,
                    decreases c.categories.len() - k,
                {
                    proof {
                        lemma_total_monotone(c.categories, k + 1, c.categories.len() as int);
                        assert(c.categories[k as int].items.len() == config.categories@[k as int].items@.len());
                    }
                    total = total + config.categories[k].items.len();
                    k += 1;
                }
                proof {
                    lemma_all_refs_len(c, c.categories.len() as int);
                }
                total
            },
            Scope::Matches(matches) => matches.len(),
        }
    }

    /// The reference at `index`, or `None` past the end.
    pub fn get(self, config: &Config, index: usize) -> (r: Option<ItemRef>)
        ensures
            r == (if index < self.refs(config@).len() {
                Some(self.refs(config@)[index as int])
            } else {
                None
            }),
    {
        match self {
            Scope::Category(category) => {
                if index < item_count(config, category) {
                    Some(ItemRef { category, item: index })
                } else {
                    None
                }
            },
            Scope::Matches(matches) => {
                if index < matches.len() {
                    Some(matches[index])
                } else {
                    None
                }
            },
            Scope::All => {
                let ghost c = config@;
                let mut remaining = index;
                let mut k: usize = 0;
                while k < config.categories.len()
                    invariant
                        c == config@,
                        self == Scope::<'a>::All,
                        k <= c.categories.len(),
                        total_items_upto(c.categories, k as int) + remaining == index,
                    decreases c.categories.len() - k,
                {
                    let len = config.categories[k].items.len();
                    proof {
                        assert(c.categories[k as int].items.len() == len);
                    }
                    if remaining < len {
                        proof {
                            assert(total_items_upto(c.categories, k as int + 1) == total_items_upto(c.categories, k as int) + len);
                            lemma_all_refs_len(c, k as int);
                            lemma_all_refs_prefix(c, k as int + 1, c.categories.len() as int);
                            lemma_all_refs_len(c, k as int + 1);
                            lemma_all_refs_len(c, c.categories.len() as int);
                            lemma_total_monotone(
                                c.categories,
                                k as int + 1,
                                c.categories.len() as int,
                            );
                            let a = all_refs_upto(c, k as int + 1);
                            assert(a == all_refs_upto(c, k as int) + category_refs(c, k as int));
                            assert(a[index as int] == ItemRef { category: k, item: remaining });
                            assert(a.len() == total_items_upto(c.categories, k as int) + len);
                            assert(index < a.len());
                            assert(all_refs(c)[index as int] == a[index as int]);
                        }
                        return Some(ItemRef { category: k, item: remaining });
                    }
                    remaining -= len;
                    k += 1;
                }
                proof {
                    lemma_all_refs_len(c, c.categories.len() as int);
                }
                None
            },
        }
    }

    /// Writes the references for one page into `out`, replacing its contents:
    /// up to `count` references starting at `start`.
    pub fn write_page(self, config: &Config, start: usize, count: usize, out: &mut Vec<ItemRef>)
        ensures
            final(out)@ == self.refs(config@).subrange(
                min_int(start as int, self.refs(config@).len() as int),
                min_int(start + count, self.refs(config@).len() as int),
            ),
    {
        out.clear();
        match self {
            Scope::Category(category) => {
                let len = item_count(config, category);
                let begin = if start < len {
                    start
                } else {
                    len
                };
                let sum = start.saturating_add(count);
                let end = if sum < len {
                    sum
                } else {
                    len
                };
                let mut item = begin;
                while item < end
                    invariant
                        begin <= item <= end <= len,
                        len == self.refs(config@).len(),
                        self == Scope::<'a>::Category(category),
                        out@ == self.refs(config@).subrange(begin as int, item as int),
                    decreases end - item,
                {
                    out.push(ItemRef { category, item });
                    item += 1;
                }
            },
            Scope::Matches(matches) => {
                let sum = start.saturating_add(count);
                let end = if sum < matches.len() {
                    sum
                } else {
                    matches.len()
                };
                if start < end {
                    let mut i = start;
                    while i < end
                        invariant
                            start <= i <= end,
                            end <= matches@.len(),
                            out@ == matches@.subrange(start as int, i as int),
                        decreases end - i,
                    {
                        out.push(matches[i]);
                        i += 1;
                    }
                } else {
                    assert(out@ =~= Seq::<ItemRef>::empty());
                }
            },
            Scope::All => {
                self.write_all_page(config, start, count, out);
            },
        }
    }

    /// Paging over every category, skipping whole categories before `start`.
    fn write_all_page(self, config: &Config, start: usize, count: usize, out: &mut Vec<ItemRef>)
        requires
            self == Scope::<'a>::All,
            old(out)@.len() == 0,
        ensures
            final(out)@ == self.refs(config@).subrange(
                min_int(start as int, self.refs(config@).len() as int),
                min_int(start + count, self.refs(config@).len() as int),
            ),
    {
        let ghost c = config@;
        let ghost n = c.categories.len() as int;
        if count == 0 {
            proof {
                lemma_all_refs_len(c, n);
            }
            assert(out@ =~= Seq::<ItemRef>::empty());
            return;
        }
        let mut skip = start;
        let mut needed = count;
        let mut k: usize = 0;
        proof {
            lemma_all_refs_len(c, 0);
            lemma_all_refs_len(c, n);
            assert(out@ =~= all_refs_upto(c, 0).subrange(0, 0));
        }
        while k < config.categories.len()
            invariant_except_break
                c == config@,
                n == c.categories.len(),
                k <= n,
                all_refs(c).len() == total_items_upto(c.categories, n),
                page_so_far(c, k as int, start as int, count as int, skip as int, needed as int, out@),
            ensures
                page_done(c, start as int, count as int, out@),
            decreases n - k,
        {
            let len = config.categories[k].items.len();
            proof {
                assert(c.categories[k as int].items.len() == len);
                lemma_all_refs_len(c, k as int);
                lemma_all_refs_len(c, k as int + 1);
            }
            if skip >= len {
                proof {
                    lemma_page_skip(c, k as int, start as int, count as int, skip as int, out@);
                }
                skip -= len;
                k += 1;
                continue;
            }
            let ghost before = out@;
            let ghost first = skip;
            let mut item = skip;
            skip = 0;
            while item < len && needed > 0
                invariant
                    c == config@,
                    n == c.categories.len(),
                    k < n,
                    len == c.categories[k as int].items.len(),
                    first <= item <= len,
                    needed + (item - first) == count - before.len(),
                    out@ == before + category_refs(c, k as int).subrange(first as int, item as int),
                decreases len - item,
            {
                out.push(ItemRef { category: k, item });
                proof {
                    assert(category_refs(c, k as int)[item as int] == ItemRef { category: k, item });
                    assert(out@ =~= before + category_refs(c, k as int).subrange(first as int, item + 1));
                }
                item += 1;
                needed -= 1;
            }
            proof {
                lemma_page_step(c, k as int, start as int, count as int, first as int, item as int, before, out@);
            }
            if needed == 0 {
                proof {
                    lemma_page_finish(c, k as int, start as int, count as int, out@);
                }
                break;
            }
            k += 1;
        }
        proof {
            lemma_all_refs_len(c, n);
        }
    }
}

/// Smaller of two integers.
pub open spec fn min_int(a: int, b: int) -> int {
    if a < b {
        a
    } else {
        b
    }
}

/// Larger of two integers.
pub open spec fn max_int(a: int, b: int) -> int {
    if a > b {
        a
    } else {
        b
    }
}

/// The page paging has produced once the first `k` categories are processed.
pub open spec fn page_so_far(
    c: ConfigModel,
    k: int,
    start: int,
    count: int,
    skip: int,
    needed: int,
    out: Seq<ItemRef>,
) -> bool {
    let p = total_items_upto(c.categories, k) as int;
    &&& out == all_refs_upto(c, k).subrange(min_int(start, p), min_int(start + count, p))
    &&& skip == max_int(start - p, 0)
    &&& needed == count - out.len()
    &&& needed > 0
}

/// The finished page.
pub open spec fn page_done(c: ConfigModel, start: int, count: int, out: Seq<ItemRef>) -> bool {
    let all = all_refs(c);
    out == all.subrange(min_int(start, all.len() as int), min_int(start + count, all.len() as int))
}

proof fn lemma_page_step(
    c: ConfigModel,
    k: int,
    start: int,
    count: int,
    first: int,
    item: int,
    before: Seq<ItemRef>,
    out: Seq<ItemRef>,
)
    requires
        0 <= k < c.categories.len(),
        0 <= start,
        0 <= count,
        page_so_far(c, k, start, count, first, count - before.len(), before),
        first < c.categories[k].items.len(),
        first <= item <= c.categories[k].items.len(),
        out == before + category_refs(c, k).subrange(first, item),
        item == c.categories[k].items.len() || count - out.len() == 0,
        all_refs_upto(c, k).len() == total_items_upto(c.categories, k),
    ensures
        count - out.len() == 0 ==> out == all_refs_upto(c, k + 1).subrange(start, start + count),
        count - out.len() > 0 ==> page_so_far(c, k + 1, start, count, 0, count - out.len(), out),
{
    let p = total_items_upto(c.categories, k) as int;
    let len = c.categories[k].items.len() as int;
    let q = total_items_upto(c.categories, k + 1) as int;
    assert(q == p + len);
    let a = all_refs_upto(c, k);
    let blk = category_refs(c, k);
    let b = all_refs_upto(c, k + 1);
    assert(b == a + blk);
    assert(start < q);
    if start >= p {
        assert(first == start - p);
        assert(before.len() == 0);
        assert(out =~= b.subrange(start, p + item)) by {
            assert forall|i: int| 0 <= i < out.len() implies out[i] == b.subrange(start, p + item)[i] by {
                assert(out[i] == blk[first + i]);
                assert(b[p + first + i] == blk[first + i]);
            }
        }
    } else {
        assert(first == 0);
        assert(start + count > p);
        assert(before == a.subrange(start, p));
        assert(out =~= b.subrange(start, p + item)) by {
            assert forall|i: int| 0 <= i < out.len() implies out[i] == b.subrange(start, p + item)[i] by {
                if i < p - start {
                    assert(out[i] == before[i]);
                    assert(b[start + i] == a[start + i]);
                } else {
                    assert(out[i] == blk[i - (p - start)]);
                    assert(b[start + i] == blk[start + i - p]);
                }
            }
        }
    }
    if count - out.len() > 0 {
        assert(item == len);
        assert(start + count > q);
    }
}

proof fn lemma_page_skip(
    c: ConfigModel,
    k: int,
    start: int,
    count: int,
    skip: int,
    out: Seq<ItemRef>,
)
    requires
        0 <= k < c.categories.len(),
        0 <= start,
        0 <= count,
        page_so_far(c, k, start, count, skip, count - out.len(), out),
        skip >= c.categories[k].items.len(),
        all_refs_upto(c, k).len() == total_items_upto(c.categories, k),
    ensures
        page_so_far(
            c,
            k + 1,
            start,
            count,
            skip - c.categories[k].items.len(),
            count - out.len(),
            out,
        ),
{
    let p = total_items_upto(c.categories, k) as int;
    let len = c.categories[k].items.len() as int;
    let q = total_items_upto(c.categories, k + 1) as int;
    assert(q == p + len);
    let a = all_refs_upto(c, k);
    let b = all_refs_upto(c, k + 1);
    assert(b == a + category_refs(c, k));
    if skip > 0 {
        assert(start >= q);
        assert(out.len() == 0);
        assert(out =~= b.subrange(q, q));
    } else {
        assert(len == 0);
        assert(b =~= a);
    }
}

proof fn lemma_page_finish(c: ConfigModel, k: int, start: int, count: int, out: Seq<ItemRef>)
    requires
        0 <= k < c.categories.len(),
        0 <= start,
        0 <= count,
        out == all_refs_upto(c, k + 1).subrange(start, start + count),
        start + count <= total_items_upto(c.categories, k + 1),
    ensures
        page_done(c, start, count, out),
{
    let n = c.categories.len() as int;
    lemma_all_refs_prefix(c, k + 1, n);
    lemma_all_refs_len(c, k + 1);
    lemma_all_refs_len(c, n);
    lemma_total_monotone(c.categories, k + 1, n);
    let all = all_refs(c);
    assert(out =~= all.subrange(start, start + count));
}

/// Number of items in category `category`, or 0 when there is none.
pub fn item_count(config: &Config, category: usize) -> (r: usize)
    ensures
        r == item_count_spec(config@, category as int),
{
    if category < config.categories.len() {
        config.categories[category].items.len()
    } else {
        0
    }
}

/// `all_refs_upto` has one reference per item.
pub proof fn lemma_all_refs_len(c: ConfigModel, n: int)
    requires
        n <= c.categories.len(),
    ensures
        all_refs_upto(c, n).len() == total_items_upto(c.categories, n),
    decreases n,
{
    if n > 0 {
        lemma_all_refs_len(c, n - 1);
    }
}

/// The references of fewer categories are a prefix of those of more.
pub proof fn lemma_all_refs_prefix(c: ConfigModel, n: int, m: int)
    requires
        0 <= n <= m <= c.categories.len(),
    ensures
        all_refs_upto(c, n).len() <= all_refs_upto(c, m).len(),
        all_refs_upto(c, n) == all_refs_upto(c, m).take(all_refs_upto(c, n).len() as int),
    decreases m - n,
{
    if n < m {
        lemma_all_refs_prefix(c, n, m - 1);
        let a = all_refs_upto(c, n);
        let b = all_refs_upto(c, m - 1);
        let d = all_refs_upto(c, m);
        assert(d == b + category_refs(c, m - 1));
        assert(a =~= d.take(a.len() as int));
    } else {
        let a = all_refs_upto(c, n);
        assert(a =~= a.take(a.len() as int));
    }
}

/// Prefix sums of category sizes grow with the number of categories.
pub proof fn lemma_total_monotone(categories: Seq<crate::config::CategoryModel>, n: int, m: int)
    requires
        0 <= n <= m,
    ensures
        total_items_upto(categories, n) <= total_items_upto(categories, m),
    decreases m - n,
{
    if n < m {
        lemma_total_monotone(categories, n, m - 1);
    }
}

} // verus!
