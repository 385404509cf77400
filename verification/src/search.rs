//! Ranked, case-insensitive search over every launch item.
use crate::config::{total_items_upto, Config, ConfigModel};
use crate::text::{
    chars_of, find_chars, find_from, index_of_char, index_of_from, lowercase, string_of,
    to_lowercase, trim, trim_chars,
};
use vstd::prelude::*;
use vstd::utf8::encode_utf8;

verus! {

/// Position of an item: category index and index within the category.
#[derive(Clone, Copy, Debug, PartialEq, Eq, Structural)]
pub struct ItemRef {
    pub category: usize,
    pub item: usize,
}

/// `str::len` of a text: the length of its UTF-8 encoding.
pub open spec fn byte_len(s: Seq<char>) -> usize {
    encode_utf8(s).len() as usize
}

/// Index of the last character of a greedy left-to-right embedding of
/// `q[j..]` into `t`, starting the search at `from`.
pub open spec fn greedy_last(t: Seq<char>, q: Seq<char>, j: int, from: int) -> Option<int>
    decreases q.len() - j,
{
    if j >= q.len() || j < 0 {
        Some(from - 1)
    } else {
        match index_of_from(t, q[j], from) {
            None => None,
            Some(p) => greedy_last(t, q, j + 1, p + 1),
        }
    }
}

/// Number of unmatched characters between the first and the last matched
/// character when `q` is embedded greedily in `t`; `None` when `q` is empty
/// or not a subsequence of `t`.
pub open spec fn subsequence_gaps_spec(t: Seq<char>, q: Seq<char>) -> Option<usize> {
    if q.len() == 0 {
        None
    } else {
        match index_of_from(t, q[0], 0) {
            None => None,
            Some(first) => match greedy_last(t, q, 1, first + 1) {
                None => None,
                Some(last) => Some((last - first + 1 - q.len()) as usize),
            },
        }
    }
}

/// Rank of an item for a (lowercase) query, smaller is better: an exact
/// name, then a name containing the query (earlier is better), then a name
/// containing it as a subsequence (fewer gaps is better), then the same two
/// tests on the path. Ties are broken by the shorter text.
pub open spec fn match_score_spec(name: Seq<char>, path: Seq<char>, query: Seq<char>) -> Option<
    (u8, usize, usize),
> {
    if name == query {
        Some((0, 0, byte_len(name)))
    } else if find_from(name, query, 0) is Some {
        Some((1, byte_len(name.take(find_from(name, query, 0)->0)), byte_len(name)))
    } else if subsequence_gaps_spec(name, query) is Some {
        Some((2, subsequence_gaps_spec(name, query)->0, byte_len(name)))
    } else if find_from(path, query, 0) is Some {
        Some((3, byte_len(path.take(find_from(path, query, 0)->0)), byte_len(path)))
    } else if subsequence_gaps_spec(path, query) is Some {
        Some((4, subsequence_gaps_spec(path, query)->0, byte_len(path)))
    } else {
        None
    }
}

/// The normalised query that search matches against.
pub open spec fn search_key(query: Seq<char>) -> Seq<char> {
    lowercase(trim(query))
}

/// Whether a reference names an existing item.
pub open spec fn valid_ref(c: ConfigModel, r: ItemRef) -> bool {
    r.category < c.categories.len() && r.item < c.categories[r.category as int].items.len()
}

/// Score of an item for a normalised query.
pub open spec fn item_score(c: ConfigModel, r: ItemRef, q: Seq<char>) -> Option<(u8, usize, usize)> {
    let item = c.categories[r.category as int].items[r.item as int];
    match_score_spec(lowercase(item.name), lowercase(item.path), q)
}

/// Strict lexicographic order on scores.
pub open spec fn score_lt(a: (u8, usize, usize), b: (u8, usize, usize)) -> bool {
    a.0 < b.0 || (a.0 == b.0 && (a.1 < b.1 || (a.1 == b.1 && a.2 < b.2)))
}

/// Exec `score_lt`.
pub fn score_less(a: (u8, usize, usize), b: (u8, usize, usize)) -> (r: bool)
    ensures
        r == score_lt(a, b),
{
    a.0 < b.0 || (a.0 == b.0 && (a.1 < b.1 || (a.1 == b.1 && a.2 < b.2)))
}

/// Order of results: by score, then by position in the configuration
/// (which is what a stable sort by score leaves).
pub open spec fn ranked_before(s1: (u8, usize, usize), r1: ItemRef, s2: (u8, usize, usize), r2: ItemRef) -> bool {
    score_lt(s1, s2) || (s1 == s2 && (r1.category < r2.category || (r1.category == r2.category
        && r1.item < r2.item)))
}

/// Whether `refs` is exactly the ranked list of items matching `q`.
pub open spec fn is_ranking(c: ConfigModel, q: Seq<char>, refs: Seq<ItemRef>) -> bool {
    &&& forall|k: int|
        0 <= k < refs.len() ==> valid_ref(c, #[trigger] refs[k]) && item_score(c, refs[k], q) is Some
    &&& forall|r: ItemRef|
        valid_ref(c, r) && item_score(c, r, q) is Some ==> exists|k: int|
            0 <= k < refs.len() && #[trigger] refs[k] == r
    &&& forall|k1: int, k2: int|
        0 <= k1 < k2 < refs.len() ==> ranked_before(
            item_score(c, refs[k1], q)->0,
            #[trigger] refs[k1],
            item_score(c, refs[k2], q)->0,
            #[trigger] refs[k2],
        )
}

fn byte_len_of_prefix(chars: &[char], n: usize) -> (r: usize)
    requires
        n <= chars@.len(),
    ensures
        r == byte_len(chars@.take(n as int)),
{
    let prefix = string_of(&chars[0..n]);
    assert(chars@.subrange(0, n as int) == chars@.take(n as int));
    prefix.as_str().len()
}

/// Exec `greedy_last`.
fn greedy_last_exec(t: &[char], q: &[char], j: usize, from: usize) -> (r: Option<usize>)
    requires
        1 <= from,
        from <= t@.len() + 1,
    ensures
        r matches Some(v) ==> greedy_last(t@, q@, j as int, from as int) == Some(v as int),
        r is None ==> greedy_last(t@, q@, j as int, from as int) is None,
    decreases q@.len() - j,
{
    let _ = t.len();
    if j >= q.len() {
        return Some(from - 1);
    }
    match index_of_char(t, q[j], from) {
        None => None,
        Some(p) => {
            proof {
                index_of_from_bounds(t@, q@[j as int], from as int);
            }
            greedy_last_exec(t, q, j + 1, p + 1)
        },
    }
}

proof fn index_of_from_bounds(t: Seq<char>, c: char, from: int)
    ensures
        index_of_from(t, c, from) matches Some(p) ==> from <= p < t.len() && t[p] == c,
    decreases t.len() - from,
{
    if from >= 0 && from < t.len() && t[from] != c {
        index_of_from_bounds(t, c, from + 1);
    }
}

proof fn greedy_last_bounds(t: Seq<char>, q: Seq<char>, j: int, from: int)
    requires
        from >= 1,
    ensures
        greedy_last(t, q, j, from) matches Some(v) ==> v >= from - 1,
    decreases q.len() - j,
{
    if !(j >= q.len() || j < 0) {
        index_of_from_bounds(t, q[j], from);
        if let Some(p) = index_of_from(t, q[j], from) {
            greedy_last_bounds(t, q, j + 1, p + 1);
        }
    }
}

/// Exec `subsequence_gaps_spec`.
pub fn subsequence_gaps(text: &[char], query: &[char]) -> (r: Option<usize>)
    ensures
        r == subsequence_gaps_spec(text@, query@),
{
    if query.len() == 0 {
        return None;
    }
    let _ = text.len();
    match index_of_char(text, query[0], 0) {
        None => None,
        Some(first) => {
            proof {
                index_of_from_bounds(text@, query@[0], 0);
                greedy_last_bounds(text@, query@, 1, first + 1);
            }
            match greedy_last_exec(text, query, 1, first + 1) {
                None => None,
                Some(last) => {
                    proof {
                        subsequence_span(text@, query@, 1, first as int + 1);
                    }
                    Some(last - first + 1 - query.len())
                },
            }
        },
    }
}

/// A greedy embedding of `q[j..]` starting at `from` spans at least
/// `q.len() - j` characters.
proof fn subsequence_span(t: Seq<char>, q: Seq<char>, j: int, from: int)
    requires
        0 <= j <= q.len(),
        from >= 1,
    ensures
        greedy_last(t, q, j, from) matches Some(v) ==> v - from + 1 >= q.len() - j && v < t.len()
            + (if j == q.len() {
            from
        } else {
            0
        }),
    decreases q.len() - j,
{
    if j < q.len() {
        index_of_from_bounds(t, q[j], from);
        if let Some(p) = index_of_from(t, q[j], from) {
            subsequence_span(t, q, j + 1, p + 1);
            greedy_last_bounds(t, q, j + 1, p + 1);
        }
    }
}

/// Ranks one item: see `match_score_spec`. All three texts are taken as
/// they are (search lowercases them before calling).
pub fn match_score(name: &str, path: &str, query: &str) -> (r: Option<(u8, usize, usize)>)
    ensures
        r == match_score_spec(name@, path@, query@),
{
    let name_chars = chars_of(name);
    let path_chars = chars_of(path);
    let query_chars = chars_of(query);
    let name_len = name.len();
    if crate::text::chars_equal(name_chars.as_slice(), query_chars.as_slice()) {
        return Some((0, 0, name_len));
    }
    if let Some(position) = find_chars(name_chars.as_slice(), query_chars.as_slice()) {
        proof {
            find_from_bounds(name@, query@, 0);
        }
        return Some((1, byte_len_of_prefix(name_chars.as_slice(), position), name_len));
    }
    if let Some(gaps) = subsequence_gaps(name_chars.as_slice(), query_chars.as_slice()) {
        return Some((2, gaps, name_len));
    }
    let path_len = path.len();
    if let Some(position) = find_chars(path_chars.as_slice(), query_chars.as_slice()) {
        proof {
            find_from_bounds(path@, query@, 0);
        }
        return Some((3, byte_len_of_prefix(path_chars.as_slice(), position), path_len));
    }
    match subsequence_gaps(path_chars.as_slice(), query_chars.as_slice()) {
        Some(gaps) => Some((4, gaps, path_len)),
        None => None,
    }
}

proof fn find_from_bounds(t: Seq<char>, p: Seq<char>, i: int)
    ensures
        find_from(t, p, i) matches Some(k) ==> i <= k && k + p.len() <= t.len(),
    decreases t.len() + 1 - i,
{
    if !(i < 0 || i + p.len() > t.len()) && !crate::text::occurs_at(t, p, i) {
        find_from_bounds(t, p, i + 1);
    }
}

/// Items matching `query`, best first: see `match_score_spec`. The query is
/// trimmed and both it and the items' names and paths are compared in
/// lowercase. A blank query matches nothing.
pub fn results(config: &Config, query: &str) -> (r: Vec<ItemRef>)
    ensures
        search_key(query@).len() == 0 ==> r@.len() == 0,
        search_key(query@).len() > 0 ==> is_ranking(config@, search_key(query@), r@),
        r@.len() <= config@.total_items(),
{
    let query_chars = chars_of(query);
    let trimmed = trim_chars(query_chars.as_slice());
    let trimmed_text = string_of(trimmed.as_slice());
    let key = to_lowercase(trimmed_text.as_str());
    let key_chars = chars_of(key.as_str());
    if key_chars.len() == 0 {
        return Vec::new();
    }
    let ghost c = config@;
    let ghost q = key@;
    // Matches kept in ranking order: (score, reference).
    let mut ranked: Vec<((u8, usize, usize), ItemRef)> = Vec::new();
    let mut category: usize = 0;
    while category < config.categories.len()
        invariant
            c == config@,
            q == search_key(query@),
            q == key@,
            category <= c.categories.len(),
            ranked_invariant(c, q, ranked@, ItemRef { category, item: 0 }),
            ranked@.len() <= total_items_upto(c.categories, category as int),
        decreases c.categories.len() - category,
    {
        let mut item: usize = 0;
        while item < config.categories[category].items.len()
            invariant
                c == config@,
                q == search_key(query@),
            q == key@,
                category < c.categories.len(),
                item <= c.categories[category as int].items.len(),
                ranked_invariant(c, q, ranked@, ItemRef { category, item }),
                ranked@.len() <= total_items_upto(c.categories, category as int) + item,
            decreases c.categories[category as int].items.len() - item,
        {
            let reference = ItemRef { category, item };
            match score_item(config, reference, key.as_str()) {
                Some(score) => {
                    insert_ranked(&mut ranked, score, reference, Ghost(c), Ghost(q));
                },
                None => {
                    proof {
                        lemma_skip_unmatched(c, q, ranked@, reference);
                    }
                },
            }
            item += 1;
        }
        proof {
            lemma_next_category(c, q, ranked@, category as int);
        }
        category += 1;
    }
    let mut out: Vec<ItemRef> = Vec::new();
    let mut k: usize = 0;
    while k < ranked.len()
        invariant
            k <= ranked@.len(),
            out@.len() == k,
            forall|j: int| 0 <= j < k ==> out@[j] == ranked@[j].1,
        decreases ranked@.len() - k,
    {
        out.push(ranked[k].1);
        k += 1;
    }
    proof {
        let end = ItemRef { category: c.categories.len() as usize, item: 0 };
        assert forall|r: ItemRef| valid_ref(c, r) && item_score(c, r, q) is Some implies exists|
            j: int,
        | 0 <= j < out@.len() && #[trigger] out@[j] == r by {
            assert(processed_before(r, end));
            let j = choose|j: int| 0 <= j < ranked@.len() && #[trigger] ranked@[j].1 == r;
            assert(out@[j] == r);
        }
        assert forall|k1: int, k2: int| 0 <= k1 < k2 < out@.len() implies ranked_before(
            item_score(c, out@[k1], q)->0,
            #[trigger] out@[k1],
            item_score(c, out@[k2], q)->0,
            #[trigger] out@[k2],
        ) by {
            assert(out@[k1] == ranked@[k1].1);
            assert(out@[k2] == ranked@[k2].1);
        }
        assert forall|j: int| 0 <= j < out@.len() implies valid_ref(c, #[trigger] out@[j])
            && item_score(c, out@[j], q) is Some by {
            assert(out@[j] == ranked@[j].1);
        }
    }
    out
}

/// Score of one item for a normalised query.
fn score_item(config: &Config, reference: ItemRef, key: &str) -> (r: Option<(u8, usize, usize)>)
    requires
        valid_ref(config@, reference),
    ensures
        r == item_score(config@, reference, key@),
{
    let entry = &config.categories[reference.category].items[reference.item];
    let name = to_lowercase(entry.name.as_str());
    let path = to_lowercase(entry.path.as_str());
    proof {
        let c = config@;
        assert(c.categories[reference.category as int] == config.categories@[reference.category as int]@);
        assert(c.categories[reference.category as int].items[reference.item as int] == entry@);
    }
    match_score(name.as_str(), path.as_str(), key)
}

proof fn lemma_skip_unmatched(
    c: ConfigModel,
    q: Seq<char>,
    ranked: Seq<((u8, usize, usize), ItemRef)>,
    reference: ItemRef,
)
    requires
        reference.item < usize::MAX,
        item_score(c, reference, q) is None,
        ranked_invariant(c, q, ranked, reference),
    ensures
        ranked_invariant(
            c,
            q,
            ranked,
            ItemRef { category: reference.category, item: (reference.item + 1) as usize },
        ),
{
    let bound = ItemRef { category: reference.category, item: (reference.item + 1) as usize };
    assert forall|k: int| 0 <= k < ranked.len() implies valid_ref(c, (#[trigger] ranked[k]).1)
        && processed_before(ranked[k].1, bound) && item_score(c, ranked[k].1, q) == Some(
        ranked[k].0,
    ) by {
        assert(processed_before(ranked[k].1, reference));
    }
    assert forall|r: ItemRef|
        valid_ref(c, r) && item_score(c, r, q) is Some && processed_before(
            r,
            bound,
        ) implies exists|k: int| 0 <= k < ranked.len() && #[trigger] ranked[k].1 == r by {
        assert(r != reference);
        assert(processed_before(r, reference));
    }
}

proof fn lemma_next_category(
    c: ConfigModel,
    q: Seq<char>,
    ranked: Seq<((u8, usize, usize), ItemRef)>,
    category: int,
)
    requires
        0 <= category < c.categories.len(),
        category + 1 <= usize::MAX,
        c.categories[category].items.len() <= usize::MAX,
        ranked_invariant(
            c,
            q,
            ranked,
            ItemRef {
                category: category as usize,
                item: c.categories[category].items.len() as usize,
            },
        ),
    ensures
        ranked_invariant(c, q, ranked, ItemRef { category: (category + 1) as usize, item: 0 }),
{
    let end = ItemRef {
        category: category as usize,
        item: c.categories[category].items.len() as usize,
    };
    let next = ItemRef { category: (category + 1) as usize, item: 0 };
    assert forall|k: int| 0 <= k < ranked.len() implies valid_ref(c, (#[trigger] ranked[k]).1)
        && processed_before(ranked[k].1, next) && item_score(c, ranked[k].1, q) == Some(
        ranked[k].0,
    ) by {
        assert(processed_before(ranked[k].1, end));
    }
    assert forall|r: ItemRef|
        valid_ref(c, r) && item_score(c, r, q) is Some && processed_before(
            r,
            next,
        ) implies exists|k: int| 0 <= k < ranked.len() && #[trigger] ranked[k].1 == r by {
        assert(processed_before(r, end));
    }
}

/// `r` comes before `bound` in configuration order.
pub open spec fn processed_before(r: ItemRef, bound: ItemRef) -> bool {
    r.category < bound.category || (r.category == bound.category && r.item < bound.item)
}

/// What the ranked list holds while items before `bound` have been scored.
pub open spec fn ranked_invariant(
    c: ConfigModel,
    q: Seq<char>,
    ranked: Seq<((u8, usize, usize), ItemRef)>,
    bound: ItemRef,
) -> bool {
    &&& forall|k: int|
        0 <= k < ranked.len() ==> valid_ref(c, (#[trigger] ranked[k]).1) && processed_before(
            ranked[k].1,
            bound,
        ) && item_score(c, ranked[k].1, q) == Some(ranked[k].0)
    &&& forall|r: ItemRef|
        valid_ref(c, r) && item_score(c, r, q) is Some && processed_before(r, bound) ==> exists|
            k: int,
        | 0 <= k < ranked.len() && #[trigger] ranked[k].1 == r
    &&& forall|k1: int, k2: int|
        0 <= k1 < k2 < ranked.len() ==> ranked_before(
            (#[trigger] ranked[k1]).0,
            ranked[k1].1,
            (#[trigger] ranked[k2]).0,
            ranked[k2].1,
        )
}

/// Lexicographic "not worse than" on scores.
pub open spec fn score_le(a: (u8, usize, usize), b: (u8, usize, usize)) -> bool {
    !score_lt(b, a)
}

proof fn lemma_ranked_score_le(
    ranked: Seq<((u8, usize, usize), ItemRef)>,
    k1: int,
    k2: int,
)
    requires
        0 <= k1 <= k2 < ranked.len(),
        forall|a: int, b: int|
            0 <= a < b < ranked.len() ==> ranked_before(
                (#[trigger] ranked[a]).0,
                ranked[a].1,
                (#[trigger] ranked[b]).0,
                ranked[b].1,
            ),
    ensures
        score_le(ranked[k1].0, ranked[k2].0),
{
    if k1 < k2 {
        assert(ranked_before(ranked[k1].0, ranked[k1].1, ranked[k2].0, ranked[k2].1));
    }
}

/// Inserting a newly scored item behind every entry whose score is not worse
/// keeps the ranked list's invariant, one item further.
proof fn lemma_insert_ranked(
    c: ConfigModel,
    q: Seq<char>,
    old_ranked: Seq<((u8, usize, usize), ItemRef)>,
    pos: int,
    score: (u8, usize, usize),
    reference: ItemRef,
)
    requires
        0 <= pos <= old_ranked.len(),
        reference.item < usize::MAX,
        valid_ref(c, reference),
        item_score(c, reference, q) == Some(score),
        ranked_invariant(c, q, old_ranked, reference),
        forall|k: int| pos <= k < old_ranked.len() ==> score_lt(score, #[trigger] old_ranked[k].0),
        pos > 0 ==> !score_lt(score, old_ranked[pos - 1].0),
    ensures
        ranked_invariant(
            c,
            q,
            old_ranked.insert(pos, (score, reference)),
            ItemRef { category: reference.category, item: (reference.item + 1) as usize },
        ),
{
    lemma_insert_ranked_entries(c, q, old_ranked, pos, score, reference);
    lemma_insert_ranked_complete(c, q, old_ranked, pos, score, reference);
    lemma_insert_ranked_sorted(c, q, old_ranked, pos, score, reference);
}

proof fn lemma_insert_ranked_entries(
    c: ConfigModel,
    q: Seq<char>,
    old_ranked: Seq<((u8, usize, usize), ItemRef)>,
    pos: int,
    score: (u8, usize, usize),
    reference: ItemRef,
)
    requires
        0 <= pos <= old_ranked.len(),
        reference.item < usize::MAX,
        valid_ref(c, reference),
        item_score(c, reference, q) == Some(score),
        ranked_invariant(c, q, old_ranked, reference),
    ensures
        ({
            let n = old_ranked.insert(pos, (score, reference));
            let bound = ItemRef { category: reference.category, item: (reference.item + 1) as usize };
            forall|k: int|
                0 <= k < n.len() ==> valid_ref(c, (#[trigger] n[k]).1) && processed_before(
                    n[k].1,
                    bound,
                ) && item_score(c, n[k].1, q) == Some(n[k].0)
        }),
{
    let bound = ItemRef { category: reference.category, item: (reference.item + 1) as usize };
    let n = old_ranked.insert(pos, (score, reference));
    assert forall|k: int| 0 <= k < n.len() implies valid_ref(c, (#[trigger] n[k]).1)
        && processed_before(n[k].1, bound) && item_score(c, n[k].1, q) == Some(n[k].0) by {
        if k < pos {
            assert(n[k] == old_ranked[k]);
            assert(processed_before(old_ranked[k].1, reference));
        } else if k > pos {
            assert(n[k] == old_ranked[k - 1]);
            assert(processed_before(old_ranked[k - 1].1, reference));
        } else {
            assert(n[k] == (score, reference));
        }
    }
}

proof fn lemma_insert_ranked_complete(
    c: ConfigModel,
    q: Seq<char>,
    old_ranked: Seq<((u8, usize, usize), ItemRef)>,
    pos: int,
    score: (u8, usize, usize),
    reference: ItemRef,
)
    requires
        0 <= pos <= old_ranked.len(),
        reference.item < usize::MAX,
        ranked_invariant(c, q, old_ranked, reference),
    ensures
        ({
            let n = old_ranked.insert(pos, (score, reference));
            let bound = ItemRef { category: reference.category, item: (reference.item + 1) as usize };
            forall|r: ItemRef|
                valid_ref(c, r) && item_score(c, r, q) is Some && processed_before(r, bound)
                    ==> exists|k: int| 0 <= k < n.len() && #[trigger] n[k].1 == r
        }),
{
    let bound = ItemRef { category: reference.category, item: (reference.item + 1) as usize };
    let n = old_ranked.insert(pos, (score, reference));
    assert forall|r: ItemRef|
        valid_ref(c, r) && item_score(c, r, q) is Some && processed_before(
            r,
            bound,
        ) implies exists|k: int| 0 <= k < n.len() && #[trigger] n[k].1 == r by {
        if r == reference {
            assert(n[pos].1 == r);
        } else {
            assert(processed_before(r, reference));
            let k = choose|k: int| 0 <= k < old_ranked.len() && #[trigger] old_ranked[k].1 == r;
            if k < pos {
                assert(n[k] == old_ranked[k]);
            } else {
                assert(n[k + 1] == old_ranked[k]);
            }
        }
    }
}

proof fn lemma_insert_ranked_sorted(
    c: ConfigModel,
    q: Seq<char>,
    old_ranked: Seq<((u8, usize, usize), ItemRef)>,
    pos: int,
    score: (u8, usize, usize),
    reference: ItemRef,
)
    requires
        0 <= pos <= old_ranked.len(),
        ranked_invariant(c, q, old_ranked, reference),
        forall|k: int| pos <= k < old_ranked.len() ==> score_lt(score, #[trigger] old_ranked[k].0),
        pos > 0 ==> !score_lt(score, old_ranked[pos - 1].0),
    ensures
        ({
            let n = old_ranked.insert(pos, (score, reference));
            forall|k1: int, k2: int|
                0 <= k1 < k2 < n.len() ==> ranked_before(
                    (#[trigger] n[k1]).0,
                    n[k1].1,
                    (#[trigger] n[k2]).0,
                    n[k2].1,
                )
        }),
{
    let n = old_ranked.insert(pos, (score, reference));
    assert forall|k1: int, k2: int| 0 <= k1 < k2 < n.len() implies ranked_before(
        (#[trigger] n[k1]).0,
        n[k1].1,
        (#[trigger] n[k2]).0,
        n[k2].1,
    ) by {
        if k2 < pos {
            assert(n[k1] == old_ranked[k1] && n[k2] == old_ranked[k2]);
        } else if k1 > pos {
            assert(n[k1] == old_ranked[k1 - 1] && n[k2] == old_ranked[k2 - 1]);
        } else if k1 == pos {
            assert(n[k2] == old_ranked[k2 - 1]);
        } else if k2 == pos {
            assert(n[k1] == old_ranked[k1]);
            assert(processed_before(old_ranked[k1].1, reference));
            lemma_ranked_score_le(old_ranked, k1, pos - 1);
        } else {
            assert(n[k1] == old_ranked[k1]);
            assert(n[k2] == old_ranked[k2 - 1]);
        }
    }
}

/// Inserts a newly scored item, which comes after every item already ranked
/// in configuration order, behind every entry whose score is not worse.
fn insert_ranked(
    ranked: &mut Vec<((u8, usize, usize), ItemRef)>,
    score: (u8, usize, usize),
    reference: ItemRef,
    Ghost(c): Ghost<ConfigModel>,
    Ghost(q): Ghost<Seq<char>>,
)
    requires
        reference.item < usize::MAX,
        valid_ref(c, reference),
        item_score(c, reference, q) == Some(score),
        ranked_invariant(c, q, old(ranked)@, reference),
    ensures
        ranked_invariant(
            c,
            q,
            final(ranked)@,
            ItemRef { category: reference.category, item: (reference.item + 1) as usize },
        ),
        exists|k: int| 0 <= k < final(ranked)@.len() && final(ranked)@[k].1 == reference,
        final(ranked)@.len() == old(ranked)@.len() + 1,
{
    let ghost old_ranked = ranked@;
    let mut pos: usize = ranked.len();
    while pos > 0 && score_less(score, ranked[pos - 1].0)
        invariant
            pos <= ranked@.len(),
            ranked@ == old_ranked,
            forall|k: int| pos <= k < ranked@.len() ==> score_lt(score, #[trigger] ranked@[k].0),
        decreases pos,
    {
        pos -= 1;
    }
    ranked.insert(pos, (score, reference));
    proof {
        lemma_insert_ranked(c, q, old_ranked, pos as int, score, reference);
        assert(ranked@[pos as int].1 == reference);
    }
}

} // verus!
