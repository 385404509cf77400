//! Ordering items by name, ignoring case, keeping items with equal names in
//! their order (a stable sort, as `sort_by_key` performs it).
use crate::config::{ItemModel, LaunchItem};
use crate::text::{chars_of, lowercase, to_lowercase};
use vstd::prelude::*;

verus! {

/// Lexicographic order of texts from position `i` on, by character code
/// (the order of `String`).
pub open spec fn text_le_from(a: Seq<char>, b: Seq<char>, i: int) -> bool
    decreases a.len() - i,
{
    if i < 0 || i >= a.len() {
        true
    } else if i >= b.len() {
        false
    } else if a[i] != b[i] {
        a[i] < b[i]
    } else {
        text_le_from(a, b, i + 1)
    }
}

/// `a <= b` in the order of `String`.
pub open spec fn text_le(a: Seq<char>, b: Seq<char>) -> bool {
    text_le_from(a, b, 0)
}

/// The key items are ordered by: the name in lowercase.
pub open spec fn name_key(item: ItemModel) -> Seq<char> {
    lowercase(item.name)
}

/// `r` is `s` reordered through `p` (`r[k] == s[p[k]]`, each index of `s`
/// used once), ascending by name key, and items with equal keys keep
/// their relative order.
pub open spec fn stable_order(r: Seq<ItemModel>, s: Seq<ItemModel>, p: Seq<int>) -> bool {
    &&& r.len() == s.len()
    &&& p.len() == s.len()
    &&& forall|k: int| 0 <= k < p.len() ==> 0 <= #[trigger] p[k] < s.len() && r[k] == s[p[k]]
    &&& forall|k1: int, k2: int| 0 <= k1 < k2 < p.len() ==> #[trigger] p[k1] != #[trigger] p[k2]
    &&& forall|k1: int, k2: int|
        0 <= k1 < k2 < r.len() ==> text_le(name_key(#[trigger] r[k1]), name_key(#[trigger] r[k2]))
    &&& forall|k1: int, k2: int|
        0 <= k1 < k2 < r.len() && name_key(#[trigger] r[k1]) == name_key(#[trigger] r[k2])
            ==> p[k1] < p[k2]
}

/// `r` is `s` sorted stably by lowercase name.
pub open spec fn sorted_by_name(r: Seq<ItemModel>, s: Seq<ItemModel>) -> bool {
    exists|p: Seq<int>| stable_order(r, s, p)
}

/// `text_le_from` is reflexive.
pub proof fn lemma_text_le_refl(a: Seq<char>, i: int)
    ensures
        text_le_from(a, a, i),
    decreases a.len() - i,
{
    if 0 <= i < a.len() {
        lemma_text_le_refl(a, i + 1);
    }
}

/// `text_le_from` is transitive.
pub proof fn lemma_text_le_trans(a: Seq<char>, b: Seq<char>, c: Seq<char>, i: int)
    requires
        0 <= i,
        text_le_from(a, b, i),
        text_le_from(b, c, i),
    ensures
        text_le_from(a, c, i),
    decreases a.len() - i,
{
    if i < a.len() && i < b.len() && i < c.len() && a[i] == b[i] && b[i] == c[i] {
        lemma_text_le_trans(a, b, c, i + 1);
    }
}

/// `text_le_from` is total.
pub proof fn lemma_text_le_total(a: Seq<char>, b: Seq<char>, i: int)
    requires
        0 <= i,
    ensures
        text_le_from(a, b, i) || text_le_from(b, a, i),
    decreases a.len() - i,
{
    if i < a.len() && i < b.len() {
        if a[i] == b[i] {
            lemma_text_le_total(a, b, i + 1);
        }
    }
}

/// Texts that are ordered both ways are equal.
pub proof fn lemma_text_le_antisym(a: Seq<char>, b: Seq<char>, i: int)
    requires
        0 <= i <= a.len(),
        i <= b.len(),
        a.subrange(0, i) == b.subrange(0, i),
        text_le_from(a, b, i),
        text_le_from(b, a, i),
    ensures
        a == b,
    decreases a.len() - i,
{
    if i < a.len() {
        assert(a.subrange(0, i + 1) =~= b.subrange(0, i + 1)) by {
            assert(a.subrange(0, i + 1) =~= a.subrange(0, i).push(a[i]));
            assert(b.subrange(0, i + 1) =~= b.subrange(0, i).push(b[i]));
        }
        lemma_text_le_antisym(a, b, i + 1);
    } else {
        assert(a =~= a.subrange(0, i));
        assert(b =~= b.subrange(0, i));
    }
}

/// Exec `text_le`.
fn text_le_exec(a: &[char], b: &[char]) -> (r: bool)
    ensures
        r == text_le(a@, b@),
{
    let mut i: usize = 0;
    while i < a.len()
        invariant
            text_le_from(a@, b@, 0) == text_le_from(a@, b@, i as int),
        decreases a@.len() - i,
    {
        if i >= b.len() {
            return false;
        }
        if a[i] != b[i] {
            return a[i] < b[i];
        }
        i += 1;
    }
    true
}

/// Sorts items by lowercase name; items with equal names keep their order.
pub fn sort_by_name(items: &mut Vec<LaunchItem>)
    ensures
        sorted_by_name(
            final(items)@.map_values(|i: LaunchItem| i@),
            old(items)@.map_values(|i: LaunchItem| i@),
        ),
{
    let ghost s = items@.map_values(|i: LaunchItem| i@);
    let n = items.len();
    let mut src: Vec<LaunchItem> = Vec::new();
    std::mem::swap(&mut src, items);
    let mut out: Vec<LaunchItem> = Vec::new();
    let mut keys: Vec<Vec<char>> = Vec::new();
    let ghost mut p: Seq<int> = seq![];
    let mut i: usize = 0;
    assert(src@.map_values(|i: LaunchItem| i@) =~= s.subrange(0, n as int));
    while i < n
        invariant
            n == s.len(),
            i <= n,
            src@.len() == n - i,
            src@.map_values(|i: LaunchItem| i@) =~= s.subrange(i as int, n as int),
            keys@.len() == out@.len(),
            forall|k: int| 0 <= k < keys@.len() ==> (#[trigger] keys@[k])@ == name_key(out@[k]@),
            stable_order(out@.map_values(|i: LaunchItem| i@), s.subrange(0, i as int), p),
        decreases n - i,
    {
        let ghost before = src@;
        let item = src.remove(0);
        let ghost x = item@;
        proof {
            assert(before.map_values(|i: LaunchItem| i@)[0] == s.subrange(i as int, n as int)[0]);
            assert(x == s[i as int]);
            let sv = src@.map_values(|i: LaunchItem| i@);
            assert forall|k: int| 0 <= k < src@.len() implies #[trigger] sv[k]
                == s.subrange(i + 1, n as int)[k] by {
                assert(src@[k] == before[k + 1]);
                assert(before.map_values(|i: LaunchItem| i@)[k + 1] == s.subrange(i as int, n as int)[k + 1]);
            }
            assert(src@.map_values(|i: LaunchItem| i@) =~= s.subrange(i + 1, n as int));
        }
        let lower = to_lowercase(item.name.as_str());
        let key = chars_of(lower.as_str());
        let ghost o = out@.map_values(|i: LaunchItem| i@);
        let mut pos: usize = out.len();
        while pos > 0 && !text_le_exec(keys[pos - 1].as_slice(), key.as_slice())
            invariant
                pos <= out@.len(),
                keys@.len() == out@.len(),
                forall|k: int| 0 <= k < keys@.len() ==> (#[trigger] keys@[k])@ == name_key(out@[k]@),
                forall|k: int| pos <= k < out@.len() ==> !text_le(name_key(#[trigger] o[k]), key@),
                o == out@.map_values(|i: LaunchItem| i@),
            decreases pos,
        {
            pos -= 1;
        }
        proof {
            lemma_insert_keeps_order(o, s.subrange(0, i as int), p, x, pos as int);
            assert(s.subrange(0, i as int).push(x) =~= s.subrange(0, i + 1));
        }
        out.insert(pos, item);
        keys.insert(pos, key);
        proof {
            assert(out@.map_values(|i: LaunchItem| i@) =~= o.insert(pos as int, x));
            p = p.insert(pos as int, i as int);
        }
        i += 1;
    }
    proof {
        assert(s.subrange(0, n as int) =~= s);
    }
    *items = out;
}

/// Inserting `x` after every item whose key is at most `x`'s and before
/// every item whose key is greater keeps a stable order.
proof fn lemma_insert_keeps_order(o: Seq<ItemModel>, s: Seq<ItemModel>, p: Seq<int>, x: ItemModel, pos: int)
    requires
        stable_order(o, s, p),
        0 <= pos <= o.len(),
        pos > 0 ==> text_le(name_key(o[pos - 1]), name_key(x)),
        forall|k: int| pos <= k < o.len() ==> !text_le(name_key(#[trigger] o[k]), name_key(x)),
    ensures
        stable_order(o.insert(pos, x), s.push(x), p.insert(pos, s.len() as int)),
{
    let r = o.insert(pos, x);
    let t = s.push(x);
    let q = p.insert(pos, s.len() as int);
    let kx = name_key(x);
    assert forall|k: int| 0 <= k < q.len() implies 0 <= #[trigger] q[k] < t.len() && r[k] == t[q[k]] by {
        if k < pos {
            assert(q[k] == p[k]);
        } else if k > pos {
            assert(q[k] == p[k - 1]);
        }
    }
    assert forall|k1: int, k2: int| 0 <= k1 < k2 < q.len() implies #[trigger] q[k1] != #[trigger] q[k2] by {
        if k1 != pos && k2 != pos {
            let j1 = if k1 < pos { k1 } else { k1 - 1 };
            let j2 = if k2 < pos { k2 } else { k2 - 1 };
            assert(q[k1] == p[j1] && q[k2] == p[j2]);
        } else if k1 == pos {
            assert(q[k2] == p[k2 - 1]);
        } else {
            assert(q[k1] == p[k1]);
        }
    }
    assert forall|k1: int, k2: int| 0 <= k1 < k2 < r.len() implies text_le(
        name_key(#[trigger] r[k1]),
        name_key(#[trigger] r[k2]),
    ) by {
        if k1 != pos && k2 != pos {
            let j1 = if k1 < pos { k1 } else { k1 - 1 };
            let j2 = if k2 < pos { k2 } else { k2 - 1 };
            assert(r[k1] == o[j1] && r[k2] == o[j2]);
        } else if k1 == pos {
            assert(r[k2] == o[k2 - 1]);
            lemma_text_le_total(name_key(o[k2 - 1]), kx, 0);
        } else {
            assert(r[k1] == o[k1]);
            if k1 < pos - 1 {
                lemma_text_le_trans(name_key(o[k1]), name_key(o[pos - 1]), kx, 0);
            }
        }
    }
    assert forall|k1: int, k2: int|
        0 <= k1 < k2 < r.len() && name_key(#[trigger] r[k1]) == name_key(#[trigger] r[k2]) implies q[k1]
        < q[k2] by {
        if k1 != pos && k2 != pos {
            let j1 = if k1 < pos { k1 } else { k1 - 1 };
            let j2 = if k2 < pos { k2 } else { k2 - 1 };
            assert(r[k1] == o[j1] && r[k2] == o[j2]);
            assert(q[k1] == p[j1] && q[k2] == p[j2]);
        } else if k1 == pos {
            assert(r[k2] == o[k2 - 1]);
            lemma_text_le_refl(kx, 0);
        } else {
            assert(r[k1] == o[k1]);
            assert(q[k1] == p[k1]);
        }
    }
}

} // verus!
