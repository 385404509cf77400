//! Paths and launch requests: how an added file becomes an item, how
//! `%VARIABLE%` references in paths expand, and the arguments handed to the
//! shell. Paths follow Windows rules (`\` and `/` separate components, a
//! leading `X:` names a drive), whatever system the code runs on.
use crate::config::{hex16, push_hex16, ItemModel, LaunchItem};
use crate::text::{chars_of, index_of_char, index_of_from, lowercase, push_char, string_of, to_lowercase};
use std::hash::{Hash, Hasher};
use vstd::prelude::*;
use vstd::string::StringExecFns;

verus! {

/// A path component separator.
pub open spec fn is_sep(c: char) -> bool {
    c == '\\' || c == '/'
}

/// An ASCII letter (a drive letter).
pub open spec fn is_ascii_letter(c: char) -> bool {
    ('A' <= c && c <= 'Z') || ('a' <= c && c <= 'z')
}

/// Start of the component that ends at `end`: just after the last
/// separator before `end`, or 0.
pub open spec fn component_start(s: Seq<char>, end: int) -> int
    decreases end,
{
    if end <= 0 {
        0
    } else if is_sep(s[end - 1]) {
        end
    } else {
        component_start(s, end - 1)
    }
}

/// Range of the file name among the first `end` characters of a path:
/// the last component, ignoring trailing separators and `.` components;
/// none for `..`, a bare drive or an empty path. In `X:name` the drive is
/// not part of the name.
pub open spec fn name_range(s: Seq<char>, end: int) -> Option<(int, int)>
    decreases end,
{
    if end <= 0 || end > s.len() {
        None
    } else if is_sep(s[end - 1]) {
        name_range(s, end - 1)
    } else {
        let start = component_start(s, end);
        if end - start == 1 && s[start] == '.' {
            if start == 0 {
                None
            } else {
                name_range(s, start)
            }
        } else if end - start == 2 && s[start] == '.' && s[start + 1] == '.' {
            None
        } else if start == 0 && end >= 2 && s[1] == ':' && is_ascii_letter(s[0]) {
            if end == 2 {
                None
            } else {
                Some((2, end))
            }
        } else {
            Some((start, end))
        }
    }
}

/// Last position in `[start, end)` holding a dot, or `None`.
pub open spec fn last_dot(s: Seq<char>, start: int, end: int) -> Option<int>
    decreases end - start,
{
    if end <= start {
        None
    } else if s[end - 1] == '.' {
        Some(end - 1)
    } else {
        last_dot(s, start, end - 1)
    }
}

/// End of the stem of the name `s[start..end]`: before its last dot, unless
/// that dot opens the name (as in `.profile`) or there is none.
pub open spec fn stem_end(s: Seq<char>, start: int, end: int) -> int {
    match last_dot(s, start, end) {
        Some(d) => if d == start {
            end
        } else {
            d
        },
        None => end,
    }
}

/// The display name of an added path: the file name without its
/// extension, or the whole path when it has no file name.
pub open spec fn display_name(path: Seq<char>) -> Seq<char> {
    match name_range(path, path.len() as int) {
        Some((a, b)) => path.subrange(a, stem_end(path, a, b)),
        None => path,
    }
}

/// Hash of a text under std's `DefaultHasher`.
pub uninterp spec fn text_hash(s: Seq<char>) -> u64;

/// Hashes a text with std's `DefaultHasher` (created by `new`, which
/// always starts from the same keys).
#[verifier::external_body]
fn hash_text(s: &str) -> (h: u64)
    ensures
        h == text_hash(s@),
{
    let mut hasher = std::collections::hash_map::DefaultHasher::new();
    s.hash(&mut hasher);
    hasher.finish()
}

/// Item id for a path: `item-` and sixteen hex digits of the hash of the
/// lowercased path, so the same file gets the same id however it is cased.
pub open spec fn item_id(path: Seq<char>) -> Seq<char> {
    seq!['i', 't', 'e', 'm', '-'] + hex16(text_hash(lowercase(path)))
}

/// The item created for an added path.
pub open spec fn item_for_path(path: Seq<char>) -> ItemModel {
    ItemModel {
        id: item_id(path),
        name: display_name(path),
        path,
        icon_path: seq![],
        arguments: seq![],
        working_directory: seq![],
    }
}

/// Exec `component_start`.
fn component_start_exec(s: &[char], end: usize) -> (r: usize)
    requires
        end <= s@.len(),
    ensures
        r == component_start(s@, end as int),
        r <= end,
{
    let mut i = end;
    while i > 0 && !(s[i - 1] == '\\' || s[i - 1] == '/')
        invariant
            i <= end <= s@.len(),
            component_start(s@, end as int) == component_start(s@, i as int),
        decreases i,
    {
        i -= 1;
    }
    i
}

/// Exec `name_range`.
fn name_range_exec(s: &[char], end: usize) -> (r: Option<(usize, usize)>)
    requires
        end <= s@.len(),
    ensures
        r matches Some((a, b)) ==> name_range(s@, end as int) == Some((a as int, b as int)) && a
            < b <= end,
        r is None ==> name_range(s@, end as int) is None,
    decreases end,
{
    if end == 0 {
        return None;
    }
    if s[end - 1] == '\\' || s[end - 1] == '/' {
        return name_range_exec(s, end - 1);
    }
    let start = component_start_exec(s, end);
    proof {
        lemma_component_start(s@, end as int);
    }
    if end - start == 1 && s[start] == '.' {
        if start == 0 {
            None
        } else {
            name_range_exec(s, start)
        }
    } else if end - start == 2 && s[start] == '.' && s[start + 1] == '.' {
        None
    } else if start == 0 && end >= 2 && s[1] == ':' && (('A' <= s[0] && s[0] <= 'Z') || ('a'
        <= s[0] && s[0] <= 'z')) {
        if end == 2 {
            None
        } else {
            Some((2, end))
        }
    } else {
        Some((start, end))
    }
}

/// Exec `stem_end`.
fn stem_end_exec(s: &[char], start: usize, end: usize) -> (r: usize)
    requires
        start <= end <= s@.len(),
    ensures
        r == stem_end(s@, start as int, end as int),
        start <= r <= end,
{
    let mut i = end;
    while i > start && s[i - 1] != '.'
        invariant
            start <= i <= end <= s@.len(),
            last_dot(s@, start as int, end as int) == last_dot(s@, start as int, i as int),
        decreases i,
    {
        i -= 1;
    }
    if i == start {
        end
    } else if i - 1 == start {
        end
    } else {
        i - 1
    }
}

/// Range of a path's file name (see `name_range`).
pub fn file_name_range(s: &[char]) -> (r: Option<(usize, usize)>)
    ensures
        r matches Some((a, b)) ==> name_range(s@, s@.len() as int) == Some((a as int, b as int))
            && a < b <= s@.len(),
        r is None ==> name_range(s@, s@.len() as int) is None,
{
    name_range_exec(s, s.len())
}

/// Last dot in `s[start..end]` (see `last_dot`).
pub fn dot_before(s: &[char], start: usize, end: usize) -> (r: Option<usize>)
    requires
        start <= end <= s@.len(),
    ensures
        r matches Some(d) ==> last_dot(s@, start as int, end as int) == Some(d as int) && start
            <= d < end,
        r is None ==> last_dot(s@, start as int, end as int) is None,
{
    let mut i = end;
    while i > start && s[i - 1] != '.'
        invariant
            start <= i <= end <= s@.len(),
            last_dot(s@, start as int, end as int) == last_dot(s@, start as int, i as int),
        decreases i,
    {
        i -= 1;
    }
    if i == start {
        None
    } else {
        Some(i - 1)
    }
}

/// The characters `s[a..b]` as a `String`.
fn slice_string(s: &[char], a: usize, b: usize) -> (r: String)
    requires
        a <= b <= s@.len(),
    ensures
        r@ == s@.subrange(a as int, b as int),
{
    let mut out = String::new();
    let mut i = a;
    while i < b
        invariant
            a <= i <= b <= s@.len(),
            out@ == s@.subrange(a as int, i as int),
        decreases b - i,
    {
        push_char(&mut out, s[i]);
        i += 1;
        assert(out@ =~= s@.subrange(a as int, i as int));
    }
    out
}

/// Exec `item_id`.
pub fn make_id(path: &str) -> (r: String)
    ensures
        r@ == item_id(path@),
{
    let lower = to_lowercase(path);
    let mut id = String::from_str("item-");
    proof {
        reveal_strlit("item-");
    }
    push_hex16(&mut id, hash_text(lower.as_str()));
    id
}

/// The item for an added file or folder: named after the file without its
/// extension, with an id derived from the path.
pub fn item_from_path(path: &str) -> (r: LaunchItem)
    ensures
        r@ == item_for_path(path@),
{
    let chars = chars_of(path);
    let name = match name_range_exec(chars.as_slice(), chars.len()) {
        Some((a, b)) => {
            let e = stem_end_exec(chars.as_slice(), a, b);
            slice_string(chars.as_slice(), a, e)
        },
        None => String::from_str(path),
    };
    let r = LaunchItem {
        id: make_id(path),
        name,
        path: String::from_str(path),
        icon_path: String::new(),
        arguments: String::new(),
        working_directory: String::new(),
    };
    assert(r@ == item_for_path(path@));
    r
}

/// The value of one environment variable, as the caller looked it up
/// (`None` when it is not set).
pub struct EnvVar {
    pub name: String,
    pub value: Option<String>,
}

/// Value of the first entry named `name` from entry `k` on; `None` when it
/// is unset or missing.
pub open spec fn lookup(env: Seq<EnvVar>, name: Seq<char>, k: int) -> Option<Seq<char>>
    decreases env.len() - k,
{
    if k < 0 || k >= env.len() {
        None
    } else if env[k].name@ == name {
        match env[k].value {
            Some(v) => Some(v@),
            None => None,
        }
    } else {
        lookup(env, name, k + 1)
    }
}

/// The text from position `pos` on with each `%NAME%` replaced by the
/// variable's value; references to unset variables, and a lone `%`, stay
/// as written.
pub open spec fn expand_from(s: Seq<char>, pos: int, env: Seq<EnvVar>) -> Seq<char>
    decreases s.len() - pos,
{
    if pos < 0 || pos > s.len() {
        seq![]
    } else {
        match index_of_from(s, '%', pos) {
            None => s.subrange(pos, s.len() as int),
            Some(a) => match index_of_from(s, '%', a + 1) {
                None => s.subrange(pos, s.len() as int),
                Some(b) => {
                    proof {
                        lemma_index_after(s, '%', pos);
                        lemma_index_after(s, '%', a + 1);
                    }
                    s.subrange(pos, a) + (match lookup(env, s.subrange(a + 1, b), 0) {
                        Some(v) => v,
                        None => s.subrange(a, b + 1),
                    }) + expand_from(s, b + 1, env)
                },
            },
        }
    }
}

/// Names of the `%NAME%` references from position `pos` on, in order.
pub open spec fn names_from(s: Seq<char>, pos: int) -> Seq<Seq<char>>
    decreases s.len() - pos,
{
    if pos < 0 || pos > s.len() {
        seq![]
    } else {
        match index_of_from(s, '%', pos) {
            None => seq![],
            Some(a) => match index_of_from(s, '%', a + 1) {
                None => seq![],
                Some(b) => {
                    proof {
                        lemma_index_after(s, '%', pos);
                        lemma_index_after(s, '%', a + 1);
                    }
                    seq![s.subrange(a + 1, b)] + names_from(s, b + 1)
                },
            },
        }
    }
}

proof fn lemma_component_start(s: Seq<char>, end: int)
    requires
        0 <= end <= s.len(),
    ensures
        0 <= component_start(s, end) <= end,
        end > 0 && !is_sep(s[end - 1]) ==> component_start(s, end) < end,
    decreases end,
{
    if end > 0 && !is_sep(s[end - 1]) {
        lemma_component_start(s, end - 1);
    }
}

/// A found position is at or after the start and holds the character.
pub proof fn lemma_index_after(s: Seq<char>, c: char, i: int)
    ensures
        index_of_from(s, c, i) matches Some(j) ==> i <= j < s.len() && s[j] == c,
    decreases s.len() - i,
{
    if !(i < 0 || i >= s.len()) && s[i] != c {
        lemma_index_after(s, c, i + 1);
    }
}

/// Exec `lookup` from the first entry.
fn lookup_exec(env: &Vec<EnvVar>, name: &[char]) -> (r: Option<String>)
    ensures
        match r {
            Some(v) => lookup(env@, name@, 0) == Some(v@),
            None => lookup(env@, name@, 0) is None,
        },
{
    let mut k: usize = 0;
    while k < env.len()
        invariant
            k <= env@.len(),
            lookup(env@, name@, 0) == lookup(env@, name@, k as int),
        decreases env@.len() - k,
    {
        let candidate = chars_of(env[k].name.as_str());
        if crate::text::chars_equal(candidate.as_slice(), name) {
            return match &env[k].value {
                Some(v) => Some(v.clone()),
                None => None,
            };
        }
        k += 1;
    }
    None
}

/// Appends `s[a..b]` to `out`.
fn push_range(out: &mut Vec<char>, s: &[char], a: usize, b: usize)
    requires
        a <= b <= s@.len(),
    ensures
        final(out)@ == old(out)@ + s@.subrange(a as int, b as int),
{
    let mut i = a;
    while i < b
        invariant
            a <= i <= b <= s@.len(),
            out@ == old(out)@ + s@.subrange(a as int, i as int),
        decreases b - i,
    {
        out.push(s[i]);
        i += 1;
        assert(out@ =~= old(out)@ + s@.subrange(a as int, i as int));
    }
}

/// Expands the `%NAME%` references of a text with the looked-up values.
pub fn expand_environment(value: &str, env: &Vec<EnvVar>) -> (r: String)
    ensures
        r@ == expand_from(value@, 0, env@),
{
    let s = chars_of(value);
    let mut out: Vec<char> = Vec::new();
    let mut pos: usize = 0;
    loop
        invariant_except_break
            expand_from(s@, 0, env@) == out@ + expand_from(s@, pos as int, env@),
        invariant
            pos <= s@.len(),
            s@ == value@,
        ensures
            expand_from(s@, 0, env@) == out@,
        decreases s@.len() - pos,
    {
        let first = index_of_char(s.as_slice(), '%', pos);
        match first {
            None => {
                let ghost before = out@;
                push_range(&mut out, s.as_slice(), pos, s.len());
                assert(before + expand_from(s@, pos as int, env@) =~= out@);
                break;
            },
            Some(a) => {
                let second = index_of_char(s.as_slice(), '%', a + 1);
                proof {
                    lemma_index_after(s@, '%', pos as int);
                }
                match second {
                    None => {
                        let ghost before = out@;
                        push_range(&mut out, s.as_slice(), pos, s.len());
                        assert(before + expand_from(s@, pos as int, env@) =~= out@);
                        break;
                    },
                    Some(b) => {
                        proof {
                            lemma_index_after(s@, '%', a + 1);
                        }
                        assert(b < s.len());
                        let ghost before = out@;
                        push_range(&mut out, s.as_slice(), pos, a);
                        let name = slice_chars(s.as_slice(), a + 1, b);
                        match lookup_exec(env, name.as_slice()) {
                            Some(v) => {
                                let vc = chars_of(v.as_str());
                                push_range(&mut out, vc.as_slice(), 0, vc.len());
                                assert(vc@.subrange(0, vc@.len() as int) =~= vc@);
                            },
                            None => {
                                push_range(&mut out, s.as_slice(), a, b + 1);
                            },
                        }
                        proof {
                            assert(out@ + expand_from(s@, b + 1, env@) =~= before + expand_from(
                                s@,
                                pos as int,
                                env@,
                            ));
                        }
                        pos = b + 1;
                    },
                }
            },
        }
    }
    string_of(out.as_slice())
}

/// `s[a..b]` as a vector.
fn slice_chars(s: &[char], a: usize, b: usize) -> (r: Vec<char>)
    requires
        a <= b <= s@.len(),
    ensures
        r@ == s@.subrange(a as int, b as int),
{
    let mut r: Vec<char> = Vec::new();
    push_range(&mut r, s, a, b);
    assert(r@ =~= s@.subrange(a as int, b as int));
    r
}

/// Names of the variables that `expand_environment` looks up for a text, in order.
pub fn environment_names(value: &str) -> (r: Vec<String>)
    ensures
        r@.map_values(|n: String| n@) == names_from(value@, 0),
{
    let s = chars_of(value);
    let mut out: Vec<String> = Vec::new();
    let mut pos: usize = 0;
    loop
        invariant_except_break
            names_from(s@, 0) == out@.map_values(|n: String| n@) + names_from(s@, pos as int),
        invariant
            pos <= s@.len(),
            s@ == value@,
        ensures
            names_from(s@, 0) == out@.map_values(|n: String| n@),
        decreases s@.len() - pos,
    {
        let first = index_of_char(s.as_slice(), '%', pos);
        let a = match first {
            None => {
                assert(out@.map_values(|n: String| n@) + names_from(s@, pos as int)
                    =~= out@.map_values(|n: String| n@));
                break;
            },
            Some(a) => a,
        };
        proof {
            lemma_index_after(s@, '%', pos as int);
        }
        let second = index_of_char(s.as_slice(), '%', a + 1);
        let b = match second {
            None => {
                assert(out@.map_values(|n: String| n@) + names_from(s@, pos as int)
                    =~= out@.map_values(|n: String| n@));
                break;
            },
            Some(b) => b,
        };
        proof {
            lemma_index_after(s@, '%', a + 1);
        }
        let ghost before = out@.map_values(|n: String| n@);
        let name = slice_string(s.as_slice(), a + 1, b);
        out.push(name);
        proof {
            assert(out@.map_values(|n: String| n@) =~= before.push(s@.subrange(a + 1, b as int)));
            assert(names_from(s@, pos as int) == seq![s@.subrange(a + 1, b as int)] + names_from(
                s@,
                b + 1,
            ));
            assert(out@.map_values(|n: String| n@) + names_from(s@, b + 1) =~= before + names_from(
                s@,
                pos as int,
            ));
        }
        pos = b + 1;
    }
    out
}

/// Arguments that open the system's "open with" dialog for a file.
pub open spec fn open_with_arguments_spec(path: Seq<char>) -> Seq<char> {
    "shell32.dll,OpenAs_RunDLL \""@ + path + seq!['"']
}

/// Arguments that make the file manager select a file.
pub open spec fn reveal_arguments_spec(path: Seq<char>) -> Seq<char> {
    "/select,\""@ + path + seq!['"']
}

/// Exec `open_with_arguments_spec`.
pub fn open_with_arguments(path: &str) -> (r: String)
    ensures
        r@ == open_with_arguments_spec(path@),
{
    let mut r = String::from_str("shell32.dll,OpenAs_RunDLL \"");
    r.append(path);
    push_char(&mut r, '"');
    r
}

/// Exec `reveal_arguments_spec`.
pub fn reveal_arguments(path: &str) -> (r: String)
    ensures
        r@ == reveal_arguments_spec(path@),
{
    let mut r = String::from_str("/select,\"");
    r.append(path);
    push_char(&mut r, '"');
    r
}

} // verus!
