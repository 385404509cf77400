//! Icon sources picked by the user: reading the text the shell hands back,
//! resolving a shortcut's icon location step by step, and naming stored
//! icon copies.
use crate::config::{hex16, push_hex16};
use crate::shell::{expand_from, is_ascii_letter, is_sep, last_dot, name_range, EnvVar};
use crate::text::{ascii_lowercase, chars_of, is_blank, is_blank_str, push_char, same_text, string_of};
use vstd::prelude::*;
use vstd::string::StringExecFns;

verus! {

/// The icon file and the index of the icon inside it.
pub struct IconSource {
    pub path: String,
    pub index: i32,
}

/// The character of a UTF-16 unit outside the surrogate range.
pub open spec fn unit_char(u: u16) -> char {
    u as char
}

/// UTF-16 decoding that replaces each unpaired surrogate by U+FFFD, as
/// `String::from_utf16_lossy` documents.
pub open spec fn utf16_lossy(s: Seq<u16>) -> Seq<char>
    decreases s.len(),
{
    if s.len() == 0 {
        seq![]
    } else if s[0] < 0xD800 || s[0] > 0xDFFF {
        seq![unit_char(s[0])] + utf16_lossy(s.drop_first())
    } else if s[0] <= 0xDBFF && s.len() >= 2 && 0xDC00 <= s[1] <= 0xDFFF {
        seq![(0x10000 + (s[0] - 0xD800) * 0x400 + (s[1] - 0xDC00)) as char] + utf16_lossy(
            s.subrange(2, s.len() as int),
        )
    } else {
        seq!['\u{FFFD}'] + utf16_lossy(s.drop_first())
    }
}

/// `String::from_utf16_lossy`.
#[verifier::external_body]
fn decode_utf16(units: &[u16]) -> (r: String)
    ensures
        r@ == utf16_lossy(units@),
{
    String::from_utf16_lossy(units)
}

/// Position of the first zero unit, or the length.
pub open spec fn text_end(buffer: Seq<u16>, i: int) -> int
    decreases buffer.len() - i,
{
    if i < 0 || i >= buffer.len() {
        buffer.len() as int
    } else if buffer[i] == 0 {
        i
    } else {
        text_end(buffer, i + 1)
    }
}

/// The text in a zero-terminated UTF-16 buffer (the whole buffer when it
/// holds no zero).
pub fn buffer_text(buffer: &[u16]) -> (r: String)
    ensures
        r@ == utf16_lossy(buffer@.subrange(0, text_end(buffer@, 0))),
{
    let mut n: usize = 0;
    while n < buffer.len() && buffer[n] != 0
        invariant
            n <= buffer@.len(),
            text_end(buffer@, 0) == text_end(buffer@, n as int),
        decreases buffer@.len() - n,
    {
        n += 1;
    }
    let mut prefix: Vec<u16> = Vec::new();
    let mut i: usize = 0;
    while i < n
        invariant
            n <= buffer@.len(),
            i <= n,
            prefix@ == buffer@.subrange(0, i as int),
        decreases n - i,
    {
        prefix.push(buffer[i]);
        i += 1;
        assert(prefix@ =~= buffer@.subrange(0, i as int));
    }
    decode_utf16(prefix.as_slice())
}

/// The extension of a path's file name in ASCII lowercase: the text after
/// its last dot, none when the name has no dot or only a leading one.
pub open spec fn extension_spec(path: Seq<char>) -> Seq<char> {
    match name_range(path, path.len() as int) {
        Some((a, b)) => match last_dot(path, a, b) {
            Some(d) => if d == a {
                seq![]
            } else {
                ascii_lowercase(path.subrange(d + 1, b))
            },
            None => seq![],
        },
        None => seq![],
    }
}

/// Exec `extension_spec`.
pub fn extension(path: &str) -> (r: String)
    ensures
        r@ == extension_spec(path@),
{
    let chars = chars_of(path);
    let range = crate::shell::file_name_range(chars.as_slice());
    match range {
        Some((a, b)) => {
            match crate::shell::dot_before(chars.as_slice(), a, b) {
                Some(d) => if d == a {
                    String::new()
                } else {
                    let mut tail: Vec<char> = Vec::new();
                    let mut i = d + 1;
                    while i < b
                        invariant
                            d + 1 <= i <= b <= chars@.len(),
                            tail@ == chars@.subrange(d + 1, i as int),
                        decreases b - i,
                    {
                        tail.push(chars[i]);
                        i += 1;
                        assert(tail@ =~= chars@.subrange(d + 1, i as int));
                    }
                    let lower = crate::text::ascii_lowercase_chars(tail.as_slice());
                    string_of(lower.as_slice())
                },
                None => String::new(),
            }
        },
        None => String::new(),
    }
}

/// Whether a path is absolute on Windows: a drive with a root (`C:\`) or a
/// UNC path (`\\server\share`).
pub open spec fn absolute(p: Seq<char>) -> bool {
    (p.len() >= 3 && is_ascii_letter(p[0]) && p[1] == ':' && is_sep(p[2])) || (p.len() >= 2
        && is_sep(p[0]) && is_sep(p[1]))
}

/// The drive prefix (`C:`) of a path, if it has one.
pub open spec fn drive_prefix(p: Seq<char>) -> Seq<char> {
    if p.len() >= 2 && is_ascii_letter(p[0]) && p[1] == ':' {
        p.subrange(0, 2)
    } else {
        seq![]
    }
}

/// `parent` joined with `p` as Windows joins paths: an absolute `p`
/// replaces it, a rooted `p` keeps only its drive, otherwise `p` follows it
/// after a separator.
pub open spec fn joined(parent: Seq<char>, p: Seq<char>) -> Seq<char> {
    if absolute(p) {
        p
    } else if p.len() > 0 && is_sep(p[0]) {
        drive_prefix(parent) + p
    } else if parent.len() == 0 || is_sep(parent.last()) {
        parent + p
    } else {
        parent + seq!['\\'] + p
    }
}

/// Characters that `expand_path` strips from both ends: whitespace and quotes.
pub open spec fn trimmed_location(value: Seq<char>) -> Seq<char> {
    strip_quotes(crate::text::trim(value))
}

/// The text without leading and trailing `"` characters.
pub open spec fn strip_quotes(s: Seq<char>) -> Seq<char> {
    let a = quotes_end(s, 0);
    s.subrange(a, quotes_start(s, a, s.len() as int))
}

/// First position at or after `i` that is not a quote.
pub open spec fn quotes_end(s: Seq<char>, i: int) -> int
    decreases s.len() - i,
{
    if i < 0 || i >= s.len() {
        s.len() as int
    } else if s[i] == '"' {
        quotes_end(s, i + 1)
    } else {
        i
    }
}

/// End (exclusive) of the text above `low` once trailing quotes are removed.
pub open spec fn quotes_start(s: Seq<char>, low: int, j: int) -> int
    decreases j - low,
{
    if j <= low || j > s.len() {
        low
    } else if s[j - 1] == '"' {
        quotes_start(s, low, j - 1)
    } else {
        j
    }
}

/// A shortcut's icon location resolved against the shortcut's folder:
/// trimmed of whitespace and quotes, `%VARIABLE%`s expanded, and joined to
/// `parent` unless absolute.
pub open spec fn expand_path_spec(value: Seq<char>, parent: Seq<char>, env: Seq<EnvVar>) -> Seq<char> {
    joined(parent, expand_from(trimmed_location(value), 0, env))
}

/// Exec `expand_path_spec`.
pub fn expand_path(value: &str, parent: &str, env: &Vec<EnvVar>) -> (r: String)
    ensures
        r@ == expand_path_spec(value@, parent@, env@),
{
    let chars = chars_of(value);
    let trimmed = crate::text::trim_chars(chars.as_slice());
    let mut a: usize = 0;
    while a < trimmed.len() && trimmed[a] == '"'
        invariant
            a <= trimmed@.len(),
            quotes_end(trimmed@, 0) == quotes_end(trimmed@, a as int),
        decreases trimmed@.len() - a,
    {
        a += 1;
    }
    let mut b: usize = trimmed.len();
    while b > a && trimmed[b - 1] == '"'
        invariant
            a <= b <= trimmed@.len(),
            quotes_start(trimmed@, a as int, trimmed@.len() as int) == quotes_start(
                trimmed@,
                a as int,
                b as int,
            ),
        decreases b,
    {
        b -= 1;
    }
    let mut core: Vec<char> = Vec::new();
    let mut i = a;
    while i < b
        invariant
            a <= i <= b <= trimmed@.len(),
            core@ == trimmed@.subrange(a as int, i as int),
        decreases b - i,
    {
        core.push(trimmed[i]);
        i += 1;
        assert(core@ =~= trimmed@.subrange(a as int, i as int));
    }
    let core_text = string_of(core.as_slice());
    let expanded = crate::shell::expand_environment(core_text.as_str(), env);
    join_path(parent, expanded.as_str())
}

/// Exec `joined`.
pub fn join_path(parent: &str, p: &str) -> (r: String)
    ensures
        r@ == joined(parent@, p@),
{
    let pc = chars_of(parent);
    let c = chars_of(p);
    let is_absolute = (c.len() >= 3 && (('A' <= c[0] && c[0] <= 'Z') || ('a' <= c[0] && c[0]
        <= 'z')) && c[1] == ':' && (c[2] == '\\' || c[2] == '/')) || (c.len() >= 2 && (c[0]
        == '\\' || c[0] == '/') && (c[1] == '\\' || c[1] == '/'));
    if is_absolute {
        return String::from_str(p);
    }
    if c.len() > 0 && (c[0] == '\\' || c[0] == '/') {
        let mut r = String::new();
        if pc.len() >= 2 && (('A' <= pc[0] && pc[0] <= 'Z') || ('a' <= pc[0] && pc[0] <= 'z'))
            && pc[1] == ':' {
            push_char(&mut r, pc[0]);
            push_char(&mut r, ':');
            assert(r@ =~= drive_prefix(parent@));
        } else {
            assert(r@ =~= drive_prefix(parent@));
        }
        r.append(p);
        return r;
    }
    let mut r = String::from_str(parent);
    if !(pc.len() == 0 || pc[pc.len() - 1] == '\\' || pc[pc.len() - 1] == '/') {
        push_char(&mut r, '\\');
    }
    r.append(p);
    r
}

/// File name of a stored icon copy: the content hash in sixteen hex digits.
pub fn ico_file_name(hash: u64) -> (r: String)
    ensures
        r@ == hex16(hash) + ".ico"@,
{
    let mut r = String::new();
    push_hex16(&mut r, hash);
    r.append(".ico");
    r
}

/// How many files one resolution may visit before it gives up.
pub const MAX_SOURCE_VISITS: usize = 16;

/// Why an icon source cannot be used.
#[derive(Clone, Copy, Debug, PartialEq, Eq, Structural)]
pub enum SourceError {
    /// Shortcuts lead back to a file already visited, or nest too deeply.
    Cycle,
    /// The file is not an `.ico`, `.exe`, `.dll` or `.lnk` file.
    Unsupported,
    /// A shortcut has neither an icon location nor a target.
    NoTarget,
}

/// What resolving an icon source does next.
pub enum SourceStep {
    /// The icon is in this file, at this index.
    Found(IconSource),
    /// The file is a shortcut: its icon location, icon index and target
    /// are read next.
    ReadShortcut,
    /// Resolve this path from the start: another shortcut, or a
    /// shortcut's target.
    Follow(String),
    /// The shortcut names this icon file: it is used at `index` once its
    /// path is made canonical.
    IconFile { path: String, index: i32 },
    Fail(SourceError),
}

/// Extensions of files that hold icons themselves.
pub open spec fn holds_icons(ext: Seq<char>) -> bool {
    ext == seq!['i', 'c', 'o'] || ext == seq!['e', 'x', 'e'] || ext == seq!['d', 'l', 'l']
}

/// The extension of shortcuts.
pub open spec fn is_shortcut(ext: Seq<char>) -> bool {
    ext == seq!['l', 'n', 'k']
}

/// Whether a path was visited already.
pub open spec fn visited(seen: Seq<String>, path: Seq<char>) -> bool {
    exists|i: int| 0 <= i < seen.len() && (#[trigger] seen[i])@ == path
}

/// Whether a list of visited paths holds `path`.
fn was_visited(seen: &Vec<String>, path: &str) -> (r: bool)
    ensures
        r == visited(seen@, path@),
{
    let mut i: usize = 0;
    while i < seen.len()
        invariant
            i <= seen@.len(),
            forall|k: int| 0 <= k < i ==> (#[trigger] seen@[k])@ != path@,
        decreases seen@.len() - i,
    {
        if same_text(seen[i].as_str(), path) {
            return true;
        }
        i += 1;
    }
    false
}

/// Visits the canonical path of a source during resolution. A path seen
/// before, or one more file after the visit limit, is a cycle and leaves
/// `seen` as it was; otherwise the path is recorded, and an icon file is
/// the answer (at index 0), a shortcut is read next, and anything else is
/// refused.
pub fn visit(seen: &mut Vec<String>, canonical: String) -> (step: SourceStep)
    ensures
        old(seen)@.len() >= MAX_SOURCE_VISITS || visited(old(seen)@, canonical@) ==> step
            == SourceStep::Fail(SourceError::Cycle) && final(seen)@ == old(seen)@,
        !(old(seen)@.len() >= MAX_SOURCE_VISITS || visited(old(seen)@, canonical@)) ==> {
            &&& final(seen)@ == old(seen)@.push(canonical)
            &&& holds_icons(extension_spec(canonical@)) ==> (step matches SourceStep::Found(
                source,
            ) && source.path@ == canonical@ && source.index == 0)
            &&& is_shortcut(extension_spec(canonical@)) ==> step is ReadShortcut
            &&& !holds_icons(extension_spec(canonical@)) && !is_shortcut(
                extension_spec(canonical@),
            ) ==> step == SourceStep::Fail(SourceError::Unsupported)
        },
{
    if seen.len() >= MAX_SOURCE_VISITS || was_visited(seen, canonical.as_str()) {
        return SourceStep::Fail(SourceError::Cycle);
    }
    let ext = extension(canonical.as_str());
    let copy = String::from_str(canonical.as_str());
    seen.push(canonical);
    proof {
        reveal_strlit("ico");
        reveal_strlit("exe");
        reveal_strlit("dll");
        reveal_strlit("lnk");
        assert("ico"@ =~= seq!['i', 'c', 'o']);
        assert("exe"@ =~= seq!['e', 'x', 'e']);
        assert("dll"@ =~= seq!['d', 'l', 'l']);
        assert("lnk"@ =~= seq!['l', 'n', 'k']);
    }
    if same_text(ext.as_str(), "ico") || same_text(ext.as_str(), "exe") || same_text(
        ext.as_str(),
        "dll",
    ) {
        SourceStep::Found(IconSource { path: copy, index: 0 })
    } else if same_text(ext.as_str(), "lnk") {
        SourceStep::ReadShortcut
    } else {
        SourceStep::Fail(SourceError::Unsupported)
    }
}

/// The step after reading a shortcut in folder `parent`: its icon
/// location, when not blank, is resolved against the folder (a shortcut
/// there is followed, any other file is the icon file at `index`);
/// otherwise its target is followed, and a shortcut with no target fails.
pub fn after_shortcut(location: &str, index: i32, target: &str, parent: &str, env: &Vec<EnvVar>) -> (step: SourceStep)
    ensures
        !is_blank(location@) && is_shortcut(
            extension_spec(expand_path_spec(location@, parent@, env@)),
        ) ==> (step matches SourceStep::Follow(p) && p@ == expand_path_spec(location@, parent@, env@)),
        !is_blank(location@) && !is_shortcut(
            extension_spec(expand_path_spec(location@, parent@, env@)),
        ) ==> (step matches SourceStep::IconFile { path, index: i } && path@ == expand_path_spec(
            location@,
            parent@,
            env@,
        ) && i == index),
        is_blank(location@) && is_blank(target@) ==> step == SourceStep::Fail(SourceError::NoTarget),
        is_blank(location@) && !is_blank(target@) ==> (step matches SourceStep::Follow(p) && p@
            == expand_path_spec(target@, parent@, env@)),
{
    if !is_blank_str(location) {
        let icon_path = expand_path(location, parent, env);
        let ext = extension(icon_path.as_str());
        proof {
            reveal_strlit("lnk");
            assert("lnk"@ =~= seq!['l', 'n', 'k']);
        }
        if same_text(ext.as_str(), "lnk") {
            SourceStep::Follow(icon_path)
        } else {
            SourceStep::IconFile { path: icon_path, index }
        }
    } else if is_blank_str(target) {
        SourceStep::Fail(SourceError::NoTarget)
    } else {
        SourceStep::Follow(expand_path(target, parent, env))
    }
}

/// Whether a resolved icon file is an `.ico` file, of which a copy is
/// stored so that the icon survives the original's deletion.
pub fn needs_stored_copy(path: &str) -> (r: bool)
    ensures
        r == (extension_spec(path@) == seq!['i', 'c', 'o']),
{
    let ext = extension(path);
    proof {
        reveal_strlit("ico");
        assert("ico"@ =~= seq!['i', 'c', 'o']);
    }
    same_text(ext.as_str(), "ico")
}

} // verus!
