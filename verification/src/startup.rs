//! Starting with Windows: the command line registered under the `Run` key,
//! and how registered values are read back and recognised.
use crate::text::{ascii_lowercase, chars_of, find_from};
use vstd::prelude::*;
use vstd::string::StringExecFns;

verus! {

/// The command registered to start the launcher with Windows: the quoted
/// executable path followed by `--startup`.
pub open spec fn startup_command(executable: Seq<char>) -> Seq<char> {
    seq!['"'] + executable + "\" --startup"@
}

/// Exec `startup_command`.
pub fn expected_command(executable: &str) -> (r: String)
    ensures
        r@ == startup_command(executable@),
{
    let mut r = String::from_str("\"");
    r.append(executable);
    r.append("\" --startup");
    proof {
        reveal_strlit("\"");
    }
    r
}

/// Whether starting with Windows is on: the registered value (if any) is
/// exactly the command for this executable.
pub fn is_enabled(registered: Option<&str>, executable: &str) -> (r: bool)
    ensures
        r == (registered matches Some(v) && v@ == startup_command(executable@)),
{
    match registered {
        Some(value) => {
            let expected = expected_command(executable);
            crate::text::same_text(value, expected.as_str())
        },
        None => false,
    }
}

/// Whether a value under the old program name points to the old program
/// (it contains `quicklaunch.exe`, in any ASCII case), so it may be removed.
pub open spec fn legacy_entry(value: Seq<char>) -> bool {
    find_from(ascii_lowercase(value), "quicklaunch.exe"@, 0) is Some
}

/// Exec `legacy_entry`.
pub fn is_legacy_entry(value: &str) -> (r: bool)
    ensures
        r == legacy_entry(value@),
{
    let chars = chars_of(value);
    let lower = crate::text::ascii_lowercase_chars(chars.as_slice());
    let needle = chars_of("quicklaunch.exe");
    crate::text::find_chars(lower.as_slice(), needle.as_slice()).is_some()
}

} // verus!
