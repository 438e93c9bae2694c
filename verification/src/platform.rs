//! Platform-dependent resolution, reduced to plain values: the caller
//! reads the environment and hands the result in; deciding what to make
//! of it happens here.

use vstd::prelude::*;
use crate::textfmt::{lower_of, lowercase, str_ends_with};

verus! {

/// The home directory: the value of the platform's home variable when it
/// is set, the current directory otherwise.
pub fn home_fallback(var: Option<String>) -> (r: String)
    ensures
        var matches Some(s) ==> r@ == s@,
        var is None ==> r@ == "."@,
{
    match var {
        Some(s) => s,
        None => ".".to_owned(),
    }
}

/// The user's name: the value of the platform's user variable when it is
/// set, `user` otherwise.
pub fn username_fallback(var: Option<String>) -> (r: String)
    ensures
        var matches Some(s) ==> r@ == s@,
        var is None ==> r@ == "user"@,
{
    match var {
        Some(s) => s,
        None => "user".to_owned(),
    }
}

/// Some execute permission bit (owner, group or other) is set.
pub open spec fn any_exec_bit(mode: u32) -> bool {
    (mode & 0o100) != 0 || (mode & 0o010) != 0 || (mode & 0o001) != 0
}

/// Whether a file whose permission bits are `mode` is executable, as
/// Unix-family systems see it.
pub fn is_executable_mode(mode: u32) -> (r: bool)
    ensures
        r == any_exec_bit(mode),
{
    let r = mode & 0o111 != 0;
    proof {
        assert((mode & 0o111 != 0) == ((mode & 0o100) != 0 || (mode & 0o010) != 0 || (mode & 0o001)
            != 0)) by (bit_vector);
    }
    r
}

/// The name, lowercased, ends in an extension that Windows-family systems
/// run directly.
pub open spec fn has_exec_extension(lower: Seq<char>) -> bool {
    ||| ".exe"@.is_suffix_of(lower)
    ||| ".bat"@.is_suffix_of(lower)
    ||| ".cmd"@.is_suffix_of(lower)
    ||| ".ps1"@.is_suffix_of(lower)
    ||| ".com"@.is_suffix_of(lower)
}

/// Whether an already-lowercased name carries an executable extension.
pub fn exec_extension_check(lower: &str) -> (r: bool)
    ensures
        r == has_exec_extension(lower@),
{
    str_ends_with(lower, ".exe") || str_ends_with(lower, ".bat") || str_ends_with(lower, ".cmd")
        || str_ends_with(lower, ".ps1") || str_ends_with(lower, ".com")
}

/// Whether a file named `name` is executable, as Windows-family systems
/// see it: its lowercased name ends in a runnable extension.
pub fn is_executable_name(name: &str) -> (r: bool)
    ensures
        r == has_exec_extension(lower_of(name@)),
{
    let lower = lowercase(name);
    exec_extension_check(lower.as_str())
}

} // verus!
