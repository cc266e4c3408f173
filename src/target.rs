//! Choice of a backend from an optional command-line argument.
use vstd::prelude::*;

verus! {

/// The backend that an argument selects.
#[derive(Debug, PartialEq, Eq, Clone, Copy)]
pub enum Target<'a> {
    /// The process's standard stream(s).
    Standard,
    /// The file at the given path.
    File(&'a str),
}

/// The argument that stands for the standard stream: a single dash.
pub open spec fn is_dash(s: Seq<char>) -> bool {
    s.len() == 1 && s[0] == '-'
}

/// What an argument selects: nothing or a dash give the standard stream,
/// any other string names the file at that path.
pub open spec fn target_of<'a>(arg: Option<&'a str>) -> Target<'a> {
    match arg {
        None => Target::Standard,
        Some(s) => if is_dash(s@) {
            Target::Standard
        } else {
            Target::File(s)
        },
    }
}

/// Returns true when `s` is exactly the one-character string `"-"`.
pub fn is_dash_arg(s: &str) -> (r: bool)
    ensures
        r == is_dash(s@),
{
    s.unicode_len() == 1 && s.get_char(0) == '-'
}

/// Selects the backend for an optional argument: absent or `"-"` gives the
/// standard stream, any other string is taken as a file path.
pub fn select<'a>(arg: Option<&'a str>) -> (r: Target<'a>)
    ensures
        r == target_of(arg),
{
    match arg {
        None => Target::Standard,
        Some(s) => {
            if is_dash_arg(s) {
                Target::Standard
            } else {
                Target::File(s)
            }
        },
    }
}

} // verus!
