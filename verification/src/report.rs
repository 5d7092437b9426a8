//! Pieces of the reports the management commands print: `status` lines and
//! the outcome of `start`, `enable` and `restart`.

use vstd::prelude::*;
use vstd::string::StringExecFns;
use crate::text::owned;

verus! {

/// `prefix` followed by `value`, as a new string.
pub fn labelled(prefix: &str, value: &str) -> (r: String)
    ensures
        r@ == prefix@ + value@,
{
    let mut r = owned(prefix);
    r.append(value);
    r
}

pub open spec fn yes_no(b: bool) -> Seq<char> {
    if b {
        "yes"@
    } else {
        "no"@
    }
}

pub fn yes_or_no(b: bool) -> (r: &'static str)
    ensures
        r@ == yes_no(b),
{
    if b {
        "yes"
    } else {
        "no"
    }
}

/// The "enabled" line's value: whether the process starts at login.
pub open spec fn auto_start_text(enabled: bool) -> Seq<char> {
    if enabled {
        "yes (auto-start at login)"@
    } else {
        "no"@
    }
}

pub fn auto_start_status(enabled: bool) -> (r: &'static str)
    ensures
        r@ == auto_start_text(enabled),
{
    if enabled {
        "yes (auto-start at login)"
    } else {
        "no"
    }
}

/// The "binary" line: the resolved path of the executable, or why it could
/// not be resolved.
pub open spec fn binary_text(binary: Result<Seq<char>, Seq<char>>) -> Seq<char> {
    match binary {
        Ok(path) => "binary:  "@ + path,
        Err(reason) => "binary:  <unknown> ("@ + reason + ")"@,
    }
}

pub fn binary_line(binary: Result<&str, &str>) -> (r: String)
    ensures
        r@ == binary_text(
            match binary {
                Ok(path) => Ok(path@),
                Err(reason) => Err(reason@),
            },
        ),
{
    match binary {
        Ok(path) => labelled("binary:  ", path),
        Err(reason) => {
            let mut r = labelled("binary:  <unknown> (", reason);
            r.append(")");
            r
        },
    }
}

/// The line that says whether a management command left key remapping
/// confirmed active.
pub open spec fn outcome_text(confirmed: bool, success: Seq<char>, failure: Seq<char>) -> Seq<char> {
    if confirmed {
        success
    } else {
        failure
    }
}

/// The reminder printed when the process was started without login
/// auto-start.
pub open spec fn no_auto_start_text() -> Seq<char> {
    "It will NOT auto-start at login. Run `hjkl enable` for that."@
}

} // verus!
