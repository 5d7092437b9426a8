//! External commands: command lines and how their failures are reported.

use vstd::prelude::*;
use vstd::string::StringExecFns;
use crate::error::Error;
use crate::text::{owned, signed_decimal, signed_decimal_string};

verus! {

/// Words joined by single spaces.
pub open spec fn joined(parts: Seq<Seq<char>>) -> Seq<char>
    decreases parts.len(),
{
    if parts.len() == 0 {
        Seq::empty()
    } else if parts.len() == 1 {
        parts[0]
    } else {
        joined(parts.drop_last()) + " "@ + parts.last()
    }
}

pub fn join_with_spaces(parts: &Vec<String>) -> (r: String)
    ensures
        r@ == joined(parts@.map_values(|p: String| p@)),
{
    let ghost views = parts@.map_values(|p: String| p@);
    let mut r = String::new();
    let mut i: usize = 0;
    while i < parts.len()
        invariant
            i <= parts@.len(),
            views == parts@.map_values(|p: String| p@),
            r@ == joined(views.subrange(0, i as int)),
        decreases parts.len() - i,
    {
        if i > 0 {
            r.append(" ");
        }
        r.append(parts[i].as_str());
        assert(views.subrange(0, i + 1).drop_last() == views.subrange(0, i as int));
        i = i + 1;
    }
    assert(views.subrange(0, parts@.len() as int) == views);
    r
}

/// How a failed external command is reported: the command line and its exit
/// status.
pub open spec fn command_failure_text(command_line: Seq<char>, exit_code: Option<i32>) -> Seq<char> {
    "`"@ + command_line + "` failed ("@ + match exit_code {
        Some(code) => "exit code "@ + signed_decimal(code as int),
        None => "terminated by signal"@,
    } + ")"@
}

pub fn command_failure(command_line: &str, exit_code: Option<i32>) -> (e: Error)
    ensures
        e.spec_message() == command_failure_text(command_line@, exit_code),
{
    let mut message = owned("`");
    message.append(command_line);
    message.append("` failed (");
    match exit_code {
        Some(code) => {
            message.append("exit code ");
            message.append(signed_decimal_string(code as i64).as_str());
        },
        None => {
            message.append("terminated by signal");
        },
    }
    message.append(")");
    Error::new(message)
}

} // verus!
