//! Command-line argument parsing.

use vstd::prelude::*;
use vstd::string::StringExecFns;
use crate::error::Error;
use crate::keymap::{layer_key_parse, parse_layer_key, valid_layer_key};
use crate::keys::{KeyCode, Platform};
use crate::text::{decimal, decimal_string, owned, str_equal};

verus! {

/// Name of the installed command, used in user-facing messages.
pub fn command_name() -> (r: &'static str)
    ensures
        r@ == "hjkl"@,
{
    "hjkl"
}

#[derive(Clone, Copy, Debug, PartialEq, Eq, Structural)]
pub enum Command {
    /// Run the remapper in the foreground; `service_mode` when the OS service
    /// manager owns the process.
    Run { service_mode: bool, layer_key: Option<KeyCode> },
    Start { layer_key: Option<KeyCode> },
    Stop,
    Restart { layer_key: Option<KeyCode> },
    Enable { layer_key: Option<KeyCode> },
    Disable,
    Status,
    Permissions,
    Help,
    Version,
}

pub open spec fn unknown_argument_message(arg: Seq<char>) -> Seq<char> {
    "Unknown argument: "@ + arg + "\n\nRun `hjkl --help` for usage."@
}

pub open spec fn missing_layer_key_message() -> Seq<char> {
    "Missing value for --layer-key.\n\nRun `hjkl --help` for usage."@
}

/// `--help`/`-h` anywhere among the arguments.
pub open spec fn asks_for_help(args: Seq<Seq<char>>) -> bool {
    exists|i: int| 0 <= i < args.len() && (args[i] == "-h"@ || args[i] == "--help"@)
}

/// `--version`/`-V` anywhere among the arguments.
pub open spec fn asks_for_version(args: Seq<Seq<char>>) -> bool {
    exists|i: int| 0 <= i < args.len() && (args[i] == "-V"@ || args[i] == "--version"@)
}

/// The flags that put `run` in service mode: `--launchd` (what the LaunchAgent
/// passes), `--service` (what the Windows background task passes) and the
/// legacy `--daemon`.
pub open spec fn is_service_flag(arg: Seq<char>) -> bool {
    arg == "--launchd"@ || arg == "--service"@ || arg == "--daemon"@
}

/// The options after a subcommand, from index `i` on: `--layer-key <key>` and,
/// where `service_flags` allows them, the service-mode flags. Yields the
/// service mode and the last layer key given.
pub open spec fn parse_options(
    platform: Platform,
    args: Seq<Seq<char>>,
    i: int,
    service_flags: bool,
    service_mode: bool,
    layer_key: Option<KeyCode>,
) -> Result<(bool, Option<KeyCode>), Seq<char>>
    decreases args.len() - i,
{
    if i < 0 || i >= args.len() {
        Ok((service_mode, layer_key))
    } else if service_flags && is_service_flag(args[i]) {
        parse_options(platform, args, i + 1, service_flags, true, layer_key)
    } else if args[i] == "--layer-key"@ {
        if i + 1 >= args.len() {
            Err(missing_layer_key_message())
        } else {
            match layer_key_parse(platform, args[i + 1]) {
                Ok(code) => parse_options(platform, args, i + 2, service_flags, service_mode, Some(code)),
                Err(message) => Err(message),
            }
        }
    } else {
        Err(unknown_argument_message(args[i]))
    }
}

/// What `hjkl <args>` asks for, or the message explaining why it is refused.
pub open spec fn parse_args_spec(platform: Platform, args: Seq<Seq<char>>) -> Result<Command, Seq<char>> {
    if asks_for_help(args) {
        Ok(Command::Help)
    } else if asks_for_version(args) {
        Ok(Command::Version)
    } else if args.len() == 0 {
        Ok(Command::Run { service_mode: false, layer_key: None })
    } else {
        let first = args[0];
        if first == "--daemon"@ || first == "--launchd"@ {
            // Legacy invocation kept for older LaunchAgent plists.
            if args.len() > 1 {
                Err(unknown_argument_message(args[1]))
            } else {
                Ok(Command::Run { service_mode: true, layer_key: None })
            }
        } else if first == "run"@ {
            match parse_options(platform, args, 1, true, false, None) {
                Ok((service_mode, layer_key)) => Ok(Command::Run { service_mode, layer_key }),
                Err(message) => Err(message),
            }
        } else if first == "start"@ || first == "restart"@ || first == "enable"@ {
            match parse_options(platform, args, 1, false, false, None) {
                Ok((_, layer_key)) => Ok(
                    if first == "start"@ {
                        Command::Start { layer_key }
                    } else if first == "restart"@ {
                        Command::Restart { layer_key }
                    } else {
                        Command::Enable { layer_key }
                    },
                ),
                Err(message) => Err(message),
            }
        } else if first == "stop"@ || first == "disable"@ || first == "status"@ || first
            == "permissions"@ {
            if args.len() > 1 {
                Err(unknown_argument_message(args[1]))
            } else {
                Ok(
                    if first == "stop"@ {
                        Command::Stop
                    } else if first == "disable"@ {
                        Command::Disable
                    } else if first == "status"@ {
                        Command::Status
                    } else {
                        Command::Permissions
                    },
                )
            }
        } else {
            Err(unknown_argument_message(first))
        }
    }
}

/// `--help` (or `-h`) anywhere wins over everything else, and otherwise
/// `--version` (or `-V`) anywhere does, whatever subcommand or unknown
/// arguments surround them.
pub proof fn law_help_and_version_win(platform: Platform, args: Seq<Seq<char>>, i: int)
    requires
        0 <= i < args.len(),
    ensures
        (args[i] == "-h"@ || args[i] == "--help"@) ==> parse_args_spec(platform, args) == Ok::<
            Command,
            Seq<char>,
        >(Command::Help),
        (args[i] == "-V"@ || args[i] == "--version"@) && !asks_for_help(args) ==> parse_args_spec(
            platform,
            args,
        ) == Ok::<Command, Seq<char>>(Command::Version),
{
}

/// The arguments a service manager starts the remapper with: `run`, the
/// service flag, and the layer key when one is configured.
pub open spec fn service_run_arguments(flag: Seq<char>, layer_key: Option<KeyCode>) -> Seq<Seq<char>> {
    let base = seq!["run"@, flag];
    match layer_key {
        Some(code) => base + seq!["--layer-key"@, decimal(code as nat)],
        None => base,
    }
}

pub fn service_run_args(flag: &str, layer_key: Option<KeyCode>) -> (r: Vec<String>)
    ensures
        r@.len() == service_run_arguments(flag@, layer_key).len(),
        forall|i: int| 0 <= i < r@.len() ==> #[trigger] r@[i]@ == service_run_arguments(flag@, layer_key)[i],
{
    let mut args: Vec<String> = Vec::new();
    args.push(owned("run"));
    args.push(owned(flag));
    if let Some(code) = layer_key {
        args.push(owned("--layer-key"));
        args.push(decimal_string(code as u64));
    }
    args
}

/// The process a service manager starts (`run --launchd` on macOS,
/// `run --service` on Windows, with the saved layer key) parses as a
/// service-mode run with that layer key.
pub proof fn law_service_run_arguments(platform: Platform, flag: Seq<char>, layer_key: Option<KeyCode>)
    requires
        flag == "--launchd"@ || flag == "--service"@,
        layer_key matches Some(code) ==> valid_layer_key(platform, code),
    ensures
        parse_args_spec(platform, service_run_arguments(flag, layer_key)) == Ok::<Command, Seq<char>>(
            Command::Run { service_mode: true, layer_key },
        ),
{
    reveal_strlit("run");
    reveal_strlit("--launchd");
    reveal_strlit("--service");
    reveal_strlit("--daemon");
    reveal_strlit("--layer-key");
    reveal_strlit("-h");
    reveal_strlit("--help");
    reveal_strlit("-V");
    reveal_strlit("--version");
    let args = service_run_arguments(flag, layer_key);
    if let Some(code) = layer_key {
        crate::text::lemma_decimal_shape(code as nat);
        crate::keymap::law_numeric_layer_key(platform, code);
        let d = decimal(code as nat);
        assert(d[0] != '-');
        assert(d != "-h"@ && d != "--help"@ && d != "-V"@ && d != "--version"@);
        assert(args[3] == d);
        assert(args[2] == "--layer-key"@);
    }
    assert(args[0] == "run"@);
    assert(args[1] == flag);
    assert("--layer-key"@.len() == 11);
    assert("--launchd"@.len() == 9 && "--service"@.len() == 9 && "--daemon"@.len() == 8);
    assert("--version"@.len() == 9 && "--help"@.len() == 6 && "-V"@.len() == 2 && "-h"@.len() == 2);
    assert("run"@.len() == 3);
    assert("--version"@[2] == 'v' && "--launchd"@[2] == 'l' && "--service"@[2] == 's');
    assert(flag != "--version"@);
    assert(!asks_for_help(args));
    assert(!asks_for_version(args));
    assert(!is_service_flag("--layer-key"@));
    assert("run"@ != "--daemon"@ && "run"@ != "--launchd"@);
    assert(is_service_flag(flag));
    match layer_key {
        Some(code) => {
            assert(args.len() == 4);
            assert(parse_options(platform, args, 4, true, true, Some(code)) == Ok::<
                (bool, Option<KeyCode>),
                Seq<char>,
            >((true, Some(code))));
            assert(parse_options(platform, args, 2, true, true, None) == parse_options(
                platform,
                args,
                4,
                true,
                true,
                Some(code),
            ));
        },
        None => {
            assert(args.len() == 2);
            assert(parse_options(platform, args, 2, true, true, None) == Ok::<
                (bool, Option<KeyCode>),
                Seq<char>,
            >((true, None)));
        },
    }
    assert(parse_options(platform, args, 1, true, false, None) == parse_options(
        platform,
        args,
        2,
        true,
        true,
        None,
    ));
}

/// The views of a list of strings.
pub open spec fn views(args: Seq<String>) -> Seq<Seq<char>> {
    args.map_values(|a: String| a@)
}

pub open spec fn error_view<T>(r: Result<T, Error>) -> Result<T, Seq<char>> {
    match r {
        Ok(v) => Ok(v),
        Err(e) => Err(e.spec_message()),
    }
}

pub fn unknown_argument(arg: &str) -> (e: Error)
    ensures
        e.spec_message() == unknown_argument_message(arg@),
{
    let mut message = owned("Unknown argument: ");
    message.append(arg);
    message.append("\n\nRun `hjkl --help` for usage.");
    Error::new(message)
}

/// Fails with "unknown argument" on the first argument from index `from` on.
pub fn ensure_no_extra_args(args: &Vec<String>, from: usize) -> (r: Result<(), Error>)
    requires
        from <= args@.len(),
    ensures
        r is Ok <==> args@.len() == from,
        r matches Err(e) ==> e.spec_message() == unknown_argument_message(args@[from as int]@),
{
    if from < args.len() {
        Err(unknown_argument(args[from].as_str()))
    } else {
        Ok(())
    }
}

fn any_arg_is(args: &Vec<String>, a: &str, b: &str) -> (r: bool)
    ensures
        r == exists|i: int| 0 <= i < args@.len() && (args@[i]@ == a@ || args@[i]@ == b@),
{
    let mut i: usize = 0;
    while i < args.len()
        invariant
            i <= args@.len(),
            forall|k: int| 0 <= k < i ==> !(args@[k]@ == a@ || args@[k]@ == b@),
        decreases args.len() - i,
    {
        if str_equal(args[i].as_str(), a) || str_equal(args[i].as_str(), b) {
            return true;
        }
        i = i + 1;
    }
    false
}

fn parse_options_exec(platform: Platform, args: &Vec<String>, service_flags: bool) -> (r: Result<
    (bool, Option<KeyCode>),
    Error,
>)
    requires
        args@.len() >= 1,
    ensures
        error_view(r) == parse_options(platform, views(args@), 1, service_flags, false, None),
{
    let ghost va = views(args@);
    let mut i: usize = 1;
    let mut service_mode = false;
    let mut layer_key: Option<KeyCode> = None;
    while i < args.len()
        invariant
            1 <= i,
            va == views(args@),
            va.len() == args@.len(),
            parse_options(platform, va, 1, service_flags, false, None) == parse_options(
                platform,
                va,
                i as int,
                service_flags,
                service_mode,
                layer_key,
            ),
        decreases args.len() - i,
    {
        let arg = args[i].as_str();
        assert(va[i as int] == arg@);
        if service_flags && (str_equal(arg, "--launchd") || str_equal(arg, "--service")
            || str_equal(arg, "--daemon")) {
            service_mode = true;
            i = i + 1;
        } else if str_equal(arg, "--layer-key") {
            if i + 1 >= args.len() {
                return Err(Error::new(owned("Missing value for --layer-key.\n\nRun `hjkl --help` for usage.")));
            }
            assert(va[i + 1] == args@[i + 1]@);
            match parse_layer_key(platform, args[i + 1].as_str()) {
                Ok(code) => {
                    layer_key = Some(code);
                    i = i + 2;
                },
                Err(message) => {
                    return Err(Error::new(message));
                },
            }
        } else {
            return Err(unknown_argument(arg));
        }
    }
    Ok((service_mode, layer_key))
}

/// Parses the arguments after the program name.
pub fn parse_args(platform: Platform, args: Vec<String>) -> (r: Result<Command, Error>)
    ensures
        error_view(r) == parse_args_spec(platform, views(args@)),
{
    let ghost va = views(args@);
    assert(va.len() == args@.len());
    assert(forall|i: int| 0 <= i < va.len() ==> va[i] == #[trigger] args@[i]@);
    // `--help`/`--version` win regardless of position or subcommand.
    if any_arg_is(&args, "-h", "--help") {
        return Ok(Command::Help);
    }
    if any_arg_is(&args, "-V", "--version") {
        return Ok(Command::Version);
    }
    if args.len() == 0 {
        return Ok(Command::Run { service_mode: false, layer_key: None });
    }
    let first = args[0].as_str();
    assert(va[0] == first@);
    if str_equal(first, "--daemon") || str_equal(first, "--launchd") {
        return match ensure_no_extra_args(&args, 1) {
            Ok(()) => Ok(Command::Run { service_mode: true, layer_key: None }),
            Err(e) => Err(e),
        };
    }
    if str_equal(first, "run") {
        return match parse_options_exec(platform, &args, true) {
            Ok((service_mode, layer_key)) => Ok(Command::Run { service_mode, layer_key }),
            Err(e) => Err(e),
        };
    }
    if str_equal(first, "start") || str_equal(first, "restart") || str_equal(first, "enable") {
        return match parse_options_exec(platform, &args, false) {
            Ok((_, layer_key)) => {
                if str_equal(first, "start") {
                    Ok(Command::Start { layer_key })
                } else if str_equal(first, "restart") {
                    Ok(Command::Restart { layer_key })
                } else {
                    Ok(Command::Enable { layer_key })
                }
            },
            Err(e) => Err(e),
        };
    }
    if str_equal(first, "stop") || str_equal(first, "disable") || str_equal(first, "status")
        || str_equal(first, "permissions") {
        return match ensure_no_extra_args(&args, 1) {
            Ok(()) => {
                if str_equal(first, "stop") {
                    Ok(Command::Stop)
                } else if str_equal(first, "disable") {
                    Ok(Command::Disable)
                } else if str_equal(first, "status") {
                    Ok(Command::Status)
                } else {
                    Ok(Command::Permissions)
                }
            },
            Err(e) => Err(e),
        };
    }
    Err(unknown_argument(first))
}

} // verus!
