use hjkl::cli::{parse_args, Command};
use hjkl::keys::Platform;

const P: Platform = Platform::Other;

fn args(items: &[&str]) -> Vec<String> {
    items.iter().map(|s| s.to_string()).collect()
}

#[test]
fn parses_cli_modes() {
    assert_eq!(
        parse_args(P, Vec::<String>::new()).unwrap(),
        Command::Run { service_mode: false, layer_key: None }
    );
    assert_eq!(
        parse_args(P, vec!["--daemon".to_string()]).unwrap(),
        Command::Run { service_mode: true, layer_key: None }
    );
    assert_eq!(
        parse_args(P, vec!["--launchd".to_string()]).unwrap(),
        Command::Run { service_mode: true, layer_key: None }
    );
    assert_eq!(
        parse_args(P, vec!["run".to_string()]).unwrap(),
        Command::Run { service_mode: false, layer_key: None }
    );
    assert_eq!(
        parse_args(P, vec!["run".to_string(), "--launchd".to_string()]).unwrap(),
        Command::Run { service_mode: true, layer_key: None }
    );
    assert_eq!(
        parse_args(P, vec!["run".to_string(), "--daemon".to_string()]).unwrap(),
        Command::Run { service_mode: true, layer_key: None }
    );
    assert_eq!(parse_args(P, vec!["start".to_string()]).unwrap(), Command::Start { layer_key: None });
    assert_eq!(parse_args(P, vec!["stop".to_string()]).unwrap(), Command::Stop);
    assert_eq!(
        parse_args(P, vec!["restart".to_string()]).unwrap(),
        Command::Restart { layer_key: None }
    );
    assert_eq!(parse_args(P, vec!["enable".to_string()]).unwrap(), Command::Enable { layer_key: None });
    assert_eq!(parse_args(P, vec!["disable".to_string()]).unwrap(), Command::Disable);
    assert_eq!(parse_args(P, vec!["status".to_string()]).unwrap(), Command::Status);
    assert_eq!(parse_args(P, vec!["permissions".to_string()]).unwrap(), Command::Permissions);
    assert_eq!(parse_args(P, vec!["--help".to_string()]).unwrap(), Command::Help);
    assert_eq!(parse_args(P, vec!["--version".to_string()]).unwrap(), Command::Version);
    assert!(parse_args(P, vec!["--wat".to_string()]).is_err());
    assert!(parse_args(P, vec!["start".to_string(), "extra".to_string()]).is_err());
    assert!(parse_args(P, vec!["run".to_string(), "--nope".to_string()]).is_err());
}

#[test]
fn layer_key_option_is_accepted_where_documented() {
    assert_eq!(
        parse_args(P, args(&["run", "--layer-key", "quote"])).unwrap(),
        Command::Run { service_mode: false, layer_key: Some(0xDE) }
    );
    assert_eq!(
        parse_args(P, args(&["start", "--layer-key", "grave"])).unwrap(),
        Command::Start { layer_key: Some(0xC0) }
    );
    assert_eq!(
        parse_args(P, args(&["restart", "--layer-key", "186"])).unwrap(),
        Command::Restart { layer_key: Some(186) }
    );
    assert_eq!(
        parse_args(Platform::MacOs, args(&["enable", "--layer-key", "right_command"])).unwrap(),
        Command::Enable { layer_key: Some(54) }
    );
    assert_eq!(
        parse_args(P, args(&["run", "--service", "--layer-key", "222"])).unwrap(),
        Command::Run { service_mode: true, layer_key: Some(222) }
    );
    assert!(parse_args(P, args(&["stop", "--layer-key", "quote"])).is_err());
    assert!(parse_args(P, args(&["start", "--service"])).is_err());
}

#[test]
fn cli_errors_carry_their_messages() {
    assert_eq!(
        parse_args(P, args(&["--wat"])).unwrap_err().message(),
        "Unknown argument: --wat\n\nRun `hjkl --help` for usage."
    );
    assert_eq!(
        parse_args(P, args(&["status", "now"])).unwrap_err().message(),
        "Unknown argument: now\n\nRun `hjkl --help` for usage."
    );
    assert_eq!(
        parse_args(P, args(&["run", "--layer-key"])).unwrap_err().message(),
        "Missing value for --layer-key.\n\nRun `hjkl --help` for usage."
    );
    assert_eq!(
        parse_args(P, args(&["run", "--layer-key", "h"])).unwrap_err().message(),
        "unknown layer key 'h'. Use a name like 'semicolon', 'quote', or 'right_command', or a numeric virtual key code."
    );
    assert_eq!(
        parse_args(P, args(&["run", "--layer-key", "72"])).unwrap_err().message(),
        "key code 72 is one of h/j/k/l, which the layer maps to arrow keys and so cannot also be the layer key."
    );
}

#[test]
fn help_and_version_win_anywhere() {
    assert_eq!(parse_args(P, args(&["start", "-h"])).unwrap(), Command::Help);
    assert_eq!(parse_args(P, args(&["--wat", "-V"])).unwrap(), Command::Version);
    assert_eq!(parse_args(P, args(&["-V", "--help"])).unwrap(), Command::Help);
}
