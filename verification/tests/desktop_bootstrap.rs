use herdr_core::platform::desktop_bootstrap::{
    desktop_server_args, locate_bootstrap_arg, parse_remote_desktop_command, remove_bootstrap_arg, BootstrapArg,
    RemoteDesktopCommand,
};

fn args(items: &[&str]) -> Vec<String> {
    items.iter().map(|item| item.to_string()).collect()
}

#[test]
fn bootstrap_pair_is_removed_before_dispatch() {
    let given = args(&["herdr", "--desktop-bootstrap", "e30", "--session", "agents", "server"]);
    assert_eq!(locate_bootstrap_arg(&given), BootstrapArg::At(1));
    assert_eq!(remove_bootstrap_arg(&given, 1).unwrap(), args(&["herdr", "--session", "agents", "server"]));
}

#[test]
fn bootstrap_after_double_dash_is_an_ordinary_argument() {
    let given = args(&["herdr", "run", "--", "--desktop-bootstrap", "x"]);
    assert_eq!(locate_bootstrap_arg(&given), BootstrapArg::Absent);
    let program_only = args(&["--desktop-bootstrap"]);
    assert_eq!(locate_bootstrap_arg(&program_only), BootstrapArg::Absent);
    assert_eq!(locate_bootstrap_arg(&Vec::new()), BootstrapArg::Absent);
}

#[test]
fn bootstrap_without_value_or_given_twice_is_refused() {
    assert_eq!(locate_bootstrap_arg(&args(&["herdr", "--desktop-bootstrap"])), BootstrapArg::MissingValue);
    let twice = args(&["herdr", "--desktop-bootstrap", "a", "server", "--desktop-bootstrap", "b"]);
    assert_eq!(locate_bootstrap_arg(&twice), BootstrapArg::At(1));
    assert_eq!(
        remove_bootstrap_arg(&twice, 1),
        Err("--desktop-bootstrap can only be specified once".to_string())
    );
    let after_dashes = args(&["herdr", "--desktop-bootstrap", "a", "--", "--desktop-bootstrap"]);
    assert_eq!(remove_bootstrap_arg(&after_dashes, 1).unwrap(), args(&["herdr", "--", "--desktop-bootstrap"]));
}

#[test]
fn desktop_server_arguments_carry_bootstrap_and_session() {
    assert_eq!(
        desktop_server_args("abc", Some("agents".to_string())),
        args(&["--desktop-bootstrap", "abc", "--session", "agents", "server"])
    );
    assert_eq!(desktop_server_args("abc", None), args(&["--desktop-bootstrap", "abc", "server"]));
}

#[test]
fn remote_desktop_subcommand_is_parsed() {
    assert_eq!(parse_remote_desktop_command(&args(&["inspect"])), Ok(RemoteDesktopCommand::Inspect));
    assert_eq!(
        parse_remote_desktop_command(&args(&["start", "--windows-session", "2"])),
        Ok(RemoteDesktopCommand::Start(2))
    );
    assert_eq!(
        parse_remote_desktop_command(&args(&["start", "--windows-session", "-2"])),
        Err("--windows-session must be an unsigned integer".to_string())
    );
    assert_eq!(
        parse_remote_desktop_command(&args(&["start"])),
        Err("usage: herdr remote-desktop <inspect|start --windows-session <id>>".to_string())
    );
}
