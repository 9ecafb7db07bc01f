use ccm_reborn::cli::{parse_command, parse_options, required, CliCommand, HELP};

fn args(items: &[&str]) -> Vec<String> {
    items.iter().map(|item| item.to_string()).collect()
}

#[test]
fn help_mentions_read_only_commands() {
    assert!(HELP.contains("plan"));
    assert!(HELP.contains("install"));
    assert!(HELP.contains("installed"));
    assert!(HELP.contains("summary"));
    assert!(HELP.contains("roundtrip-check"));
    assert!(HELP.contains("never searches for one"));
}

#[test]
fn install_refuses_without_the_explicit_confirmation_token() {
    let error = match parse_command(&args(&["install", "--confirm", "no"])) {
        Err(error) => error,
        Ok(_) => panic!("install without APPLY was accepted"),
    };
    assert!(error.contains("--confirm APPLY"));
}

#[test]
fn options_are_name_value_pairs_given_once() {
    let options = parse_options(&args(&["--root", "/x", "--output", "o.json"])).unwrap();
    assert_eq!(options.get("root"), Some("/x".into()));
    assert_eq!(options.get("missing"), None);
    assert_eq!(
        parse_options(&args(&["root"])).err().unwrap(),
        "unexpected argument \"root\"; options use --name value"
    );
    assert_eq!(parse_options(&args(&["--", "x"])).err().unwrap(), "empty option name");
    assert_eq!(parse_options(&args(&["--root"])).err().unwrap(), "missing value for --root");
    assert_eq!(parse_options(&args(&["--root", "-x"])).err().unwrap(), "missing value for --root");
    assert_eq!(
        parse_options(&args(&["--root", "a", "--root", "b"])).err().unwrap(),
        "option --root was provided more than once"
    );
    let blank = parse_options(&args(&["--title", "  "])).unwrap();
    assert_eq!(required(&blank, "title").unwrap_err(), "missing required --title; run `ccm --help`");
}

#[test]
fn commands_carry_their_required_options() {
    assert!(matches!(parse_command(&args(&[])), Ok(CliCommand::Help)));
    assert!(matches!(parse_command(&args(&["plan", "-h"])), Ok(CliCommand::Help)));
    assert!(matches!(parse_command(&args(&["help"])), Ok(CliCommand::Help)));
    match parse_command(&args(&["installed", "--game-dir", "/g", "--target", "Maps/Campaign"])) {
        Ok(CliCommand::Installed { game_dir, target, output }) => {
            assert_eq!(game_dir, "/g");
            assert_eq!(target, "Maps/Campaign");
            assert_eq!(output, None);
        }
        _ => panic!("installed was not parsed"),
    }
    assert_eq!(
        parse_command(&args(&["plan", "--title", "T"])).err().unwrap(),
        "missing required --campaign-id; run `ccm --help`"
    );
    assert_eq!(
        parse_command(&args(&["restore", "--confirm", "yes"])).err().unwrap(),
        "Refusing restore: pass --confirm RESTORE after reviewing the active install."
    );
    assert_eq!(parse_command(&args(&["bogus"])).err().unwrap(), "unknown command \"bogus\"; run `ccm --help`");
    match parse_command(&args(&["profile-key", "--family", "nightmare", "--major", "2", "--campaign-id", "n2"])) {
        Ok(CliCommand::ProfileKey { identity, .. }) => assert_eq!(identity.profile_key, "nightmare@2"),
        _ => panic!("profile-key was not parsed"),
    }
    assert_eq!(
        parse_command(&args(&["profile-key", "--family", "f", "--major", "x2", "--campaign-id", "c"])).err().unwrap(),
        "--major must be a positive integer"
    );
    assert_eq!(
        parse_command(&args(&["profile-key", "--family", "f", "--major", "0", "--campaign-id", "c"])).err().unwrap(),
        "majorVersion must be greater than zero."
    );
}
