use caffeinate::quit::{ConfigError, QuitAction};

#[test]
fn parses_the_four_actions() {
    assert_eq!(QuitAction::parse("nothing"), Ok(QuitAction::Nothing));
    assert_eq!(QuitAction::parse("suspend"), Ok(QuitAction::Suspend));
    assert_eq!(QuitAction::parse("shutdown"), Ok(QuitAction::Shutdown));
    assert_eq!(QuitAction::parse("restart"), Ok(QuitAction::Restart));
}

#[test]
fn parse_is_case_sensitive() {
    for s in ["Nothing", "SUSPEND", "Shutdown", "reStart", "", "reboot", "suspend "] {
        assert_eq!(QuitAction::parse(s), Err(ConfigError::InvalidArgument(s.to_string())));
    }
}

#[test]
fn from_str_matches_parse() {
    assert_eq!("shutdown".parse::<QuitAction>(), Ok(QuitAction::Shutdown));
    assert!("Shutdown".parse::<QuitAction>().is_err());
}

#[test]
fn systemctl_verbs() {
    assert_eq!(QuitAction::Nothing.systemctl_verb(), None);
    assert_eq!(QuitAction::Suspend.systemctl_verb(), Some("suspend"));
    assert_eq!(QuitAction::Restart.systemctl_verb(), Some("reboot"));
    assert_eq!(QuitAction::Shutdown.systemctl_verb(), Some("poweroff"));
}

#[test]
fn from_str_rejects_case_variants_and_other_strings() {
    for s in ["Nothing", "SUSPEND", "Shutdown", "Restart", "NOTHING", "", "reboot", "poweroff", " suspend", "restart\n"] {
        assert_eq!(s.parse::<QuitAction>(), Err(ConfigError::InvalidArgument(s.to_string())));
    }
    assert_eq!("nothing".parse::<QuitAction>(), Ok(QuitAction::Nothing));
    assert_eq!("suspend".parse::<QuitAction>(), Ok(QuitAction::Suspend));
    assert_eq!("restart".parse::<QuitAction>(), Ok(QuitAction::Restart));
}
