//! What to do with the machine once a session has ended.
use vstd::prelude::*;

verus! {

/// The system operation requested after the daemon has been re-armed.
#[derive(Clone, Copy, Debug, PartialEq, Eq, Structural)]
pub enum QuitAction {
    Nothing,
    Suspend,
    Shutdown,
    Restart,
}

/// A configuration value that was not understood.
#[derive(Debug, PartialEq, Eq)]
pub enum ConfigError {
    /// The value, as it was given.
    InvalidArgument(String),
}

/// The quit action that a configuration string names: one of `nothing`,
/// `suspend`, `shutdown` and `restart`, matched case-sensitively.
pub open spec fn spec_parse_quit(s: Seq<char>) -> Option<QuitAction> {
    if s == "nothing"@ {
        Some(QuitAction::Nothing)
    } else if s == "suspend"@ {
        Some(QuitAction::Suspend)
    } else if s == "shutdown"@ {
        Some(QuitAction::Shutdown)
    } else if s == "restart"@ {
        Some(QuitAction::Restart)
    } else {
        None
    }
}

impl QuitAction {
    /// Parses a configuration string; any other string, a change of case
    /// included, is an invalid argument that carries the string.
    pub fn parse(s: &str) -> (r: Result<QuitAction, ConfigError>)
        ensures
            spec_parse_quit(s@) matches Some(q) ==> r == Ok::<QuitAction, ConfigError>(q),
            spec_parse_quit(s@) is None ==> (r matches Err(ConfigError::InvalidArgument(t))
                && t@ == s@),
    {
        let given = s.to_owned();
        if given == "nothing".to_owned() {
            Ok(QuitAction::Nothing)
        } else if given == "suspend".to_owned() {
            Ok(QuitAction::Suspend)
        } else if given == "shutdown".to_owned() {
            Ok(QuitAction::Shutdown)
        } else if given == "restart".to_owned() {
            Ok(QuitAction::Restart)
        } else {
            Err(ConfigError::InvalidArgument(given))
        }
    }

    pub open spec fn spec_systemctl_verb(self) -> Option<Seq<char>> {
        match self {
            QuitAction::Nothing => None,
            QuitAction::Suspend => Some("suspend"@),
            QuitAction::Restart => Some("reboot"@),
            QuitAction::Shutdown => Some("poweroff"@),
        }
    }

    /// The service manager's verb for this action, or `None` where nothing is
    /// to be run.
    pub fn systemctl_verb(self) -> (r: Option<&'static str>)
        ensures
            r matches Some(v) ==> self.spec_systemctl_verb() == Some(v@),
            r is None <==> self.spec_systemctl_verb() is None,
    {
        match self {
            QuitAction::Nothing => None,
            QuitAction::Suspend => Some("suspend"),
            QuitAction::Restart => Some("reboot"),
            QuitAction::Shutdown => Some("poweroff"),
        }
    }
}

impl core::str::FromStr for QuitAction {
    type Err = ConfigError;

    /// The same as `QuitAction::parse`.
    fn from_str(s: &str) -> (r: Result<Self, Self::Err>)
        ensures
            spec_parse_quit(s@) matches Some(q) ==> r == Ok::<QuitAction, ConfigError>(q),
            spec_parse_quit(s@) is None ==> (r matches Err(ConfigError::InvalidArgument(t))
                && t@ == s@),
    {
        QuitAction::parse(s)
    }
}

} // verus!
