//! The command model of `infra`: what each command carries once its arguments
//! have been read, and how a service command is read.
use crate::text::{chars_of, eq_seq, push_str};
use vstd::prelude::*;

verus! {

/// The command line: no command shows the project state.
#[derive(Debug)]
pub struct Cli {
    pub command: Option<Command>,
}

/// The commands of `infra`; any other first word names a service.
#[derive(Debug)]
pub enum Command {
    Conf(ConfArgs),
    Apply(PathArgs),
    Stop(PathArgs),
    Rm(RmArgs),
    Auth(AuthArgs),
    Agent(AgentArgs),
    Service(Vec<String>),
}

/// `infra conf [path] [-a|--apply]`.
#[derive(Debug)]
pub struct ConfArgs {
    pub path: Option<String>,
    pub apply: bool,
}

/// A command that takes an optional configuration path.
#[derive(Debug)]
pub struct PathArgs {
    pub path: Option<String>,
}

/// `infra rm [service] [-a|--all] [--path <path>]`.
#[derive(Debug)]
pub struct RmArgs {
    pub service: Option<String>,
    pub all: bool,
    pub path: Option<String>,
}

/// `infra auth <provider>`.
#[derive(Debug)]
pub struct AuthArgs {
    pub provider: AuthProvider,
}

/// The authorization providers.
#[derive(Debug)]
pub enum AuthProvider {
    Telegram(TelegramAuthArgs),
}

/// `infra auth telegram --endpoint <url> --source <id> [--no-open]`.
#[derive(Debug)]
pub struct TelegramAuthArgs {
    pub endpoint: String,
    pub source: String,
    pub no_open: bool,
}

/// `infra agent [--config <path>] [--once]`.
#[derive(Debug)]
pub struct AgentArgs {
    pub config: String,
    pub once: bool,
}

/// The options of the monitoring agent.
pub struct AgentOptions {
    pub config: String,
    pub once: bool,
}

/// What a service command does.
#[derive(Debug, Clone, Copy, PartialEq, Eq)]
pub enum ServiceAction {
    Logs,
    Restart,
    Stop,
}

/// `infra <service> [logs|restart|stop]`.
#[derive(Debug)]
pub struct ServiceArgs {
    pub name: String,
    pub action: Option<ServiceAction>,
}

/// Why a service command is rejected.
#[derive(Debug, Clone, PartialEq, Eq)]
pub enum ServiceArgsError {
    MissingName,
    UnknownAction { action: String },
    TooManyArguments,
}

/// The action a word names.
pub open spec fn action_named(w: Seq<char>) -> Option<ServiceAction> {
    if w == "logs"@ {
        Some(ServiceAction::Logs)
    } else if w == "restart"@ {
        Some(ServiceAction::Restart)
    } else if w == "stop"@ {
        Some(ServiceAction::Stop)
    } else {
        None
    }
}

/// The word that names an action on the command line.
pub open spec fn action_word(a: ServiceAction) -> Seq<char> {
    match a {
        ServiceAction::Logs => "logs"@,
        ServiceAction::Restart => "restart"@,
        ServiceAction::Stop => "stop"@,
    }
}

/// A word names an action exactly when it is that action's own word: `logs`
/// reads as `Logs`, `restart` as `Restart`, `stop` as `Stop`, and no other word
/// names an action.
pub proof fn law_action_words(w: Seq<char>, a: ServiceAction)
    ensures
        action_named(w) == Some(a) <==> w == action_word(a),
        action_named(w) is None <==> (w != "logs"@ && w != "restart"@ && w != "stop"@),
{
    reveal_strlit("logs");
    reveal_strlit("restart");
    reveal_strlit("stop");
    assert("logs"@ != "restart"@) by {
        assert("logs"@.len() != "restart"@.len());
    }
    assert("logs"@ != "stop"@) by {
        assert("logs"@[0] != "stop"@[0]);
    }
    assert("restart"@ != "stop"@) by {
        assert("restart"@.len() != "stop"@.len());
    }
}

impl ServiceArgs {
    /// Reads the words of a service command: a name, an optional action, nothing more.
    pub fn try_from(parts: Vec<String>) -> (r: Result<ServiceArgs, ServiceArgsError>)
        ensures
            parts@.len() == 0 <==> r == Err::<ServiceArgs, _>(ServiceArgsError::MissingName),
            parts@.len() >= 2 && action_named(parts@[1]@) is None ==> (r matches Err(
                ServiceArgsError::UnknownAction { action },
            ) && action@ == parts@[1]@),
            parts@.len() > 2 && action_named(parts@[1]@) is Some ==> r matches Err(
                ServiceArgsError::TooManyArguments,
            ),
            r matches Ok(a) ==> a.name@ == parts@[0]@ && (if parts@.len() == 1 {
                a.action is None
            } else {
                parts@.len() == 2 && a.action == action_named(parts@[1]@)
            }),
            r matches Ok(a) ==> (a.action matches Some(x) ==> parts@.len() == 2 && parts@[1]@
                == action_word(x)),
            (parts@.len() == 1 || (parts@.len() == 2 && action_named(parts@[1]@) is Some))
                ==> r is Ok,
    {
        if parts.len() == 0 {
            return Err(ServiceArgsError::MissingName);
        }
        let name = parts[0].clone();
        let action = if parts.len() >= 2 {
            let w = chars_of(parts[1].as_str());
            if eq_seq(&w, &chars_of("logs")) {
                Some(ServiceAction::Logs)
            } else if eq_seq(&w, &chars_of("restart")) {
                Some(ServiceAction::Restart)
            } else if eq_seq(&w, &chars_of("stop")) {
                Some(ServiceAction::Stop)
            } else {
                return Err(ServiceArgsError::UnknownAction { action: parts[1].clone() });
            }
        } else {
            None
        };
        if parts.len() > 2 {
            return Err(ServiceArgsError::TooManyArguments);
        }
        proof {
            if let Some(x) = action {
                law_action_words(parts@[1]@, x);
            }
        }
        Ok(ServiceArgs { name, action })
    }
}

/// What `infra rm` removes.
#[derive(Debug, Clone, PartialEq, Eq)]
pub enum RmTarget {
    /// The `.infra` file: infra is deinitialized, services keep running.
    Configuration,
    /// Every managed service; `.infra` stays.
    AllServices,
    /// One managed service; `.infra` stays.
    Service(String),
}

impl RmArgs {
    /// The target of the command: a named service, else every service with
    /// `--all`, else the configuration.
    pub fn target(&self) -> (r: RmTarget)
        ensures
            match self.service {
                Some(s) => r matches RmTarget::Service(t) && t@ == s@,
                None => r == (if self.all {
                    RmTarget::AllServices
                } else {
                    RmTarget::Configuration
                }),
            },
    {
        match &self.service {
            Some(s) => RmTarget::Service(s.clone()),
            None => if self.all {
                RmTarget::AllServices
            } else {
                RmTarget::Configuration
            },
        }
    }
}

/// The confirmation question of `infra rm`, without its `[y/n]` suffix.
pub open spec fn rm_question_text(target: RmTarget, path: Seq<char>, project: Seq<char>) -> Seq<char> {
    match target {
        RmTarget::Configuration => "deinitialize infra at "@ + path + "?"@,
        RmTarget::AllServices => "remove all services from project "@ + project + "?"@,
        RmTarget::Service(s) => "remove service "@ + s@ + "?"@,
    }
}

/// Asks before `infra rm` removes anything.
pub fn rm_question(target: &RmTarget, path: &str, project: &str) -> (r: String)
    ensures
        r@ == rm_question_text(*target, path@, project@),
{
    match target {
        RmTarget::Configuration => {
            let mut q = "deinitialize infra at ".to_owned();
            push_str(&mut q, path);
            push_str(&mut q, "?");
            q
        },
        RmTarget::AllServices => {
            let mut q = "remove all services from project ".to_owned();
            push_str(&mut q, project);
            push_str(&mut q, "?");
            q
        },
        RmTarget::Service(s) => {
            let mut q = "remove service ".to_owned();
            push_str(&mut q, s.as_str());
            push_str(&mut q, "?");
            q
        },
    }
}

} // verus!
