//! What the daemon does with a command from the CLI client.
//!
//! The client sends one JSON command per connection; the daemon forwards
//! page commands to the page observer and answers with its report, or
//! answers at once.

use vstd::prelude::*;

use crate::page::ActuatorCommand;
use crate::text::{owned, push_text, same_text};

verus! {

broadcast use vstd::string::group_string_axioms;

/// JSON command sent by the CLI client to the daemon.
pub struct DaemonCommand {
    pub action: String,
    pub url: Option<String>,
    pub selector: Option<String>,
    pub text: Option<String>,
    pub duration: Option<u64>,
    pub filter: Option<String>,
}

/// How the daemon answers a command.
pub enum DaemonStep {
    /// Forward the command to the page and answer with its report.
    Forward(ActuatorCommand),
    /// Forward the command to the page and answer with this message.
    ForwardAndReply(ActuatorCommand, String),
    /// Answer with this message.
    Reply(String),
    /// Answer with this error.
    Refuse(String),
    /// Answer with this message, then stop the daemon.
    Shutdown(String),
}

/// The step for a command, or the error that ends the connection without
/// an answer (a command missing a field it needs).
pub open spec fn decided(cmd: DaemonCommand, r: Result<DaemonStep, String>) -> bool {
    let a = cmd.action@;
    if a == "navigate"@ {
        match cmd.url {
            Some(u) => r == Ok::<DaemonStep, String>(DaemonStep::Forward(ActuatorCommand::Navigate { url: u })),
            None => r matches Err(e) && e@ == "Missing 'url'"@,
        }
    } else if a == "click"@ {
        match cmd.selector {
            Some(s) => r == Ok::<DaemonStep, String>(DaemonStep::Forward(ActuatorCommand::Click { selector: s })),
            None => r matches Err(e) && e@ == "Missing 'selector'"@,
        }
    } else if a == "type"@ {
        match (cmd.selector, cmd.text) {
            (Some(s), Some(t)) => r == Ok::<DaemonStep, String>(
                DaemonStep::Forward(ActuatorCommand::Type { selector: s, text: t }),
            ),
            (None, _) => r matches Err(e) && e@ == "Missing 'selector'"@,
            (Some(_), None) => r matches Err(e) && e@ == "Missing 'text'"@,
        }
    } else if a == "snapshot"@ {
        r matches Ok(DaemonStep::ForwardAndReply(c, m)) && c is Snapshot && m@ == "Snapshot printed to daemon stdout"@
    } else if a == "ping"@ {
        r matches Ok(DaemonStep::Reply(m)) && m@ == "pong"@
    } else if a == "shutdown"@ {
        r matches Ok(DaemonStep::Shutdown(m)) && m@ == "Shutting down"@
    } else {
        r matches Ok(DaemonStep::Refuse(m)) && m@ == "Unknown action: "@ + a
    }
}

/// Decide how to answer a client command.
pub fn decide_command(cmd: DaemonCommand) -> (r: Result<DaemonStep, String>)
    ensures
        decided(cmd, r),
{
    let a = cmd.action.as_str();
    if same_text(a, "navigate") {
        match cmd.url {
            Some(url) => Ok(DaemonStep::Forward(ActuatorCommand::Navigate { url })),
            None => Err(owned("Missing 'url'")),
        }
    } else if same_text(a, "click") {
        match cmd.selector {
            Some(selector) => Ok(DaemonStep::Forward(ActuatorCommand::Click { selector })),
            None => Err(owned("Missing 'selector'")),
        }
    } else if same_text(a, "type") {
        match cmd.selector {
            Some(selector) => match cmd.text {
                Some(text) => Ok(DaemonStep::Forward(ActuatorCommand::Type { selector, text })),
                None => Err(owned("Missing 'text'")),
            },
            None => Err(owned("Missing 'selector'")),
        }
    } else if same_text(a, "snapshot") {
        Ok(DaemonStep::ForwardAndReply(ActuatorCommand::Snapshot, owned("Snapshot printed to daemon stdout")))
    } else if same_text(a, "ping") {
        Ok(DaemonStep::Reply(owned("pong")))
    } else if same_text(a, "shutdown") {
        Ok(DaemonStep::Shutdown(owned("Shutting down")))
    } else {
        let mut m = String::new();
        push_text(&mut m, "Unknown action: ");
        push_text(&mut m, a);
        proof {
            assert(m@ =~= "Unknown action: "@ + cmd.action@);
        }
        Ok(DaemonStep::Refuse(m))
    }
}

} // verus!
