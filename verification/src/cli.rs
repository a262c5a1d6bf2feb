//! The choices that the command line offers.

use vstd::prelude::*;
use vstd::string::*;
use crate::text::str_eq;

verus! {

/// How the daemon routes traffic.
#[derive(Copy, Clone, PartialEq, Eq, PartialOrd, Ord, Debug, Structural)]
pub enum PolicyMode {
    Global,
    Rule,
    Direct,
}

/// How traffic reaches the daemon.
#[derive(Copy, Clone, PartialEq, Eq, PartialOrd, Ord, Debug, Structural)]
pub enum InboundMode {
    /// Through a virtual interface that takes over all traffic.
    Tun,
    /// Through the HTTP and SOCKS proxy ports.
    Http,
}

/// What to do with the daemon's service.
#[derive(Copy, Clone, PartialEq, Eq, Debug, Structural)]
pub enum ProxyAction {
    Start,
    Stop,
    Restart,
    Status,
}

impl PolicyMode {
    /// The mode as the daemon's API spells it.
    pub open spec fn name_of(self) -> Seq<char> {
        match self {
            PolicyMode::Global => "Global"@,
            PolicyMode::Rule => "Rule"@,
            PolicyMode::Direct => "Direct"@,
        }
    }

    /// The mode as the daemon's API spells it.
    pub fn name(&self) -> (name: &'static str)
        ensures
            name@ == self.name_of(),
    {
        match self {
            PolicyMode::Global => "Global",
            PolicyMode::Rule => "Rule",
            PolicyMode::Direct => "Direct",
        }
    }

    /// The mode's name as an owned string.
    pub fn to_string(&self) -> (name: String)
        ensures
            name@ == self.name_of(),
    {
        String::from_str(self.name())
    }
}

impl ProxyAction {
    /// The word that the service manager knows the action by.
    pub open spec fn verb_of(self) -> Seq<char> {
        match self {
            ProxyAction::Start => "start"@,
            ProxyAction::Stop => "stop"@,
            ProxyAction::Restart => "restart"@,
            ProxyAction::Status => "status"@,
        }
    }

    /// The word that the service manager knows the action by.
    pub fn verb(&self) -> (verb: &'static str)
        ensures
            verb@ == self.verb_of(),
    {
        match self {
            ProxyAction::Start => "start",
            ProxyAction::Stop => "stop",
            ProxyAction::Restart => "restart",
            ProxyAction::Status => "status",
        }
    }

    /// Whether the action changes the service's state. Asking for its status
    /// does not.
    pub fn controls_service(&self) -> (controls: bool)
        ensures
            controls == (*self != ProxyAction::Status),
    {
        match self {
            ProxyAction::Status => false,
            _ => true,
        }
    }
}

/// What a service action is called in messages: starting, stopping and
/// restarting have a word of their own, any other verb stands for itself.
pub open spec fn action_label_of(verb: Seq<char>) -> Seq<char> {
    if verb == "start"@ {
        "启动"@
    } else if verb == "stop"@ {
        "停止"@
    } else if verb == "restart"@ {
        "重启"@
    } else {
        verb
    }
}

/// What a service action is called in messages.
pub fn action_label<'a>(verb: &'a str) -> (label: &'a str)
    ensures
        label@ == action_label_of(verb@),
{
    if str_eq(verb, "start") {
        "启动"
    } else if str_eq(verb, "stop") {
        "停止"
    } else if str_eq(verb, "restart") {
        "重启"
    } else {
        verb
    }
}

} // verus!
