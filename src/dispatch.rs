//! Routing of inbound envelopes: what each one asks of the session.
use vstd::prelude::*;
use crate::envelope::{arg_views, opt_view, Arg, ArgModel, EnvelopeModel, SignalRMessage, INVOCATION, PING};

verus! {

/// The known inbound invocation targets.
#[derive(Debug, Clone, PartialEq, Eq)]
pub enum HubTarget {
    SendSignal,
    NewUserArrived,
    UserLeft,
    Unknown,
}

pub open spec fn target_of(t: Seq<char>) -> HubTarget {
    if t == "SendSignal"@ {
        HubTarget::SendSignal
    } else if t == "NewUserArrived"@ {
        HubTarget::NewUserArrived
    } else if t == "UserLeft"@ {
        HubTarget::UserLeft
    } else {
        HubTarget::Unknown
    }
}

/// Classifies an inbound invocation target; unknown ones are kept apart so
/// that newer hubs can add targets.
pub fn classify_target(t: &String) -> (r: HubTarget)
    ensures
        r == target_of(t@),
{
    if *t == String::from_str("SendSignal") {
        HubTarget::SendSignal
    } else if *t == String::from_str("NewUserArrived") {
        HubTarget::NewUserArrived
    } else if *t == String::from_str("UserLeft") {
        HubTarget::UserLeft
    } else {
        HubTarget::Unknown
    }
}

/// What an inbound frame asks of the session.
#[derive(Debug, Clone, PartialEq, Eq)]
pub enum Inbound {
    /// A keepalive ping: a reply is owed.
    Ping,
    /// A signal from another user: `(user, message)`.
    Signal(String, String),
    /// A user joined the room.
    UserJoined(String),
    /// A user left the room.
    UserLeft(String),
    /// Nothing to do: an unknown type or target, missing or ill-typed
    /// arguments, or the session's own signal echoed back.
    Ignored,
}

pub ghost enum InboundModel {
    Ping,
    Signal(Seq<char>, Seq<char>),
    UserJoined(Seq<char>),
    UserLeft(Seq<char>),
    Ignored,
}

impl View for Inbound {
    type V = InboundModel;

    open spec fn view(&self) -> InboundModel {
        match self {
            Inbound::Ping => InboundModel::Ping,
            Inbound::Signal(u, m) => InboundModel::Signal(u@, m@),
            Inbound::UserJoined(u) => InboundModel::UserJoined(u@),
            Inbound::UserLeft(u) => InboundModel::UserLeft(u@),
            Inbound::Ignored => InboundModel::Ignored,
        }
    }
}

/// The `i`-th argument when it is a JSON string.
pub open spec fn text_arg(a: Seq<ArgModel>, i: int) -> Option<Seq<char>> {
    if 0 <= i < a.len() {
        match a[i] {
            ArgModel::Text(s) => Some(s),
            ArgModel::Raw(_) => None,
        }
    } else {
        None
    }
}

/// The meaning of an inbound envelope for a session whose user is `own`.
pub open spec fn inbound_of(e: EnvelopeModel, own: Seq<char>) -> InboundModel {
    if e.msg_type == PING {
        InboundModel::Ping
    } else if e.msg_type == INVOCATION && e.target is Some && e.arguments is Some {
        let a = e.arguments->Some_0;
        match target_of(e.target->Some_0) {
            HubTarget::SendSignal => {
                if a.len() >= 2 && text_arg(a, 0) is Some && text_arg(a, 1) is Some {
                    let user = text_arg(a, 0)->Some_0;
                    if user == own {
                        InboundModel::Ignored
                    } else {
                        InboundModel::Signal(user, text_arg(a, 1)->Some_0)
                    }
                } else {
                    InboundModel::Ignored
                }
            },
            HubTarget::NewUserArrived => match text_arg(a, 0) {
                Some(u) => InboundModel::UserJoined(u),
                None => InboundModel::Ignored,
            },
            HubTarget::UserLeft => match text_arg(a, 0) {
                Some(u) => InboundModel::UserLeft(u),
                None => InboundModel::Ignored,
            },
            HubTarget::Unknown => InboundModel::Ignored,
        }
    } else {
        InboundModel::Ignored
    }
}

/// A signal never comes back to its own sender; a signal from anyone else
/// comes through with its user and message unchanged.
pub proof fn lemma_self_echo_filtered(e: EnvelopeModel, own: Seq<char>)
    ensures
        !(inbound_of(e, own) matches InboundModel::Signal(u, _) && u == own),
        e.msg_type == INVOCATION && e.target == Some("SendSignal"@) && e.arguments is Some
            && text_arg(e.arguments->Some_0, 0) is Some && text_arg(e.arguments->Some_0, 1) is Some
            ==> inbound_of(e, own) == if text_arg(e.arguments->Some_0, 0)->Some_0 == own {
                InboundModel::Ignored
            } else {
                InboundModel::Signal(
                    text_arg(e.arguments->Some_0, 0)->Some_0,
                    text_arg(e.arguments->Some_0, 1)->Some_0,
                )
            },
{
}

fn text_arg_at(args: &Vec<Arg>, i: usize) -> (r: Option<String>)
    ensures
        opt_view(r) == text_arg(arg_views(args@), i as int),
{
    if i < args.len() {
        match &args[i] {
            Arg::Text(s) => Some(s.clone()),
            Arg::Raw(_) => None,
        }
    } else {
        None
    }
}

/// Decides what an inbound envelope means for a session whose user is `own`.
pub fn dispatch(m: &SignalRMessage, own: &String) -> (r: Inbound)
    ensures
        r@ == inbound_of(m@, own@),
{
    if m.msg_type == PING {
        return Inbound::Ping;
    }
    if m.msg_type != INVOCATION {
        return Inbound::Ignored;
    }
    match (&m.target, &m.arguments) {
        (Some(t), Some(args)) => {
            match classify_target(t) {
                HubTarget::SendSignal => {
                    if args.len() < 2 {
                        return Inbound::Ignored;
                    }
                    match (text_arg_at(args, 0), text_arg_at(args, 1)) {
                        (Some(user), Some(message)) => {
                            if user == *own {
                                Inbound::Ignored
                            } else {
                                Inbound::Signal(user, message)
                            }
                        },
                        _ => Inbound::Ignored,
                    }
                },
                HubTarget::NewUserArrived => match text_arg_at(args, 0) {
                    Some(user) => Inbound::UserJoined(user),
                    None => Inbound::Ignored,
                },
                HubTarget::UserLeft => match text_arg_at(args, 0) {
                    Some(user) => Inbound::UserLeft(user),
                    None => Inbound::Ignored,
                },
                HubTarget::Unknown => Inbound::Ignored,
            }
        },
        _ => Inbound::Ignored,
    }
}


} // verus!
