use vstd::prelude::*;
use crate::dto::LogDto;

verus! {

/// A request that a client sends.
pub enum ExternalAction {
    Ping,
    StoreLog(LogDto),
    StoreLogs(Vec<LogDto>),
    ReadLogs(i64),
    RemoveClient,
    Recompile,
    ClearLogs,
}

/// An event that the service raises for itself.
pub enum InternalAction<H> {
    /// A connection was accepted: its id and the handle of its writer.
    AddClient((usize, H)),
}

/// What the dispatcher consumes. A client's request travels with the id of
/// the client that sent it and the handle of that client's writer.
pub enum Action<H> {
    Internal(InternalAction<H>),
    External((ExternalAction, usize, H)),
}

/// The request that a bare variant name stands for.
pub open spec fn bare_token_action(s: Seq<char>) -> Option<ExternalAction> {
    if s == "Ping"@ {
        Some(ExternalAction::Ping)
    } else if s == "RemoveClient"@ {
        Some(ExternalAction::RemoveClient)
    } else if s == "Recompile"@ {
        Some(ExternalAction::Recompile)
    } else if s == "ClearLogs"@ {
        Some(ExternalAction::ClearLogs)
    } else {
        None
    }
}

fn same_text(a: &str, b: &str) -> (r: bool)
    ensures
        r == (a@ == b@),
{
    a.to_owned() == b.to_owned()
}

impl ExternalAction {
    pub fn to_action<H>(self, client_id: usize, sender: H) -> (r: Action<H>)
        ensures
            r == Action::External((self, client_id, sender)),
    {
        Action::External((self, client_id, sender))
    }

    /// Reads a frame that is a bare variant name, matched case-sensitively.
    /// Any other frame is left to the structured decoder.
    pub fn from_bare_token(source: &str) -> (r: Option<ExternalAction>)
        ensures
            r == bare_token_action(source@),
    {
        if same_text(source, "Ping") {
            Some(ExternalAction::Ping)
        } else if same_text(source, "RemoveClient") {
            Some(ExternalAction::RemoveClient)
        } else if same_text(source, "Recompile") {
            Some(ExternalAction::Recompile)
        } else if same_text(source, "ClearLogs") {
            Some(ExternalAction::ClearLogs)
        } else {
            None
        }
    }
}

} // verus!
