//! Actions the core hands back to its shell.
//!
//! The core decides; the connection that drives it performs. Every
//! operation that, in a running client, would talk to the bus returns the
//! actions to carry out: match rules to add or remove, removals that a
//! destructor may only queue, and messages to send.

use vstd::prelude::*;

use crate::message::{Message, MessageModel};

verus! {

/// One bus-side action owed by a proxy operation.
#[derive(Debug, Clone, PartialEq, Eq)]
pub enum Action {
    /// Install a match rule on the bus driver.
    AddMatch(String),
    /// Remove a match rule, awaiting the reply.
    RemoveMatch(String),
    /// Remove a match rule best-effort, without awaiting; usable from a
    /// destructor.
    QueueRemoveMatch(String),
    /// Drop the connection-side signal handler with this key, best-effort;
    /// the connection removes the handler's match rule with it.
    QueueRemoveSignalHandler(u64),
    /// Send a message, fire-and-forget.
    SendMessage(Message),
}

/// The mathematical shape of an [`Action`].
pub enum ActionModel {
    AddMatch(Seq<char>),
    RemoveMatch(Seq<char>),
    QueueRemoveMatch(Seq<char>),
    QueueRemoveSignalHandler(u64),
    SendMessage(MessageModel),
}

impl View for Action {
    type V = ActionModel;

    open spec fn view(&self) -> ActionModel {
        match self {
            Action::AddMatch(e) => ActionModel::AddMatch(e@),
            Action::RemoveMatch(e) => ActionModel::RemoveMatch(e@),
            Action::QueueRemoveMatch(e) => ActionModel::QueueRemoveMatch(e@),
            Action::QueueRemoveSignalHandler(k) => ActionModel::QueueRemoveSignalHandler(*k),
            Action::SendMessage(m) => ActionModel::SendMessage(m@),
        }
    }
}

/// The view of an action list.
pub open spec fn actions_view(a: Seq<Action>) -> Seq<ActionModel> {
    a.map_values(|x: Action| x@)
}

} // verus!
