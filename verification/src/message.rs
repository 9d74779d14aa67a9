//! The message model.
//!
//! The connection delivers inbound messages and accepts outbound ones; the
//! core never sees wire bytes, only the header fields it filters on and a
//! body of plain values. A header field that a peer may omit is an
//! `Option`.

use vstd::prelude::*;

use crate::value::{Value, ValueModel};

verus! {

/// The kind of a D-Bus message.
#[derive(Debug, Clone, Copy, PartialEq, Eq, Structural)]
pub enum MessageKind {
    MethodCall,
    MethodReturn,
    Error,
    Signal,
}

/// A D-Bus message as the proxy core sees it: the header fields the core
/// reads or writes, and the body as plain values.
#[derive(Debug, Clone, PartialEq, Eq)]
pub struct Message {
    pub kind: MessageKind,
    /// The serial the sending connection assigned to this message.
    pub serial: u32,
    pub sender: Option<String>,
    pub destination: Option<String>,
    pub path: Option<String>,
    pub interface: Option<String>,
    pub member: Option<String>,
    /// For a method return or error: the serial of the call it answers.
    pub reply_serial: Option<u32>,
    /// The `NoReplyExpected` header flag.
    pub no_reply_expected: bool,
    pub body: Vec<Value>,
}

/// The mathematical shape of a [`Message`].
pub struct MessageModel {
    pub kind: MessageKind,
    pub serial: u32,
    pub sender: Option<Seq<char>>,
    pub destination: Option<Seq<char>>,
    pub path: Option<Seq<char>>,
    pub interface: Option<Seq<char>>,
    pub member: Option<Seq<char>>,
    pub reply_serial: Option<u32>,
    pub no_reply_expected: bool,
    pub body: Seq<ValueModel>,
}

/// The view of an optional string header field.
pub open spec fn opt_str_view(v: Option<String>) -> Option<Seq<char>> {
    match v {
        Some(s) => Some(s@),
        None => None,
    }
}

impl View for Message {
    type V = MessageModel;

    open spec fn view(&self) -> MessageModel {
        MessageModel {
            kind: self.kind,
            serial: self.serial,
            sender: opt_str_view(self.sender),
            destination: opt_str_view(self.destination),
            path: opt_str_view(self.path),
            interface: opt_str_view(self.interface),
            member: opt_str_view(self.member),
            reply_serial: self.reply_serial,
            no_reply_expected: self.no_reply_expected,
            body: self.body@.map_values(|v: Value| v@),
        }
    }
}

/// The shape of a method call addressed to (destination, path, interface,
/// member).
pub open spec fn method_call_model(
    serial: u32,
    dest: Seq<char>,
    path: Seq<char>,
    iface: Seq<char>,
    member: Seq<char>,
    body: Seq<ValueModel>,
    no_reply: bool,
) -> MessageModel {
    MessageModel {
        kind: MessageKind::MethodCall,
        serial: serial,
        sender: None,
        destination: Some(dest),
        path: Some(path),
        interface: Some(iface),
        member: Some(member),
        reply_serial: None,
        no_reply_expected: no_reply,
        body: body,
    }
}

impl Message {
    /// Build a method call.
    pub fn method_call(
        serial: u32,
        destination: String,
        path: String,
        interface: String,
        member: String,
        body: Vec<Value>,
        no_reply: bool,
    ) -> (m: Message)
        ensures
            m@ == method_call_model(
                serial,
                destination@,
                path@,
                interface@,
                member@,
                body@.map_values(|v: Value| v@),
                no_reply,
            ),
    {
        Message {
            kind: MessageKind::MethodCall,
            serial,
            sender: None,
            destination: Some(destination),
            path: Some(path),
            interface: Some(interface),
            member: Some(member),
            reply_serial: None,
            no_reply_expected: no_reply,
            body,
        }
    }

    /// Build a signal message, as a peer would emit it.
    pub fn signal(
        serial: u32,
        sender: Option<String>,
        path: String,
        interface: String,
        member: String,
        body: Vec<Value>,
    ) -> (m: Message)
        ensures
            m@.kind == MessageKind::Signal,
            m@.serial == serial,
            m@.sender == opt_str_view(sender),
            m@.destination is None,
            m@.path == Some(path@),
            m@.interface == Some(interface@),
            m@.member == Some(member@),
            m@.reply_serial is None,
            !m@.no_reply_expected,
            m@.body == body@.map_values(|v: Value| v@),
    {
        Message {
            kind: MessageKind::Signal,
            serial,
            sender,
            destination: None,
            path: Some(path),
            interface: Some(interface),
            member: Some(member),
            reply_serial: None,
            no_reply_expected: false,
            body,
        }
    }

    /// Build a method-return message answering the call with serial
    /// `reply_serial`.
    pub fn method_return(
        serial: u32,
        sender: Option<String>,
        reply_serial: u32,
        body: Vec<Value>,
    ) -> (m: Message)
        ensures
            m@.kind == MessageKind::MethodReturn,
            m@.serial == serial,
            m@.sender == opt_str_view(sender),
            m@.destination is None,
            m@.path is None,
            m@.interface is None,
            m@.member is None,
            m@.reply_serial == Some(reply_serial),
            !m@.no_reply_expected,
            m@.body == body@.map_values(|v: Value| v@),
    {
        Message {
            kind: MessageKind::MethodReturn,
            serial,
            sender,
            destination: None,
            path: None,
            interface: None,
            member: None,
            reply_serial: Some(reply_serial),
            no_reply_expected: false,
            body,
        }
    }
}

} // verus!
