//! The signal stream: a lazy pull-stream of filtered signal messages.
//!
//! A stream yields the inbound `SIGNAL` messages that match its proxy's
//! path and interface, its member filter if one was given, and whose
//! sender is the current unique owner of the proxy's destination. For a
//! well-known destination the owner is resolved by a `GetNameOwner` call
//! whose reply the stream recognises by serial, and maintained from the
//! bus driver's `NameOwnerChanged` signals thereafter.
//!
//! The shell polls the connection's broadcast receiver and offers each
//! inbound message to [`SignalStream::filter`]; a `true` result means the
//! message is to be yielded. The stream ends when the receiver ends; on
//! drop, the shell queues removal of the stream's match rule
//! ([`SignalStream::teardown`]).

use vstd::prelude::*;

use crate::actions::{Action, ActionModel};
use crate::cache::str_eq;
use crate::message::{opt_str_view, Message, MessageKind, MessageModel};
use crate::names::{check_unique_name, check_well_known_name, valid_unique_name, valid_well_known_name};
use crate::value::{Value, ValueModel};

verus! {

/// The filter state of one signal stream.
pub struct SignalStream {
    /// The match rule this stream installed; removed on drop.
    pub(crate) expr: String,
    /// The proxy's object path.
    pub(crate) path: String,
    /// The proxy's interface.
    pub(crate) interface: String,
    /// The member filter; `None` accepts every member.
    pub(crate) member: Option<String>,
    /// The destination when it is well-known; `None` for a unique one.
    pub(crate) src_bus_name: Option<String>,
    /// The serial of the pending `GetNameOwner` call, if unanswered.
    pub(crate) src_query: Option<u32>,
    /// The current unique owner of the destination, as far as resolved.
    pub(crate) src_unique_name: Option<String>,
}

/// The mathematical shape of a [`SignalStream`].
pub struct StreamModel {
    pub expr: Seq<char>,
    pub path: Seq<char>,
    pub interface: Seq<char>,
    pub member: Option<Seq<char>>,
    pub src_bus_name: Option<Seq<char>>,
    pub src_query: Option<u32>,
    pub src_unique_name: Option<Seq<char>>,
}

impl View for SignalStream {
    type V = StreamModel;

    closed spec fn view(&self) -> StreamModel {
        StreamModel {
            expr: self.expr@,
            path: self.path@,
            interface: self.interface@,
            member: opt_str_view(self.member),
            src_bus_name: opt_str_view(self.src_bus_name),
            src_query: self.src_query,
            src_unique_name: opt_str_view(self.src_unique_name),
        }
    }
}

/// A `GetNameOwner` reply body: one string holding a valid unique name.
pub open spec fn parse_unique_name_body(body: Seq<ValueModel>) -> Option<Seq<char>> {
    if body.len() == 1 {
        match body[0] {
            ValueModel::Str(s) => if valid_unique_name(s) {
                Some(s)
            } else {
                None
            },
            _ => None,
        }
    } else {
        None
    }
}

/// An owner field of `NameOwnerChanged`: the empty string stands for "no
/// owner".
pub open spec fn owner_str_ok(s: Seq<char>) -> bool {
    s.len() == 0 || valid_unique_name(s)
}

/// The owner an owner field denotes.
pub open spec fn opt_owner(s: Seq<char>) -> Option<Seq<char>> {
    if s.len() == 0 {
        None
    } else {
        Some(s)
    }
}

/// A `NameOwnerChanged` body: the name, its old owner and its new owner.
pub open spec fn parse_name_owner_changed(body: Seq<ValueModel>) -> Option<
    (Seq<char>, Option<Seq<char>>, Option<Seq<char>>),
> {
    if body.len() == 3 {
        match (body[0], body[1], body[2]) {
            (ValueModel::Str(n), ValueModel::Str(o), ValueModel::Str(w)) => if valid_well_known_name(
                n,
            ) && owner_str_ok(o) && owner_str_ok(w) {
                Some((n, opt_owner(o), opt_owner(w)))
            } else {
                None
            },
            _ => None,
        }
    } else {
        None
    }
}

/// Whether the message's member passes the stream's filter.
pub open spec fn member_passes(s: StreamModel, m: MessageModel) -> bool {
    s.member is None || m.member == s.member
}

/// Whether the message is a signal the stream yields: right member, the
/// proxy's path and interface, and the sender is the current owner.
pub open spec fn signal_matches(s: StreamModel, m: MessageModel) -> bool {
    &&& m.kind == MessageKind::Signal
    &&& member_passes(s, m)
    &&& m.path == Some(s.path)
    &&& m.interface == Some(s.interface)
    &&& m.sender == s.src_unique_name
}

/// Whether the message is a `NameOwnerChanged` emission from the bus
/// driver.
pub open spec fn is_owner_change(m: MessageModel) -> bool {
    &&& m.member == Some("NameOwnerChanged"@)
    &&& m.interface == Some("org.freedesktop.DBus"@)
    &&& m.path == Some("/org/freedesktop/DBus"@)
    &&& m.sender == Some("org.freedesktop.DBus"@)
}

/// The filter once any pending `GetNameOwner` reply has been absorbed: a
/// non-signal is dropped; a matching signal is yielded; a `NameOwnerChanged`
/// for the tracked well-known name moves the owner; everything else is
/// dropped.
pub open spec fn stream_step_rest(s: StreamModel, m: MessageModel) -> (StreamModel, bool) {
    if m.kind != MessageKind::Signal {
        (s, false)
    } else if signal_matches(s, m) {
        (s, true)
    } else if s.src_bus_name is Some && is_owner_change(m) {
        match parse_name_owner_changed(m.body) {
            Some(t) => if Some(t.0) == s.src_bus_name {
                (StreamModel { src_unique_name: t.2, ..s }, false)
            } else {
                (s, false)
            },
            None => (s, false),
        }
    } else {
        (s, false)
    }
}

/// One filter step: what the stream's state becomes on seeing `m`, and
/// whether `m` is yielded. A method return answering the pending
/// `GetNameOwner` resolves the owner first (a malformed reply is dropped
/// with the query spent); the message then passes through the signal
/// filter.
pub open spec fn stream_step(s: StreamModel, m: MessageModel) -> (StreamModel, bool) {
    if m.kind == MessageKind::MethodReturn && s.src_query is Some && m.reply_serial
        == s.src_query {
        match parse_unique_name_body(m.body) {
            Some(u) => stream_step_rest(
                StreamModel { src_query: None, src_unique_name: Some(u), ..s },
                m,
            ),
            None => (StreamModel { src_query: None, ..s }, false),
        }
    } else {
        stream_step_rest(s, m)
    }
}

/// Signal filter correctness: a yielded message is a signal carrying the
/// stream's path and interface, a member the filter accepts, and the
/// sender equal to the stream's resolved unique owner at the moment of
/// yield.
pub proof fn lemma_signal_filter_correctness(s: StreamModel, m: MessageModel)
    requires
        stream_step(s, m).1,
    ensures
        m.kind == MessageKind::Signal,
        m.path == Some(stream_step(s, m).0.path),
        m.interface == Some(stream_step(s, m).0.interface),
        stream_step(s, m).0.member is Some ==> m.member == stream_step(s, m).0.member,
        m.sender == stream_step(s, m).0.src_unique_name,
{
}

/// Parse a `NameOwnerChanged` body.
fn parse_owner_body(body: &Vec<Value>) -> (r: Option<(String, Option<String>, Option<String>)>)
    ensures
        match r {
            Some(t) => parse_name_owner_changed(body@.map_values(|v: Value| v@)) == Some(
                (t.0@, opt_str_view(t.1), opt_str_view(t.2)),
            ),
            None => parse_name_owner_changed(body@.map_values(|v: Value| v@)) is None,
        },
{
    proof {
        if body@.len() == 3 {
            assert(body@.map_values(|v: Value| v@)[0] == body@[0]@);
            assert(body@.map_values(|v: Value| v@)[1] == body@[1]@);
            assert(body@.map_values(|v: Value| v@)[2] == body@[2]@);
        }
    }
    if body.len() != 3 {
        return None;
    }
    let n = match &body[0] {
        Value::Str(s) => s,
        _ => {
            return None;
        },
    };
    let o = match &body[1] {
        Value::Str(s) => s,
        _ => {
            return None;
        },
    };
    let w = match &body[2] {
        Value::Str(s) => s,
        _ => {
            return None;
        },
    };
    if !check_well_known_name(n.as_str()) {
        return None;
    }
    let o_empty = o.as_str().unicode_len() == 0;
    if !(o_empty || check_unique_name(o.as_str())) {
        return None;
    }
    let w_empty = w.as_str().unicode_len() == 0;
    if !(w_empty || check_unique_name(w.as_str())) {
        return None;
    }
    let old_owner: Option<String> = if o_empty {
        None
    } else {
        Some(o.clone())
    };
    let new_owner: Option<String> = if w_empty {
        None
    } else {
        Some(w.clone())
    };
    Some((n.clone(), old_owner, new_owner))
}

impl SignalStream {
    /// Assemble a stream; used by the proxy's subscription operations.
    pub(crate) fn make(
        expr: String,
        path: String,
        interface: String,
        member: Option<String>,
        src_bus_name: Option<String>,
        src_query: Option<u32>,
        src_unique_name: Option<String>,
    ) -> (s: SignalStream)
        ensures
            s@ == (StreamModel {
                expr: expr@,
                path: path@,
                interface: interface@,
                member: opt_str_view(member),
                src_bus_name: opt_str_view(src_bus_name),
                src_query: src_query,
                src_unique_name: opt_str_view(src_unique_name),
            }),
    {
        SignalStream { expr, path, interface, member, src_bus_name, src_query, src_unique_name }
    }

    /// The match rule this stream installed.
    pub fn match_expr(&self) -> (r: &str)
        ensures
            r@ == self@.expr,
    {
        self.expr.as_str()
    }

    /// The resolved unique owner of the destination, if known.
    pub fn current_owner(&self) -> (r: Option<&str>)
        ensures
            match r {
                Some(u) => self@.src_unique_name == Some(u@),
                None => self@.src_unique_name is None,
            },
    {
        match &self.src_unique_name {
            Some(u) => Some(u.as_str()),
            None => None,
        }
    }

    /// Whether the stream still awaits its `GetNameOwner` reply.
    pub fn owner_pending(&self) -> (r: bool)
        ensures
            r == (self@.src_query is Some),
    {
        self.src_query.is_some()
    }

    /// Offer one inbound message; `true` means the stream yields it.
    pub fn filter(&mut self, msg: &Message) -> (yielded: bool)
        ensures
            ({
                let r = stream_step(old(self)@, msg@);
                final(self)@ == r.0 && yielded == r.1
            }),
    {
        if msg.kind == MessageKind::MethodReturn {
            let pending = match (msg.reply_serial, self.src_query) {
                (Some(a), Some(b)) => a == b,
                _ => false,
            };
            if pending {
                self.src_query = None;
                proof {
                    if msg@.body.len() == 1 {
                        assert(msg@.body[0] == msg.body@[0]@);
                    }
                }
                let mut parsed: Option<String> = None;
                if msg.body.len() == 1 {
                    parsed = match &msg.body[0] {
                        Value::Str(s) => if check_unique_name(s.as_str()) {
                            Some(s.clone())
                        } else {
                            None
                        },
                        _ => None,
                    };
                }
                match parsed {
                    Some(u) => {
                        self.src_unique_name = Some(u);
                    },
                    None => {
                        return false;
                    },
                }
            }
        }
        self.filter_rest(msg)
    }

    /// The filter after owner resolution; see [`stream_step_rest`].
    fn filter_rest(&mut self, msg: &Message) -> (yielded: bool)
        ensures
            ({
                let r = stream_step_rest(old(self)@, msg@);
                final(self)@ == r.0 && yielded == r.1
            }),
    {
        if !matches!(msg.kind, MessageKind::Signal) {
            return false;
        }
        let member_ok = match (&self.member, &msg.member) {
            (None, _) => true,
            (Some(m), Some(mm)) => str_eq(m.as_str(), mm.as_str()),
            (Some(_), None) => false,
        };
        let path_ok = match &msg.path {
            Some(p) => str_eq(p.as_str(), self.path.as_str()),
            None => false,
        };
        let iface_ok = match &msg.interface {
            Some(i) => str_eq(i.as_str(), self.interface.as_str()),
            None => false,
        };
        if member_ok && path_ok && iface_ok {
            let sender_ok = match (&msg.sender, &self.src_unique_name) {
                (Some(a), Some(b)) => str_eq(a.as_str(), b.as_str()),
                (None, None) => true,
                _ => false,
            };
            if sender_ok {
                return true;
            }
        }
        let watched = match &self.src_bus_name {
            Some(b) => Some(b.clone()),
            None => None,
        };
        if let Some(bus_name) = watched {
            let member_is_noc = match &msg.member {
                Some(m) => str_eq(m.as_str(), "NameOwnerChanged"),
                None => false,
            };
            let iface_is_bus = match &msg.interface {
                Some(i) => str_eq(i.as_str(), "org.freedesktop.DBus"),
                None => false,
            };
            let path_is_bus = match &msg.path {
                Some(p) => str_eq(p.as_str(), "/org/freedesktop/DBus"),
                None => false,
            };
            let sender_is_bus = match &msg.sender {
                Some(sn) => str_eq(sn.as_str(), "org.freedesktop.DBus"),
                None => false,
            };
            if member_is_noc && iface_is_bus && path_is_bus && sender_is_bus {
                match parse_owner_body(&msg.body) {
                    Some(t) => {
                        if str_eq(t.0.as_str(), bus_name.as_str()) {
                            self.src_unique_name = t.2;
                        }
                    },
                    None => {},
                }
            }
        }
        false
    }

    /// Hand back the match rule so the shell can queue its removal; the
    /// stream is consumed. This is the stream's half of match-rule
    /// parity: the one rule it added is the one rule removed here.
    pub fn teardown(self) -> (a: Action)
        ensures
            a@ == ActionModel::QueueRemoveMatch(self@.expr),
    {
        Action::QueueRemoveMatch(self.expr)
    }
}

} // verus!
