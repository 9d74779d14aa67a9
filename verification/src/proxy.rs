//! The proxy façade.
//!
//! A proxy is parameterised by a destination, an object path and an
//! interface, all validated at construction, and composes the property
//! cache, the signal streams and the signal-handler bookkeeping over one
//! shared connection. The connection itself — sockets, serial allocation,
//! the executor — lives outside the core: every operation here either
//! computes a message for the shell to send, interprets a reply the shell
//! received, or advances the proxy's own state and hands back the
//! bus-side actions owed.

use vstd::multiset::Multiset;
use vstd::prelude::*;

use crate::actions::{actions_view, Action, ActionModel};
use crate::cache::{
    apply_seed, cached_value, calls_view, connect_one, disconnect_one, entries_wf, has_handler,
    lemma_disconnect_property_changed_idempotent, names_view, pairs_view, set_one, str_eq,
    update_calls, update_entries, CacheModel, CallbackCall, PropertyCache,
};
use crate::message::{method_call_model, opt_str_view, Message, MessageKind};
use crate::names::{
    valid_bus_name, valid_interface_name, valid_object_path, valid_unique_name,
    valid_well_known_name, BusName, InterfaceName, MemberName, ObjectPath,
};
use crate::stream::{SignalStream, StreamModel};
use crate::value::{opt_value_view, Value, ValueModel};
use crate::Error;

verus! {

/// The ID for a registered signal handler.
#[derive(Debug, Copy, Clone, PartialEq, Eq, Structural, Hash)]
pub struct SignalHandlerId {
    key: u64,
}

impl View for SignalHandlerId {
    type V = u64;

    closed spec fn view(&self) -> u64 {
        self.key
    }
}

impl SignalHandlerId {
    /// The connection-side key this ID stands for.
    pub fn key(&self) -> (k: u64)
        ensures
            k == self@,
    {
        self.key
    }
}

/// The ID for a registered property changed handler.
#[derive(Debug, Copy, Clone)]
pub struct PropertyChangedHandlerId {
    name: &'static str,
    key: u64,
}

impl View for PropertyChangedHandlerId {
    type V = (Seq<char>, u64);

    closed spec fn view(&self) -> (Seq<char>, u64) {
        (self.name@, self.key)
    }
}

impl PropertyChangedHandlerId {
    /// The property this handler is registered for.
    pub fn name(&self) -> (r: &'static str)
        ensures
            r@ == self@.0,
    {
        self.name
    }

    /// The callback key within that property's entry.
    pub fn key(&self) -> (k: u64)
        ensures
            k == self@.1,
    {
        self.key
    }
}

/// One signal handler this proxy installed on the connection: the
/// connection-side key and the match rule that travels with it.
#[derive(Debug)]
struct SignalHandlerEntry {
    key: u64,
    expr: String,
}

/// The mathematical shape of a [`SignalHandlerEntry`].
pub struct HandlerModel {
    pub key: u64,
    pub expr: Seq<char>,
}

impl View for SignalHandlerEntry {
    type V = HandlerModel;

    closed spec fn view(&self) -> HandlerModel {
        HandlerModel { key: self.key, expr: self.expr@ }
    }
}

/// The view of the handler list.
pub open spec fn registry_view(hs: Seq<SignalHandlerEntry>) -> Seq<HandlerModel> {
    hs.map_values(|h: SignalHandlerEntry| h@)
}

/// Handler keys are pairwise distinct and below the allocator's next key.
pub open spec fn registry_wf(hs: Seq<HandlerModel>, next: u64) -> bool {
    &&& forall|a: int, b: int| 0 <= a < b < hs.len() ==> hs[a].key != hs[b].key
    &&& forall|a: int| 0 <= a < hs.len() ==> #[trigger] hs[a].key < next
}

/// The position of handler `key`, scanning from `lo`.
pub open spec fn hidx_from(hs: Seq<HandlerModel>, key: u64, lo: int) -> Option<int>
    decreases hs.len() - lo,
{
    if lo < 0 || lo >= hs.len() {
        None
    } else if hs[lo].key == key {
        Some(lo)
    } else {
        hidx_from(hs, key, lo + 1)
    }
}

/// Whether the registry holds handler `key`.
pub open spec fn registry_contains(hs: Seq<HandlerModel>, key: u64) -> bool {
    hidx_from(hs, key, 0) is Some
}

/// The registry with handler `key` removed; unchanged when absent.
pub open spec fn registry_remove(hs: Seq<HandlerModel>, key: u64) -> Seq<HandlerModel> {
    match hidx_from(hs, key, 0) {
        Some(i) => hs.remove(i),
        None => hs,
    }
}

/// Where `hidx_from` points, and what its absence means.
pub proof fn lemma_hidx_props(hs: Seq<HandlerModel>, key: u64, lo: int)
    requires
        0 <= lo,
    ensures
        match hidx_from(hs, key, lo) {
            Some(i) => lo <= i < hs.len() && hs[i].key == key,
            None => forall|j: int| lo <= j < hs.len() ==> hs[j].key != key,
        },
    decreases hs.len() - lo,
{
    if lo < 0 || lo >= hs.len() {
    } else if hs[lo].key == key {
    } else {
        lemma_hidx_props(hs, key, lo + 1);
    }
}

/// The signal-filter match rule this proxy uses:
/// `type='signal',sender='<dest>',path='<path>',interface='<iface>'`,
/// with `,member='<m>'` appended when a member filter is given.
pub open spec fn signal_match_expr(
    dest: Seq<char>,
    path: Seq<char>,
    iface: Seq<char>,
    member: Option<Seq<char>>,
) -> Seq<char> {
    let base = "type='signal',sender='"@ + dest + "',path='"@ + path + "',interface='"@ + iface
        + "'"@;
    match member {
        Some(m) => base + ",member='"@ + m + "'"@,
        None => base,
    }
}

/// The owner-tracker match rule: `NameOwnerChanged` from the bus driver,
/// restricted by `arg0` to this destination.
pub open spec fn owner_match_expr(dest: Seq<char>) -> Seq<char> {
    "type='signal',sender='org.freedesktop.DBus',path='/org/freedesktop/DBus',interface='org.freedesktop.DBus',member='NameOwnerChanged',arg0='"@
        + dest + "'"@
}

fn build_signal_expr(dest: &str, path: &str, iface: &str, member: Option<&str>) -> (r: String)
    ensures
        r@ == signal_match_expr(
            dest@,
            path@,
            iface@,
            match member {
                Some(m) => Some(m@),
                None => None,
            },
        ),
{
    let mut e = String::from_str("type='signal',sender='");
    e.append(dest);
    e.append("',path='");
    e.append(path);
    e.append("',interface='");
    e.append(iface);
    e.append("'");
    match member {
        Some(m) => {
            e.append(",member='");
            e.append(m);
            e.append("'");
            proof {
                assert(e@ =~= signal_match_expr(dest@, path@, iface@, Some(m@)));
            }
        },
        None => {
            proof {
                assert(e@ =~= signal_match_expr(dest@, path@, iface@, None::<Seq<char>>));
            }
        },
    }
    e
}

fn build_owner_expr(dest: &str) -> (r: String)
    ensures
        r@ == owner_match_expr(dest@),
{
    let mut e = String::from_str(
        "type='signal',sender='org.freedesktop.DBus',path='/org/freedesktop/DBus',interface='org.freedesktop.DBus',member='NameOwnerChanged',arg0='",
    );
    e.append(dest);
    e.append("'");
    proof {
        assert(e@ =~= owner_match_expr(dest@));
    }
    e
}

/// A client-side interface proxy, as a state machine: the shell performs
/// the returned [`Action`]s and feeds replies and inbound messages back.
#[derive(Debug)]
pub struct Proxy {
    destination: BusName,
    path: ObjectPath,
    interface: InterfaceName,
    /// Whether the connection is a bus connection; match rules and name
    /// tracking mean nothing off-bus.
    is_bus: bool,
    /// The signal handlers this proxy installed, for teardown on drop.
    sig_handlers: Vec<SignalHandlerEntry>,
    /// Models the connection's handler-key allocation.
    next_handler_key: u64,
    /// The owner-tracker match rule, once installed; write-once.
    dest_name_watcher: Option<String>,
    properties: PropertyCache,
    /// The key of the `PropertiesChanged` handler when caching is on.
    cache_task: Option<u64>,
}

/// The mathematical shape of a [`Proxy`].
pub struct ProxyModel {
    pub destination: Seq<char>,
    pub dest_is_unique: bool,
    pub path: Seq<char>,
    pub interface: Seq<char>,
    pub is_bus: bool,
    pub sig_handlers: Seq<HandlerModel>,
    pub next_handler_key: u64,
    pub dest_name_watcher: Option<Seq<char>>,
    pub cache: CacheModel,
    pub cache_task: Option<u64>,
}

impl View for Proxy {
    type V = ProxyModel;

    closed spec fn view(&self) -> ProxyModel {
        ProxyModel {
            destination: self.destination@,
            dest_is_unique: self.destination is Unique,
            path: self.path@,
            interface: self.interface@,
            is_bus: self.is_bus,
            sig_handlers: registry_view(self.sig_handlers@),
            next_handler_key: self.next_handler_key,
            dest_name_watcher: opt_str_view(self.dest_name_watcher),
            cache: self.properties@,
            cache_task: self.cache_task,
        }
    }
}

/// Whether expressing interest in signals would install the owner
/// tracker: only on a bus connection, only for a well-known destination,
/// and only once.
pub open spec fn track_owner_installs(p: ProxyModel) -> bool {
    p.is_bus && !p.dest_is_unique && p.dest_name_watcher is None
}

/// The proxy after ensuring destination-owner tracking.
pub open spec fn track_owner_spec(p: ProxyModel) -> ProxyModel {
    if track_owner_installs(p) {
        ProxyModel { dest_name_watcher: Some(owner_match_expr(p.destination)), ..p }
    } else {
        p
    }
}

impl Proxy {
    /// Names are valid under their grammars, the cache is well-formed,
    /// and handler keys are distinct and below the allocator.
    pub open spec fn wf(&self) -> bool {
        &&& if self@.dest_is_unique {
            valid_unique_name(self@.destination)
        } else {
            valid_well_known_name(self@.destination)
        }
        &&& valid_object_path(self@.path)
        &&& valid_interface_name(self@.interface)
        &&& entries_wf(self@.cache.entries, self@.cache.next_key)
        &&& registry_wf(self@.sig_handlers, self@.next_handler_key)
    }

    /// Create a proxy for the given destination, path and interface on a
    /// connection (`conn_is_bus` says whether it is a bus connection).
    /// Each string is validated; an invalid one is rejected.
    pub fn new(conn_is_bus: bool, destination: &str, path: &str, interface: &str) -> (r: Result<
        Proxy,
        Error,
    >)
        ensures
            (r is Ok) == (valid_bus_name(destination@) && valid_object_path(path@)
                && valid_interface_name(interface@)),
            r matches Ok(p) ==> p@.destination == destination@ && p@.dest_is_unique
                == valid_unique_name(destination@) && p@.path == path@ && p@.interface == interface@
                && p@.is_bus == conn_is_bus && p@.sig_handlers.len() == 0 && p@.next_handler_key == 0
                && p@.dest_name_watcher is None && p@.cache.entries.len() == 0 && p@.cache.next_key
                == 0 && p@.cache_task is None && p.wf(),
            r matches Err(e) ==> e == Error::TypeConversion,
    {
        let d = match BusName::parse(destination) {
            Ok(d) => d,
            Err(e) => {
                return Err(e);
            },
        };
        let p = match ObjectPath::parse(path) {
            Ok(p) => p,
            Err(e) => {
                return Err(e);
            },
        };
        let i = match InterfaceName::parse(interface) {
            Ok(i) => i,
            Err(e) => {
                return Err(e);
            },
        };
        Ok(
            Proxy {
                destination: d,
                path: p,
                interface: i,
                is_bus: conn_is_bus,
                sig_handlers: Vec::new(),
                next_handler_key: 0,
                dest_name_watcher: None,
                properties: PropertyCache::new(),
                cache_task: None,
            },
        )
    }

    /// As [`Proxy::new`], taking ownership of the strings.
    pub fn new_owned(conn_is_bus: bool, destination: String, path: String, interface: String) -> (r:
        Result<Proxy, Error>)
        ensures
            (r is Ok) == (valid_bus_name(destination@) && valid_object_path(path@)
                && valid_interface_name(interface@)),
            r matches Ok(p) ==> p@.destination == destination@ && p@.dest_is_unique
                == valid_unique_name(destination@) && p@.path == path@ && p@.interface == interface@
                && p@.is_bus == conn_is_bus && p@.sig_handlers.len() == 0 && p@.next_handler_key == 0
                && p@.dest_name_watcher is None && p@.cache.entries.len() == 0 && p@.cache.next_key
                == 0 && p@.cache_task is None && p.wf(),
            r matches Err(e) ==> e == Error::TypeConversion,
    {
        Proxy::new(conn_is_bus, destination.as_str(), path.as_str(), interface.as_str())
    }

    /// The destination service name.
    pub fn destination(&self) -> (r: &BusName)
        ensures
            r@ == self@.destination,
            (r is Unique) == self@.dest_is_unique,
    {
        &self.destination
    }

    /// The object path.
    pub fn path(&self) -> (r: &ObjectPath)
        ensures
            r@ == self@.path,
    {
        &self.path
    }

    /// The interface.
    pub fn interface(&self) -> (r: &InterfaceName)
        ensures
            r@ == self@.interface,
    {
        &self.interface
    }

    /// Whether this proxy caches properties.
    pub fn has_cached_properties(&self) -> (r: bool)
        ensures
            r == (self@.cache_task is Some),
    {
        self.cache_task.is_some()
    }

    /// Whether another connection-side handler key can be allocated.
    pub fn handler_keys_left(&self) -> (r: bool)
        ensures
            r == (self@.next_handler_key < u64::MAX),
    {
        self.next_handler_key < u64::MAX
    }

    /// Whether another property-callback key can be allocated.
    pub fn property_keys_left(&self) -> (r: bool)
        ensures
            r == (self@.cache.next_key < u64::MAX),
    {
        self.properties.keys_left()
    }

    /// The cached value of `property_name`: `None` when the cache has no
    /// value, because it was never seeded, the property was invalidated,
    /// or caching is off.
    pub fn cached_property(&self, property_name: &str) -> (r: Option<Value>)
        ensures
            opt_value_view(r) == cached_value(self@.cache.entries, property_name@),
    {
        self.properties.cached_property(property_name)
    }

    /// Store a value (or its absence) for `property_name` in the cache.
    pub fn set_cached_property(&mut self, property_name: &str, value: Option<Value>)
        ensures
            final(self)@ == (ProxyModel {
                cache: CacheModel {
                    entries: set_one(
                        old(self)@.cache.entries,
                        property_name@,
                        opt_value_view(value),
                    ),
                    next_key: old(self)@.cache.next_key,
                },
                ..old(self)@
            }),
            old(self).wf() ==> final(self).wf(),
    {
        self.properties.set_cached_property(property_name, value);
    }

    /// Register a changed handler for the property named `property_name`.
    ///
    /// Fails with [`Error::Unsupported`] when the proxy was built without
    /// caching, and only then.
    pub fn connect_property_changed(&mut self, property_name: &'static str) -> (r: Result<
        PropertyChangedHandlerId,
        Error,
    >)
        requires
            old(self).wf(),
            old(self)@.cache.next_key < u64::MAX,
        ensures
            (r is Ok) == (old(self)@.cache_task is Some),
            r matches Err(e) ==> e == Error::Unsupported && final(self)@ == old(self)@,
            r matches Ok(id) ==> id@ == (property_name@, old(self)@.cache.next_key)
                && final(self)@ == (ProxyModel {
                cache: CacheModel {
                    entries: connect_one(
                        old(self)@.cache.entries,
                        property_name@,
                        old(self)@.cache.next_key,
                    ),
                    next_key: (old(self)@.cache.next_key + 1) as u64,
                },
                ..old(self)@
            }) && has_handler(final(self)@.cache.entries, property_name@, id@.1),
            final(self).wf(),
    {
        if self.cache_task.is_none() {
            return Err(Error::Unsupported);
        }
        let key = self.properties.connect_property_changed(property_name);
        Ok(PropertyChangedHandlerId { name: property_name, key })
    }

    /// Deregister the property handler with the ID `handler_id`.
    ///
    /// Returns `true` when a handler with that ID was found and removed,
    /// `false` otherwise; a second call with the same ID returns `false`.
    pub fn disconnect_property_changed(&mut self, handler_id: PropertyChangedHandlerId) -> (found:
        bool)
        requires
            old(self).wf(),
        ensures
            found == has_handler(old(self)@.cache.entries, handler_id@.0, handler_id@.1),
            final(self)@ == (ProxyModel {
                cache: CacheModel {
                    entries: disconnect_one(
                        old(self)@.cache.entries,
                        handler_id@.0,
                        handler_id@.1,
                    ),
                    next_key: old(self)@.cache.next_key,
                },
                ..old(self)@
            }),
            !has_handler(final(self)@.cache.entries, handler_id@.0, handler_id@.1),
            final(self).wf(),
    {
        self.properties.disconnect_property_changed(handler_id.name, handler_id.key)
    }

    /// Create the cache entry for `name` and return a stream over it. The
    /// shell parks on the entry's notifier and calls
    /// [`PropertyStream::current`] on each wake; only the latest value is
    /// observed.
    pub fn receive_property_stream(&mut self, name: &str) -> (r: PropertyStream)
        ensures
            r@ == name@,
            final(self)@ == (ProxyModel {
                cache: CacheModel {
                    entries: crate::cache::ensure_one(old(self)@.cache.entries, name@),
                    next_key: old(self)@.cache.next_key,
                },
                ..old(self)@
            }),
            old(self).wf() ==> final(self).wf(),
    {
        self.properties.ensure_entry(name);
        PropertyStream { name: name.to_owned() }
    }

    /// The `PropertiesChanged` handler this proxy registers when caching:
    /// an emission for another interface is dropped whole; one for this
    /// interface is applied to the cache, and the calls owed to the
    /// registered callbacks are returned for the shell to await outside
    /// the lock.
    pub fn handle_properties_changed(
        &mut self,
        interface_name: &str,
        changed: &Vec<(String, Value)>,
        invalidated: &Vec<String>,
    ) -> (calls: Vec<CallbackCall>)
        ensures
            interface_name@ == old(self)@.interface ==> final(self)@ == (ProxyModel {
                cache: CacheModel {
                    entries: update_entries(
                        old(self)@.cache.entries,
                        pairs_view(changed@),
                        names_view(invalidated@),
                    ),
                    next_key: old(self)@.cache.next_key,
                },
                ..old(self)@
            }) && calls_view(calls@) == update_calls(
                old(self)@.cache.entries,
                pairs_view(changed@),
                names_view(invalidated@),
            ),
            interface_name@ != old(self)@.interface ==> final(self)@ == old(self)@ && calls@.len()
                == 0,
            old(self).wf() ==> final(self).wf(),
    {
        if !str_eq(interface_name, self.interface.as_str()) {
            return Vec::new();
        }
        self.properties.update_cache(changed, invalidated)
    }

    /// Activate the property cache: record the `PropertiesChanged`
    /// handler (at most once; the key models the connection's allocation)
    /// and seed the cache with a `GetAll` result if one came back. A
    /// failed `GetAll` (`None`) leaves the cache unseeded.
    pub fn cache_properties(&mut self, get_all: Option<&Vec<(String, Value)>>)
        requires
            old(self).wf(),
            old(self)@.next_handler_key < u64::MAX,
        ensures
            final(self)@ == cache_properties_spec(
                old(self)@,
                match get_all {
                    Some(v) => Some(pairs_view(v@)),
                    None => None,
                },
            ),
            final(self).wf(),
    {
        if self.cache_task.is_none() {
            self.cache_task = Some(self.next_handler_key);
            self.next_handler_key = self.next_handler_key + 1;
            proof {
                assert forall|a: int| 0 <= a < self@.sig_handlers.len() implies #[trigger] self@
                    .sig_handlers[a].key < self@.next_handler_key by {
                    assert(self@.sig_handlers[a].key < old(self)@.next_handler_key);
                }
            }
        }
        match get_all {
            Some(values) => {
                self.properties.seed(values);
                proof {
                    crate::cache::lemma_apply_seed_wf(
                        old(self)@.cache.entries,
                        pairs_view(values@),
                        values@.len() as int,
                        old(self)@.cache.next_key,
                    );
                }
            },
            None => {},
        }
    }

    /// Get the property `property_name`, consulting the cache first. When
    /// the cache is off or empty for the name, the shell must perform the
    /// bus-side `Get` (see [`Proxy::get_property_request`]) and call again
    /// with the fetched value, which is then cached when caching is on.
    pub fn get_property(&mut self, property_name: &str, fetched: Option<Value>) -> (r:
        GetPropertyOutcome)
        ensures
            ({
                let cached = cached_value(old(self)@.cache.entries, property_name@);
                let caching = old(self)@.cache_task is Some;
                if caching && cached is Some {
                    r@ == GetOutcomeModel::Cached(cached->Some_0) && final(self)@ == old(self)@
                } else {
                    match fetched {
                        Some(v) => r@ == GetOutcomeModel::Fetched(v@) && if caching {
                            final(self)@ == (ProxyModel {
                                cache: CacheModel {
                                    entries: set_one(
                                        old(self)@.cache.entries,
                                        property_name@,
                                        Some(v@),
                                    ),
                                    next_key: old(self)@.cache.next_key,
                                },
                                ..old(self)@
                            })
                        } else {
                            final(self)@ == old(self)@
                        },
                        None => r@ == GetOutcomeModel::NeedFetch && final(self)@ == old(self)@,
                    }
                }
            }),
            old(self).wf() ==> final(self).wf(),
    {
        if self.has_cached_properties() {
            match self.cached_property(property_name) {
                Some(v) => {
                    return GetPropertyOutcome::Cached(v);
                },
                None => {},
            }
        }
        match fetched {
            Some(v) => {
                if self.has_cached_properties() {
                    self.set_cached_property(property_name, Some(v.dup()));
                }
                GetPropertyOutcome::Fetched(v)
            },
            None => GetPropertyOutcome::NeedFetch,
        }
    }

    /// The inner proxy on `org.freedesktop.DBus.Properties` for this
    /// object, built with caching off so that it cannot recurse into
    /// itself.
    pub fn properties_proxy(&self) -> (r: Result<Proxy, Error>)
        requires
            self.wf(),
        ensures
            (r is Ok) == valid_interface_name("org.freedesktop.DBus.Properties"@),
            r matches Ok(p) ==> p@.destination == self@.destination && p@.dest_is_unique == self@
                .dest_is_unique && p@.path == self@.path && p@.interface
                == "org.freedesktop.DBus.Properties"@ && p@.is_bus == self@.is_bus
                && p@.cache_task is None && p@.sig_handlers.len() == 0
                && p@.dest_name_watcher is None && p.wf(),
            r matches Err(e) ==> e == Error::TypeConversion,
    {
        let i = match InterfaceName::parse("org.freedesktop.DBus.Properties") {
            Ok(i) => i,
            Err(e) => {
                return Err(e);
            },
        };
        Ok(
            Proxy {
                destination: self.destination.dup(),
                path: self.path.dup(),
                interface: i,
                is_bus: self.is_bus,
                sig_handlers: Vec::new(),
                next_handler_key: 0,
                dest_name_watcher: None,
                properties: PropertyCache::new(),
                cache_task: None,
            },
        )
    }

    /// The `METHOD_CALL` message of a method call: addressed to this
    /// proxy's destination, path and interface, with the given member and
    /// body. `serial` is the outbound serial the connection will assign;
    /// the shell awaits the matching reply and hands it to
    /// [`Proxy::call_reply`].
    pub fn call_method_request(&self, method_name: &MemberName, serial: u32, body: Vec<Value>) -> (m:
        Message)
        ensures
            m@ == method_call_model(
                serial,
                self@.destination,
                self@.path,
                self@.interface,
                method_name@,
                body@.map_values(|v: Value| v@),
                false,
            ),
    {
        Message::method_call(
            serial,
            self.destination.as_str().to_owned(),
            self.path.as_str().to_owned(),
            self.interface.as_str().to_owned(),
            method_name.as_str().to_owned(),
            body,
            false,
        )
    }

    /// The message of `call_noreply`: as [`Proxy::call_method_request`],
    /// with the `NoReplyExpected` flag set; no reply will be awaited.
    pub fn call_noreply_request(&self, method_name: &MemberName, serial: u32, body: Vec<Value>) -> (m:
        Message)
        ensures
            m@ == method_call_model(
                serial,
                self@.destination,
                self@.path,
                self@.interface,
                method_name@,
                body@.map_values(|v: Value| v@),
                true,
            ),
    {
        Message::method_call(
            serial,
            self.destination.as_str().to_owned(),
            self.path.as_str().to_owned(),
            self.interface.as_str().to_owned(),
            method_name.as_str().to_owned(),
            body,
            true,
        )
    }
}

impl Proxy {
    /// Resolve interest in the destination's owner: on a bus connection
    /// with a well-known destination, install the `NameOwnerChanged`
    /// match rule, at most once over the proxy's lifetime; the recorded
    /// expression is removed at teardown.
    pub fn destination_unique_name(&mut self) -> (r: Option<Action>)
        requires
            old(self).wf(),
        ensures
            final(self)@ == track_owner_spec(old(self)@),
            (r is Some) == track_owner_installs(old(self)@),
            r matches Some(a) ==> a@ == ActionModel::AddMatch(
                owner_match_expr(old(self)@.destination),
            ),
            final(self).wf(),
    {
        if !self.is_bus {
            return None;
        }
        if self.destination.is_unique() {
            return None;
        }
        if self.dest_name_watcher.is_some() {
            return None;
        }
        let expr = build_owner_expr(self.destination.as_str());
        self.dest_name_watcher = Some(expr.clone());
        Some(Action::AddMatch(expr))
    }

    /// Register a push-mode handler for signal `signal_name`: the
    /// connection installs the match rule with the handler, and this
    /// proxy records the key so its drop can queue the removal.
    pub fn connect_signal(&mut self, signal_name: &MemberName) -> (r: (SignalHandlerId, Vec<Action>))
        requires
            old(self).wf(),
            old(self)@.next_handler_key < u64::MAX,
        ensures
            final(self)@ == connect_signal_spec(old(self)@, signal_name@),
            r.0@ == track_owner_spec(old(self)@).next_handler_key,
            actions_view(r.1@) == connect_signal_actions(old(self)@, signal_name@),
            registry_contains(final(self)@.sig_handlers, r.0@),
            final(self).wf(),
    {
        let ghost orig = old(self)@;
        let mut actions: Vec<Action> = Vec::new();
        match self.destination_unique_name() {
            Some(a) => actions.push(a),
            None => {},
        }
        let expr = build_signal_expr(
            self.destination.as_str(),
            self.path.as_str(),
            self.interface.as_str(),
            Some(signal_name.as_str()),
        );
        let key = self.next_handler_key;
        let entry = SignalHandlerEntry { key, expr: expr.clone() };
        let ghost mid = self.sig_handlers@;
        self.sig_handlers.push(entry);
        self.next_handler_key = key + 1;
        actions.push(Action::AddMatch(expr));
        proof {
            let p1 = track_owner_spec(orig);
            let h = HandlerModel {
                key: p1.next_handler_key,
                expr: signal_match_expr(orig.destination, orig.path, orig.interface, Some(
                    signal_name@,
                )),
            };
            assert(entry@ == h);
            assert(registry_view(mid.push(entry)) =~= registry_view(mid).push(h));
            assert(self@ == connect_signal_spec(orig, signal_name@));
            assert(actions_view(actions@) =~= connect_signal_actions(orig, signal_name@));
            lemma_hidx_push(p1.sig_handlers, h, key, 0);
            lemma_registry_push_wf(p1.sig_handlers, h, key, orig.next_handler_key);
        }
        (SignalHandlerId { key }, actions)
    }

    /// Deregister the signal handler with the ID `handler_id`: drop it
    /// from the bookkeeping and have the connection remove the handler
    /// and its match rule. Returns `true` when the handler was found;
    /// a second call with the same ID returns `false`.
    pub fn disconnect_signal(&mut self, handler_id: SignalHandlerId) -> (r: (bool, Vec<Action>))
        requires
            old(self).wf(),
        ensures
            r.0 == registry_contains(old(self)@.sig_handlers, handler_id@),
            final(self)@ == (ProxyModel {
                sig_handlers: registry_remove(old(self)@.sig_handlers, handler_id@),
                ..old(self)@
            }),
            actions_view(r.1@) == (match hidx_from(old(self)@.sig_handlers, handler_id@, 0) {
                Some(i) => seq![
                    ActionModel::RemoveMatch(old(self)@.sig_handlers[i].expr),
                ],
                None => Seq::<ActionModel>::empty(),
            }),
            !registry_contains(final(self)@.sig_handlers, handler_id@),
            final(self).wf(),
    {
        let ghost hs = old(self)@.sig_handlers;
        let key = handler_id.key;
        let n = self.sig_handlers.len();
        let mut j: usize = 0;
        while j < n
            invariant
                j <= n,
                n == self.sig_handlers@.len(),
                old(self).wf(),
                self@ == old(self)@,
                self.sig_handlers@ == old(self).sig_handlers@,
                hs == registry_view(self.sig_handlers@),
                key == handler_id@,
                hidx_from(hs, key, 0) == hidx_from(hs, key, j as int),
            decreases n - j,
        {
            proof {
                assert(hs[j as int] == self.sig_handlers@[j as int]@);
            }
            if self.sig_handlers[j].key == key {
                proof {
                    assert(hidx_from(hs, key, j as int) == Some(j as int));
                }
                let e = self.sig_handlers.remove(j);
                let mut actions: Vec<Action> = Vec::new();
                actions.push(Action::RemoveMatch(e.expr));
                proof {
                    lemma_registry_view_remove(old(self).sig_handlers@, j as int);
                    lemma_registry_remove_gone(hs, old(self)@.next_handler_key, key);
                    lemma_registry_remove_wf(hs, old(self)@.next_handler_key, key);
                    assert(self@.sig_handlers =~= registry_remove(hs, key));
                    assert(self@.sig_handlers == registry_remove(hs, key));
                    assert(actions_view(actions@) =~= seq![
                        ActionModel::RemoveMatch(hs[j as int].expr),
                    ]);
                }
                return (true, actions);
            }
            j = j + 1;
        }
        proof {
            assert(registry_remove(hs, key) =~= hs);
        }
        (false, Vec::new())
    }

    /// Create a stream for the signals named `signal_name`, or for all of
    /// this interface's signals when `None`: ensure owner tracking, build
    /// and install the stream's match rule, and, for a well-known
    /// destination, send `GetNameOwner` — `query_serial` is the outbound
    /// serial the connection assigns to it, which the stream uses to
    /// recognise the reply.
    pub fn receive_signals(&mut self, signal_name: Option<&MemberName>, query_serial: u32) -> (r: (
        SignalStream,
        Vec<Action>,
    ))
        requires
            old(self).wf(),
        ensures
            final(self)@ == track_owner_spec(old(self)@),
            r.0@ == receive_signals_stream_spec(
                old(self)@,
                match signal_name {
                    Some(m) => Some(m@),
                    None => None,
                },
                query_serial,
            ),
            actions_view(r.1@) == receive_signals_actions(
                old(self)@,
                match signal_name {
                    Some(m) => Some(m@),
                    None => None,
                },
                query_serial,
            ),
            final(self).wf(),
    {
        let ghost orig = old(self)@;
        let ghost mview: Option<Seq<char>> = match signal_name {
            Some(m) => Some(m@),
            None => None,
        };
        let mut actions: Vec<Action> = Vec::new();
        match self.destination_unique_name() {
            Some(a) => actions.push(a),
            None => {},
        }
        let member_str: Option<&str> = match signal_name {
            Some(m) => Some(m.as_str()),
            None => None,
        };
        let expr = build_signal_expr(
            self.destination.as_str(),
            self.path.as_str(),
            self.interface.as_str(),
            member_str,
        );
        actions.push(Action::AddMatch(expr.clone()));
        let member_owned: Option<String> = match signal_name {
            Some(m) => Some(m.as_str().to_owned()),
            None => None,
        };
        let stream: SignalStream;
        if self.destination.is_unique() {
            stream = SignalStream::make(
                expr,
                self.path.as_str().to_owned(),
                self.interface.as_str().to_owned(),
                member_owned,
                None,
                None,
                Some(self.destination.as_str().to_owned()),
            );
        } else {
            let mut body: Vec<Value> = Vec::new();
            body.push(Value::Str(self.destination.as_str().to_owned()));
            let query = Message::method_call(
                query_serial,
                String::from_str("org.freedesktop.DBus"),
                String::from_str("/org/freedesktop/DBus"),
                String::from_str("org.freedesktop.DBus"),
                String::from_str("GetNameOwner"),
                body,
                false,
            );
            proof {
                assert(query@.body =~= seq![ValueModel::Str(orig.destination)]);
            }
            actions.push(Action::SendMessage(query));
            stream = SignalStream::make(
                expr,
                self.path.as_str().to_owned(),
                self.interface.as_str().to_owned(),
                member_owned,
                Some(self.destination.as_str().to_owned()),
                Some(query_serial),
                None,
            );
        }
        proof {
            assert(actions_view(actions@) =~= receive_signals_actions(orig, mview, query_serial));
        }
        (stream, actions)
    }

    /// Create a stream for the signals named `signal_name`.
    pub fn receive_signal(&mut self, signal_name: &MemberName, query_serial: u32) -> (r: (
        SignalStream,
        Vec<Action>,
    ))
        requires
            old(self).wf(),
        ensures
            final(self)@ == track_owner_spec(old(self)@),
            r.0@ == receive_signals_stream_spec(old(self)@, Some(signal_name@), query_serial),
            actions_view(r.1@) == receive_signals_actions(
                old(self)@,
                Some(signal_name@),
                query_serial,
            ),
            final(self).wf(),
    {
        self.receive_signals(Some(signal_name), query_serial)
    }

    /// Create a stream for every signal this service emits on this
    /// interface.
    pub fn receive_all_signals(&mut self, query_serial: u32) -> (r: (SignalStream, Vec<Action>))
        requires
            old(self).wf(),
        ensures
            final(self)@ == track_owner_spec(old(self)@),
            r.0@ == receive_signals_stream_spec(old(self)@, None, query_serial),
            actions_view(r.1@) == receive_signals_actions(old(self)@, None, query_serial),
            final(self).wf(),
    {
        self.receive_signals(None, query_serial)
    }

    /// What the proxy's drop owes the bus: queue the removal of every
    /// signal handler still registered (the connection drops each
    /// handler's match rule with it), then of the owner-tracker rule if
    /// one was installed. Together with [`Proxy::disconnect_signal`] and
    /// the streams' own teardown this settles every rule this proxy
    /// added; see [`lemma_match_rule_parity`].
    pub fn teardown(&self) -> (acts: Vec<Action>)
        ensures
            actions_view(acts@) == teardown_actions(self@),
    {
        let mut acts: Vec<Action> = Vec::new();
        let n = self.sig_handlers.len();
        let mut j: usize = 0;
        while j < n
            invariant
                j <= n,
                n == self.sig_handlers@.len(),
                actions_view(acts@) =~= handler_removals(self@.sig_handlers).take(j as int),
            decreases n - j,
        {
            proof {
                assert(self@.sig_handlers[j as int] == self.sig_handlers@[j as int]@);
                assert(handler_removals(self@.sig_handlers).take(j + 1) =~= handler_removals(
                    self@.sig_handlers,
                ).take(j as int).push(
                    ActionModel::QueueRemoveSignalHandler(self@.sig_handlers[j as int].key),
                ));
            }
            acts.push(Action::QueueRemoveSignalHandler(self.sig_handlers[j].key));
            j = j + 1;
        }
        proof {
            assert(handler_removals(self@.sig_handlers).take(n as int) =~= handler_removals(
                self@.sig_handlers,
            ));
        }
        match &self.dest_name_watcher {
            Some(e) => {
                acts.push(Action::QueueRemoveMatch(e.clone()));
                proof {
                    assert(actions_view(acts@) =~= teardown_actions(self@));
                }
            },
            None => {
                proof {
                    assert(actions_view(acts@) =~= teardown_actions(self@));
                }
            },
        }
        acts
    }
}

impl Proxy {
    /// Interpret the reply to a method call: a method return yields its
    /// body, an error message is surfaced as [`Error::Method`], anything
    /// else is an invalid reply.
    pub fn call_reply(reply: Message) -> (r: Result<Vec<Value>, Error>)
        ensures
            reply@.kind == MessageKind::MethodReturn ==> (r matches Ok(b) && b@.map_values(
                |v: Value| v@,
            ) == reply@.body),
            reply@.kind == MessageKind::Error ==> r == Err::<Vec<Value>, Error>(Error::Method),
            reply@.kind != MessageKind::MethodReturn && reply@.kind != MessageKind::Error ==> r
                == Err::<Vec<Value>, Error>(Error::InvalidReply),
    {
        match reply.kind {
            MessageKind::MethodReturn => Ok(reply.body),
            MessageKind::Error => Err(Error::Method),
            _ => Err(Error::InvalidReply),
        }
    }

    /// Interpret a `Properties.Get` reply: its body is one value.
    pub fn get_property_reply(reply: Message) -> (r: Result<Value, Error>)
        ensures
            reply@.kind == MessageKind::MethodReturn && reply@.body.len() == 1 ==> (r matches Ok(v)
                && v@ == reply@.body[0]),
            reply@.kind == MessageKind::MethodReturn && reply@.body.len() != 1 ==> r == Err::<
                Value,
                Error,
            >(Error::InvalidReply),
            reply@.kind == MessageKind::Error ==> r == Err::<Value, Error>(Error::Method),
            reply@.kind != MessageKind::MethodReturn && reply@.kind != MessageKind::Error ==> r
                == Err::<Value, Error>(Error::InvalidReply),
    {
        let mut body = match Self::call_reply(reply) {
            Ok(b) => b,
            Err(e) => {
                return Err(e);
            },
        };
        if body.len() != 1 {
            return Err(Error::InvalidReply);
        }
        match body.pop() {
            Some(v) => Ok(v),
            None => Err(Error::InvalidReply),
        }
    }

    /// Interpret an `Introspect` reply: its body is one XML string.
    pub fn introspect_reply(reply: Message) -> (r: Result<String, Error>)
        ensures
            reply@.kind == MessageKind::MethodReturn ==> (match r {
                Ok(s) => reply@.body.len() == 1 && reply@.body[0] == ValueModel::Str(s@),
                Err(e) => e == Error::InvalidReply && (reply@.body.len() != 1 || !(
                reply@.body[0] is Str)),
            }),
            reply@.kind == MessageKind::Error ==> r == Err::<String, Error>(Error::Method),
            reply@.kind != MessageKind::MethodReturn && reply@.kind != MessageKind::Error ==> r
                == Err::<String, Error>(Error::InvalidReply),
    {
        let v = match Self::get_property_reply(reply) {
            Ok(v) => v,
            Err(e) => {
                return Err(e);
            },
        };
        match v.into_string() {
            Ok(s) => Ok(s),
            Err(e) => Err(e),
        }
    }

    /// The `Properties.Get` call for `property_name` on this proxy's
    /// interface.
    pub fn get_property_request(&self, property_name: &str, serial: u32) -> (m: Message)
        ensures
            m@ == method_call_model(
                serial,
                self@.destination,
                self@.path,
                "org.freedesktop.DBus.Properties"@,
                "Get"@,
                seq![ValueModel::Str(self@.interface), ValueModel::Str(property_name@)],
                false,
            ),
    {
        let mut body: Vec<Value> = Vec::new();
        body.push(Value::Str(self.interface.as_str().to_owned()));
        body.push(Value::Str(property_name.to_owned()));
        proof {
            assert(body@.map_values(|v: Value| v@) =~= seq![
                ValueModel::Str(self@.interface),
                ValueModel::Str(property_name@),
            ]);
        }
        Message::method_call(
            serial,
            self.destination.as_str().to_owned(),
            self.path.as_str().to_owned(),
            String::from_str("org.freedesktop.DBus.Properties"),
            String::from_str("Get"),
            body,
            false,
        )
    }

    /// The `Properties.Set` call: does not touch the cache; the update
    /// arrives through `PropertiesChanged`.
    pub fn set_property_request(&self, property_name: &str, value: Value, serial: u32) -> (m:
        Message)
        ensures
            m@ == method_call_model(
                serial,
                self@.destination,
                self@.path,
                "org.freedesktop.DBus.Properties"@,
                "Set"@,
                seq![
                    ValueModel::Str(self@.interface),
                    ValueModel::Str(property_name@),
                    value@,
                ],
                false,
            ),
    {
        let mut body: Vec<Value> = Vec::new();
        body.push(Value::Str(self.interface.as_str().to_owned()));
        body.push(Value::Str(property_name.to_owned()));
        let ghost vm = value@;
        body.push(value);
        proof {
            assert(body@.map_values(|v: Value| v@) =~= seq![
                ValueModel::Str(self@.interface),
                ValueModel::Str(property_name@),
                vm,
            ]);
        }
        Message::method_call(
            serial,
            self.destination.as_str().to_owned(),
            self.path.as_str().to_owned(),
            String::from_str("org.freedesktop.DBus.Properties"),
            String::from_str("Set"),
            body,
            false,
        )
    }

    /// The `Properties.GetAll` call whose reply seeds the cache.
    pub fn get_all_request(&self, serial: u32) -> (m: Message)
        ensures
            m@ == method_call_model(
                serial,
                self@.destination,
                self@.path,
                "org.freedesktop.DBus.Properties"@,
                "GetAll"@,
                seq![ValueModel::Str(self@.interface)],
                false,
            ),
    {
        let mut body: Vec<Value> = Vec::new();
        body.push(Value::Str(self.interface.as_str().to_owned()));
        proof {
            assert(body@.map_values(|v: Value| v@) =~= seq![ValueModel::Str(self@.interface)]);
        }
        Message::method_call(
            serial,
            self.destination.as_str().to_owned(),
            self.path.as_str().to_owned(),
            String::from_str("org.freedesktop.DBus.Properties"),
            String::from_str("GetAll"),
            body,
            false,
        )
    }

    /// The `Introspectable.Introspect` call for this object; the reply
    /// carries the XML description.
    pub fn introspect_request(&self, serial: u32) -> (m: Message)
        ensures
            m@ == method_call_model(
                serial,
                self@.destination,
                self@.path,
                "org.freedesktop.DBus.Introspectable"@,
                "Introspect"@,
                Seq::empty(),
                false,
            ),
    {
        let body: Vec<Value> = Vec::new();
        proof {
            assert(body@.map_values(|v: Value| v@) =~= Seq::<ValueModel>::empty());
        }
        Message::method_call(
            serial,
            self.destination.as_str().to_owned(),
            self.path.as_str().to_owned(),
            String::from_str("org.freedesktop.DBus.Introspectable"),
            String::from_str("Introspect"),
            body,
            false,
        )
    }
}

/// The proxy after registering a signal handler: owner tracking ensured,
/// the handler recorded under the next key, the key allocator advanced.
pub open spec fn connect_signal_spec(p: ProxyModel, member: Seq<char>) -> ProxyModel {
    let p1 = track_owner_spec(p);
    ProxyModel {
        sig_handlers: p1.sig_handlers.push(
            HandlerModel {
                key: p1.next_handler_key,
                expr: signal_match_expr(p.destination, p.path, p.interface, Some(member)),
            },
        ),
        next_handler_key: (p1.next_handler_key + 1) as u64,
        ..p1
    }
}

/// The bus-side actions of registering a signal handler.
pub open spec fn connect_signal_actions(p: ProxyModel, member: Seq<char>) -> Seq<ActionModel> {
    let add = ActionModel::AddMatch(
        signal_match_expr(p.destination, p.path, p.interface, Some(member)),
    );
    if track_owner_installs(p) {
        seq![ActionModel::AddMatch(owner_match_expr(p.destination)), add]
    } else {
        seq![add]
    }
}

/// The stream a subscription yields: for a unique destination the owner
/// is the destination itself; for a well-known one the stream waits for
/// the `GetNameOwner` reply under `query_serial`.
pub open spec fn receive_signals_stream_spec(
    p: ProxyModel,
    member: Option<Seq<char>>,
    query_serial: u32,
) -> StreamModel {
    StreamModel {
        expr: signal_match_expr(p.destination, p.path, p.interface, member),
        path: p.path,
        interface: p.interface,
        member: member,
        src_bus_name: if p.dest_is_unique {
            None
        } else {
            Some(p.destination)
        },
        src_query: if p.dest_is_unique {
            None
        } else {
            Some(query_serial)
        },
        src_unique_name: if p.dest_is_unique {
            Some(p.destination)
        } else {
            None
        },
    }
}

/// The bus-side actions of creating a stream: the owner tracker if it was
/// not yet installed, the stream's match rule, and the `GetNameOwner`
/// query for a well-known destination.
pub open spec fn receive_signals_actions(
    p: ProxyModel,
    member: Option<Seq<char>>,
    query_serial: u32,
) -> Seq<ActionModel> {
    let owner: Seq<ActionModel> = if track_owner_installs(p) {
        seq![ActionModel::AddMatch(owner_match_expr(p.destination))]
    } else {
        Seq::empty()
    };
    let add = seq![
        ActionModel::AddMatch(signal_match_expr(p.destination, p.path, p.interface, member)),
    ];
    let query: Seq<ActionModel> = if p.dest_is_unique {
        Seq::empty()
    } else {
        seq![
            ActionModel::SendMessage(
                method_call_model(
                    query_serial,
                    "org.freedesktop.DBus"@,
                    "/org/freedesktop/DBus"@,
                    "org.freedesktop.DBus"@,
                    "GetNameOwner"@,
                    seq![ValueModel::Str(p.destination)],
                    false,
                ),
            ),
        ]
    };
    owner + add + query
}

/// The queued removals the proxy's drop owes.
pub open spec fn teardown_actions(p: ProxyModel) -> Seq<ActionModel> {
    handler_removals(p.sig_handlers) + (match p.dest_name_watcher {
        Some(e) => seq![ActionModel::QueueRemoveMatch(e)],
        None => Seq::<ActionModel>::empty(),
    })
}

/// One queued handler removal per registered handler, in order.
pub open spec fn handler_removals(hs: Seq<HandlerModel>) -> Seq<ActionModel> {
    hs.map_values(|h: HandlerModel| ActionModel::QueueRemoveSignalHandler(h.key))
}

/// A lookup in `hs.push(h)` finds what `hs` found, or `h` at the end.
proof fn lemma_hidx_push(hs: Seq<HandlerModel>, h: HandlerModel, key: u64, lo: int)
    requires
        0 <= lo <= hs.len(),
    ensures
        hidx_from(hs.push(h), key, lo) == (match hidx_from(hs, key, lo) {
            Some(i) => Some(i),
            None => if h.key == key {
                Some(hs.len() as int)
            } else {
                None
            },
        }),
    decreases hs.len() - lo,
{
    if lo == hs.len() {
        assert(hs.push(h)[lo] == h);
    } else {
        assert(hs.push(h)[lo] == hs[lo]);
        lemma_hidx_push(hs, h, key, lo + 1);
    }
}

/// Pushing the allocator's next key preserves registry well-formedness.
proof fn lemma_registry_push_wf(hs: Seq<HandlerModel>, h: HandlerModel, key: u64, next: u64)
    requires
        registry_wf(hs, next),
        h.key == key,
        key == next,
        next < u64::MAX,
    ensures
        registry_wf(hs.push(h), (next + 1) as u64),
{
    let hs2 = hs.push(h);
    assert forall|a: int, b: int| 0 <= a < b < hs2.len() implies hs2[a].key != hs2[b].key by {
        if b < hs.len() {
            assert(hs2[a] == hs[a] && hs2[b] == hs[b]);
        } else {
            assert(hs2[b] == h && hs2[a] == hs[a]);
        }
    }
    assert forall|a: int| 0 <= a < hs2.len() implies #[trigger] hs2[a].key < (next + 1) as u64 by {
        if a < hs.len() {
            assert(hs2[a] == hs[a]);
        } else {
            assert(hs2[a] == h);
        }
    }
}

/// `registry_view` commutes with an element removal.
proof fn lemma_registry_view_remove(s: Seq<SignalHandlerEntry>, i: int)
    requires
        0 <= i < s.len(),
    ensures
        registry_view(s.remove(i)) =~= registry_view(s).remove(i),
{
}

/// Removal keeps registry well-formedness.
proof fn lemma_registry_remove_wf(hs: Seq<HandlerModel>, next: u64, key: u64)
    requires
        registry_wf(hs, next),
    ensures
        registry_wf(registry_remove(hs, key), next),
{
    lemma_hidx_props(hs, key, 0);
    match hidx_from(hs, key, 0) {
        Some(i) => {
            let hs2 = hs.remove(i);
            assert forall|a: int, b: int| 0 <= a < b < hs2.len() implies hs2[a].key != hs2[b].key by {
                let ao: int = if a < i {
                    a
                } else {
                    a + 1
                };
                let bo: int = if b < i {
                    b
                } else {
                    b + 1
                };
                assert(hs2[a] == hs[ao] && hs2[b] == hs[bo]);
            }
            assert forall|a: int| 0 <= a < hs2.len() implies #[trigger] hs2[a].key < next by {
                let ao: int = if a < i {
                    a
                } else {
                    a + 1
                };
                assert(hs2[a] == hs[ao]);
            }
        },
        None => {},
    }
}

/// Disconnect idempotence: removing a handler removes it for good — with
/// distinct keys, the removed key is no longer registered, so a second
/// removal of the same key finds nothing and reports `false`. The same
/// holds of property-changed handlers; see
/// [`lemma_disconnect_property_changed_idempotent`].
pub proof fn lemma_disconnect_signal_idempotent(hs: Seq<HandlerModel>, next: u64, key: u64)
    requires
        registry_wf(hs, next),
    ensures
        !registry_contains(registry_remove(hs, key), key),
{
    lemma_registry_remove_gone(hs, next, key);
}

/// After removal the key is absent from the registry.
proof fn lemma_registry_remove_gone(hs: Seq<HandlerModel>, next: u64, key: u64)
    requires
        registry_wf(hs, next),
    ensures
        !registry_contains(registry_remove(hs, key), key),
{
    lemma_hidx_props(hs, key, 0);
    match hidx_from(hs, key, 0) {
        Some(i) => {
            let hs2 = hs.remove(i);
            assert forall|a: int| 0 <= a < hs2.len() implies hs2[a].key != key by {
                let ao: int = if a < i {
                    a
                } else {
                    a + 1
                };
                assert(hs2[a] == hs[ao]);
            }
            lemma_hidx_props(hs2, key, 0);
            match hidx_from(hs2, key, 0) {
                Some(w) => {
                    assert(false);
                },
                None => {},
            }
        },
        None => {},
    }
}

/// The match rules of the registered handlers, as a multiset.
pub open spec fn exprs_multiset(hs: Seq<HandlerModel>) -> Multiset<Seq<char>>
    decreases hs.len(),
{
    if hs.len() == 0 {
        Multiset::empty()
    } else {
        exprs_multiset(hs.drop_last()).insert(hs.last().expr)
    }
}

/// The owner-tracker rule, if installed, as a multiset.
pub open spec fn watcher_multiset(w: Option<Seq<char>>) -> Multiset<Seq<char>> {
    match w {
        Some(e) => Multiset::empty().insert(e),
        None => Multiset::empty(),
    }
}

/// Every match rule the proxy still owns: its handlers' rules and the
/// owner tracker's.
pub open spec fn live_rules(p: ProxyModel) -> Multiset<Seq<char>> {
    exprs_multiset(p.sig_handlers).add(watcher_multiset(p.dest_name_watcher))
}

/// One rule-affecting operation of a proxy's lifetime.
pub enum ProxyOp {
    /// [`Proxy::destination_unique_name`].
    TrackOwner,
    /// [`Proxy::connect_signal`] with this member.
    ConnectSignal(Seq<char>),
    /// [`Proxy::disconnect_signal`] with this key.
    DisconnectSignal(u64),
    /// [`Proxy::receive_signals`] with this member filter and serial.
    ReceiveSignals(Option<Seq<char>>, u32),
}

/// The proxy state after one operation, as the operations' contracts
/// state it.
pub open spec fn apply_op(p: ProxyModel, op: ProxyOp) -> ProxyModel {
    match op {
        ProxyOp::TrackOwner => track_owner_spec(p),
        ProxyOp::ConnectSignal(m) => connect_signal_spec(p, m),
        ProxyOp::DisconnectSignal(k) => ProxyModel {
            sig_handlers: registry_remove(p.sig_handlers, k),
            ..p
        },
        ProxyOp::ReceiveSignals(_, _) => track_owner_spec(p),
    }
}

/// The owner-tracker rule an operation installs, if it does.
pub open spec fn owner_adds(p: ProxyModel) -> Multiset<Seq<char>> {
    if track_owner_installs(p) {
        Multiset::empty().insert(owner_match_expr(p.destination))
    } else {
        Multiset::empty()
    }
}

/// The match rules an operation has added on the bus.
pub open spec fn op_adds(p: ProxyModel, op: ProxyOp) -> Multiset<Seq<char>> {
    match op {
        ProxyOp::TrackOwner => owner_adds(p),
        ProxyOp::ConnectSignal(m) => owner_adds(p).insert(
            signal_match_expr(p.destination, p.path, p.interface, Some(m)),
        ),
        ProxyOp::DisconnectSignal(_) => Multiset::empty(),
        ProxyOp::ReceiveSignals(m, _) => owner_adds(p).insert(
            signal_match_expr(p.destination, p.path, p.interface, m),
        ),
    }
}

/// The match rules whose removal an operation settles: a disconnect
/// removes the handler's rule at once; a stream's rule is removed by the
/// stream's own drop ([`SignalStream::teardown`]), one for one.
pub open spec fn op_removes(p: ProxyModel, op: ProxyOp) -> Multiset<Seq<char>> {
    match op {
        ProxyOp::TrackOwner => Multiset::empty(),
        ProxyOp::ConnectSignal(_) => Multiset::empty(),
        ProxyOp::DisconnectSignal(k) => match hidx_from(p.sig_handlers, k, 0) {
            Some(i) => Multiset::empty().insert(p.sig_handlers[i].expr),
            None => Multiset::empty(),
        },
        ProxyOp::ReceiveSignals(m, _) => Multiset::empty().insert(
            signal_match_expr(p.destination, p.path, p.interface, m),
        ),
    }
}

/// An element's rule is counted in the handlers' multiset.
proof fn lemma_exprs_multiset_count_at(hs: Seq<HandlerModel>, i: int)
    requires
        0 <= i < hs.len(),
    ensures
        exprs_multiset(hs).count(hs[i].expr) >= 1,
    decreases hs.len(),
{
    broadcast use vstd::multiset::group_multiset_axioms;

    if i == hs.len() - 1 {
    } else {
        lemma_exprs_multiset_count_at(hs.drop_last(), i);
        assert(hs.drop_last()[i] == hs[i]);
    }
}

/// Pushing a handler inserts its rule.
proof fn lemma_exprs_multiset_push(hs: Seq<HandlerModel>, h: HandlerModel)
    ensures
        exprs_multiset(hs.push(h)) == exprs_multiset(hs).insert(h.expr),
{
    assert(hs.push(h).drop_last() =~= hs);
    assert(hs.push(h).last() == h);
}

/// Removing a handler removes its rule.
proof fn lemma_exprs_multiset_remove(hs: Seq<HandlerModel>, i: int)
    requires
        0 <= i < hs.len(),
    ensures
        exprs_multiset(hs.remove(i)) =~= exprs_multiset(hs).remove(hs[i].expr),
    decreases hs.len(),
{
    broadcast use vstd::multiset::group_multiset_axioms;

    if i == hs.len() - 1 {
        assert(hs.remove(i) =~= hs.drop_last());
        assert(exprs_multiset(hs) == exprs_multiset(hs.drop_last()).insert(hs[i].expr));
    } else {
        let d = hs.drop_last();
        assert(hs.remove(i).drop_last() =~= d.remove(i));
        assert(hs.remove(i).last() == hs.last());
        assert(d[i] == hs[i]);
        lemma_exprs_multiset_remove(d, i);
        lemma_exprs_multiset_count_at(d, i);
        assert(exprs_multiset(hs.remove(i)) == exprs_multiset(d.remove(i)).insert(hs.last().expr));
        assert(exprs_multiset(hs) == exprs_multiset(d).insert(hs.last().expr));
        assert forall|y: Seq<char>|
            exprs_multiset(hs.remove(i)).count(y) == exprs_multiset(hs).remove(
                hs[i].expr,
            ).count(y) by {}
    }
}

/// One operation's bookkeeping balances: the rules it leaves live plus
/// those it settles equal the rules that were live plus those it added.
proof fn lemma_op_conservation(p: ProxyModel, op: ProxyOp)
    ensures
        live_rules(apply_op(p, op)).add(op_removes(p, op)) =~= live_rules(p).add(op_adds(p, op)),
{
    broadcast use vstd::multiset::group_multiset_axioms;

    match op {
        ProxyOp::TrackOwner => {},
        ProxyOp::ConnectSignal(m) => {
            let p1 = track_owner_spec(p);
            let h = HandlerModel {
                key: p1.next_handler_key,
                expr: signal_match_expr(p.destination, p.path, p.interface, Some(m)),
            };
            lemma_exprs_multiset_push(p1.sig_handlers, h);
        },
        ProxyOp::DisconnectSignal(k) => {
            lemma_hidx_props(p.sig_handlers, k, 0);
            match hidx_from(p.sig_handlers, k, 0) {
                Some(i) => {
                    lemma_exprs_multiset_remove(p.sig_handlers, i);
                    lemma_exprs_multiset_count_at(p.sig_handlers, i);
                },
                None => {},
            }
        },
        ProxyOp::ReceiveSignals(m, _) => {},
    }
}

/// The proxy state after the first `n` operations of `ops`.
pub open spec fn apply_ops(p: ProxyModel, ops: Seq<ProxyOp>, n: int) -> ProxyModel
    decreases n,
{
    if n <= 0 {
        p
    } else {
        apply_op(apply_ops(p, ops, n - 1), ops[n - 1])
    }
}

/// The rules added on the bus by the first `n` operations.
pub open spec fn ops_adds(p: ProxyModel, ops: Seq<ProxyOp>, n: int) -> Multiset<Seq<char>>
    decreases n,
{
    if n <= 0 {
        Multiset::empty()
    } else {
        ops_adds(p, ops, n - 1).add(op_adds(apply_ops(p, ops, n - 1), ops[n - 1]))
    }
}

/// The rules whose removal the first `n` operations settled.
pub open spec fn ops_removes(p: ProxyModel, ops: Seq<ProxyOp>, n: int) -> Multiset<Seq<char>>
    decreases n,
{
    if n <= 0 {
        Multiset::empty()
    } else {
        ops_removes(p, ops, n - 1).add(op_removes(apply_ops(p, ops, n - 1), ops[n - 1]))
    }
}

/// Match-rule parity: over any run of subscription operations starting
/// from a proxy that owns no rules, the rules added equal the rules
/// already settled plus the rules still live. [`Proxy::teardown`] then
/// queues exactly one removal per live rule — one per remaining handler,
/// whose rule the connection drops with it, and one for the owner
/// tracker — so every successful `add_match` this proxy initiated is
/// answered by exactly one removal, by disconnect, stream drop or proxy
/// drop.
pub proof fn lemma_match_rule_parity(p: ProxyModel, ops: Seq<ProxyOp>, n: int)
    requires
        live_rules(p) == Multiset::<Seq<char>>::empty(),
    ensures
        ops_adds(p, ops, n) =~= ops_removes(p, ops, n).add(live_rules(apply_ops(p, ops, n))),
    decreases n,
{
    broadcast use vstd::multiset::group_multiset_axioms;

    if n <= 0 {
    } else {
        lemma_match_rule_parity(p, ops, n - 1);
        lemma_op_conservation(apply_ops(p, ops, n - 1), ops[n - 1]);
        assert forall|y: Seq<char>|
            ops_adds(p, ops, n).count(y) == ops_removes(p, ops, n).add(
                live_rules(apply_ops(p, ops, n)),
            ).count(y) by {
            assert(ops_adds(p, ops, n - 1).count(y) == ops_removes(p, ops, n - 1).add(
                live_rules(apply_ops(p, ops, n - 1)),
            ).count(y));
            assert(live_rules(apply_ops(p, ops, n)).add(
                op_removes(apply_ops(p, ops, n - 1), ops[n - 1]),
            ).count(y) == live_rules(apply_ops(p, ops, n - 1)).add(
                op_adds(apply_ops(p, ops, n - 1), ops[n - 1]),
            ).count(y));
        }
    }
}

/// What [`Proxy::get_property`] decided.
#[derive(Debug, Clone, PartialEq, Eq)]
pub enum GetPropertyOutcome {
    /// The cache held a value; no bus traffic is needed.
    Cached(Value),
    /// The fetched value is returned (and cached when caching is on).
    Fetched(Value),
    /// The cache cannot answer: perform the bus-side `Get` and call again.
    NeedFetch,
}

/// The mathematical shape of a [`GetPropertyOutcome`].
pub enum GetOutcomeModel {
    Cached(ValueModel),
    Fetched(ValueModel),
    NeedFetch,
}

impl View for GetPropertyOutcome {
    type V = GetOutcomeModel;

    open spec fn view(&self) -> GetOutcomeModel {
        match self {
            GetPropertyOutcome::Cached(v) => GetOutcomeModel::Cached(v@),
            GetPropertyOutcome::Fetched(v) => GetOutcomeModel::Fetched(v@),
            GetPropertyOutcome::NeedFetch => GetOutcomeModel::NeedFetch,
        }
    }
}

/// The proxy after [`Proxy::cache_properties`]: the handler key recorded
/// write-once, and the cache seeded from the `GetAll` pairs if any.
pub open spec fn cache_properties_spec(
    p: ProxyModel,
    get_all: Option<Seq<(Seq<char>, ValueModel)>>,
) -> ProxyModel {
    let p1 = if p.cache_task is Some {
        p
    } else {
        ProxyModel {
            cache_task: Some(p.next_handler_key),
            next_handler_key: (p.next_handler_key + 1) as u64,
            ..p
        }
    };
    match get_all {
        Some(ps) => ProxyModel {
            cache: CacheModel {
                entries: apply_seed(p1.cache.entries, ps, ps.len() as int),
                next_key: p1.cache.next_key,
            },
            ..p1
        },
        None => p1,
    }
}

/// A stream of the values a cached property takes: the name keys into the
/// shared cache, re-looked-up on every poll.
pub struct PropertyStream {
    name: String,
}

impl View for PropertyStream {
    type V = Seq<char>;

    closed spec fn view(&self) -> Seq<char> {
        self.name@
    }
}

impl PropertyStream {
    /// The property this stream watches.
    pub fn name(&self) -> (r: &str)
        ensures
            r@ == self@,
    {
        self.name.as_str()
    }

    /// The value to yield on a wake-up: the current cached value, absent
    /// when the property was invalidated. Two notifications between polls
    /// collapse into the latest value.
    pub fn current(&self, proxy: &Proxy) -> (r: Option<Value>)
        ensures
            opt_value_view(r) == cached_value(proxy@.cache.entries, self@),
    {
        proxy.cached_property(self.name.as_str())
    }
}

} // verus!
