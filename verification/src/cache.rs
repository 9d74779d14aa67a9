//! The property cache.
//!
//! A proxy built with caching keeps the last-seen value of each property
//! of its interface, updates it from `PropertiesChanged` signals, and
//! dispatches per-property change callbacks. The cache stores entries in
//! the order properties were first seen; each entry holds the optional
//! value (absent means unknown or invalidated) and the keys of the change
//! callbacks registered for it, in insertion order.
//!
//! The cache itself never runs a callback: an update returns the list of
//! calls to make ([`CallbackCall`]), and the shell that owns the actual
//! callback closures awaits them after releasing its lock, so a callback
//! can re-enter the proxy without deadlock.

use vstd::prelude::*;

use crate::value::{opt_value_view, Value, ValueModel};

verus! {

/// One callback invocation owed after a cache update: the callback with
/// key `key`, registered for property `name`, is to be called with
/// `value` (`None` for an invalidation).
#[derive(Debug, Clone, PartialEq, Eq)]
pub struct CallbackCall {
    pub key: u64,
    pub name: String,
    pub value: Option<Value>,
}

/// The mathematical shape of a [`CallbackCall`].
pub struct CallModel {
    pub key: u64,
    pub name: Seq<char>,
    pub value: Option<ValueModel>,
}

impl View for CallbackCall {
    type V = CallModel;

    open spec fn view(&self) -> CallModel {
        CallModel { key: self.key, name: self.name@, value: opt_value_view(self.value) }
    }
}

/// The view of a list of callback calls.
pub open spec fn calls_view(cs: Seq<CallbackCall>) -> Seq<CallModel> {
    cs.map_values(|c: CallbackCall| c@)
}

/// One cached property: its name, its last-seen value if any, and the
/// keys of the change callbacks registered for it, in insertion order.
#[derive(Debug, Clone, PartialEq, Eq)]
pub struct PropertyEntry {
    pub name: String,
    pub value: Option<Value>,
    pub handlers: Vec<u64>,
}

/// The mathematical shape of a [`PropertyEntry`].
pub struct EntryModel {
    pub name: Seq<char>,
    pub value: Option<ValueModel>,
    pub handlers: Seq<u64>,
}

impl View for PropertyEntry {
    type V = EntryModel;

    open spec fn view(&self) -> EntryModel {
        EntryModel {
            name: self.name@,
            value: opt_value_view(self.value),
            handlers: self.handlers@,
        }
    }
}

/// The view of the entry list.
pub open spec fn entries_view(es: Seq<PropertyEntry>) -> Seq<EntryModel> {
    es.map_values(|e: PropertyEntry| e@)
}

/// The view of an invalidated-names list.
pub open spec fn names_view(v: Seq<String>) -> Seq<Seq<char>> {
    v.map_values(|s: String| s@)
}

/// The view of a changed-properties list.
pub open spec fn pairs_view(v: Seq<(String, Value)>) -> Seq<(Seq<char>, ValueModel)> {
    v.map_values(|p: (String, Value)| (p.0@, p.1@))
}

/// The index of the entry named `name`, scanning from position `lo`.
pub open spec fn find_from(s: Seq<EntryModel>, name: Seq<char>, lo: int) -> Option<int>
    decreases s.len() - lo,
{
    if lo < 0 || lo >= s.len() {
        None
    } else if s[lo].name == name {
        Some(lo)
    } else {
        find_from(s, name, lo + 1)
    }
}

/// The index of the entry named `name`, if any.
pub open spec fn find_entry(s: Seq<EntryModel>, name: Seq<char>) -> Option<int> {
    find_from(s, name, 0)
}

/// The cached value of property `name`: `None` when the entry is absent
/// or invalidated.
pub open spec fn cached_value(s: Seq<EntryModel>, name: Seq<char>) -> Option<ValueModel> {
    match find_entry(s, name) {
        Some(i) => s[i].value,
        None => None,
    }
}

/// The callback keys registered for property `name`; empty when the entry
/// is absent.
pub open spec fn handlers_of(s: Seq<EntryModel>, name: Seq<char>) -> Seq<u64> {
    match find_entry(s, name) {
        Some(i) => s[i].handlers,
        None => Seq::empty(),
    }
}

/// The calls owed to the callbacks `hs` of property `name` for new value
/// `v`, in registration order.
pub open spec fn calls_of(hs: Seq<u64>, name: Seq<char>, v: Option<ValueModel>) -> Seq<CallModel> {
    hs.map_values(|k: u64| CallModel { key: k, name: name, value: v })
}

/// Store `v` as the value of property `name`, creating the entry if it is
/// missing.
pub open spec fn set_one(s: Seq<EntryModel>, name: Seq<char>, v: Option<ValueModel>) -> Seq<
    EntryModel,
> {
    match find_entry(s, name) {
        Some(i) => s.update(i, EntryModel { value: v, ..s[i] }),
        None => s.push(EntryModel { name: name, value: v, handlers: Seq::empty() }),
    }
}

/// Create the entry for `name` if it is missing; an existing entry is
/// untouched.
pub open spec fn ensure_one(s: Seq<EntryModel>, name: Seq<char>) -> Seq<EntryModel> {
    match find_entry(s, name) {
        Some(_) => s,
        None => s.push(EntryModel { name: name, value: None, handlers: Seq::empty() }),
    }
}

/// One invalidation: an existing entry loses its value; a missing entry is
/// not created.
pub open spec fn invalidate_one(s: Seq<EntryModel>, name: Seq<char>) -> Seq<EntryModel> {
    match find_entry(s, name) {
        Some(i) => s.update(i, EntryModel { value: None, ..s[i] }),
        None => s,
    }
}

/// The calls owed for one invalidation: each callback of an existing
/// entry, with argument `None`.
pub open spec fn invalidate_calls_one(s: Seq<EntryModel>, name: Seq<char>) -> Seq<CallModel> {
    match find_entry(s, name) {
        Some(i) => calls_of(s[i].handlers, s[i].name, None),
        None => Seq::empty(),
    }
}

/// One change: the entry takes the new value, and is created if missing.
pub open spec fn change_one(s: Seq<EntryModel>, name: Seq<char>, v: ValueModel) -> Seq<EntryModel> {
    set_one(s, name, Some(v))
}

/// The calls owed for one change: each callback of the entry, with the new
/// value. A freshly created entry has no callbacks.
pub open spec fn change_calls_one(s: Seq<EntryModel>, name: Seq<char>, v: ValueModel) -> Seq<
    CallModel,
> {
    calls_of(handlers_of(s, name), name, Some(v))
}

/// The entries after the first `n` invalidations of `inv`, applied in
/// order.
pub open spec fn apply_invalidated(s: Seq<EntryModel>, inv: Seq<Seq<char>>, n: int) -> Seq<
    EntryModel,
>
    decreases n,
{
    if n <= 0 {
        s
    } else {
        invalidate_one(apply_invalidated(s, inv, n - 1), inv[n - 1])
    }
}

/// The calls owed by the first `n` invalidations of `inv`, in order.
pub open spec fn invalidated_calls(s: Seq<EntryModel>, inv: Seq<Seq<char>>, n: int) -> Seq<
    CallModel,
>
    decreases n,
{
    if n <= 0 {
        Seq::empty()
    } else {
        invalidated_calls(s, inv, n - 1) + invalidate_calls_one(
            apply_invalidated(s, inv, n - 1),
            inv[n - 1],
        )
    }
}

/// The entries after the first `n` changes of `ch`, applied in order.
pub open spec fn apply_changed(
    s: Seq<EntryModel>,
    ch: Seq<(Seq<char>, ValueModel)>,
    n: int,
) -> Seq<EntryModel>
    decreases n,
{
    if n <= 0 {
        s
    } else {
        change_one(apply_changed(s, ch, n - 1), ch[n - 1].0, ch[n - 1].1)
    }
}

/// The calls owed by the first `n` changes of `ch`, in order.
pub open spec fn changed_calls(
    s: Seq<EntryModel>,
    ch: Seq<(Seq<char>, ValueModel)>,
    n: int,
) -> Seq<CallModel>
    decreases n,
{
    if n <= 0 {
        Seq::empty()
    } else {
        changed_calls(s, ch, n - 1) + change_calls_one(
            apply_changed(s, ch, n - 1),
            ch[n - 1].0,
            ch[n - 1].1,
        )
    }
}

/// The entries after one `PropertiesChanged` emission: invalidations
/// first, then changes, each list in order.
pub open spec fn update_entries(
    s: Seq<EntryModel>,
    ch: Seq<(Seq<char>, ValueModel)>,
    inv: Seq<Seq<char>>,
) -> Seq<EntryModel> {
    apply_changed(apply_invalidated(s, inv, inv.len() as int), ch, ch.len() as int)
}

/// The calls owed by one `PropertiesChanged` emission, in dispatch order.
pub open spec fn update_calls(
    s: Seq<EntryModel>,
    ch: Seq<(Seq<char>, ValueModel)>,
    inv: Seq<Seq<char>>,
) -> Seq<CallModel> {
    invalidated_calls(s, inv, inv.len() as int) + changed_calls(
        apply_invalidated(s, inv, inv.len() as int),
        ch,
        ch.len() as int,
    )
}

/// The entries after seeding the first `n` pairs of a `GetAll` result, in
/// order. Seeding overwrites: a change signal raced ahead of the seed is
/// re-applied by the next emission.
pub open spec fn apply_seed(s: Seq<EntryModel>, pairs: Seq<(Seq<char>, ValueModel)>, n: int) -> Seq<
    EntryModel,
>
    decreases n,
{
    if n <= 0 {
        s
    } else {
        set_one(apply_seed(s, pairs, n - 1), pairs[n - 1].0, Some(pairs[n - 1].1))
    }
}

/// Callback keys are pairwise distinct and below the allocator's next key.
pub open spec fn handlers_wf(hs: Seq<u64>, next: u64) -> bool {
    &&& forall|a: int, b: int| 0 <= a < b < hs.len() ==> hs[a] != hs[b]
    &&& forall|a: int| 0 <= a < hs.len() ==> #[trigger] hs[a] < next
}

/// Entry names are pairwise distinct, and every entry's callback keys are
/// well-formed.
pub open spec fn entries_wf(s: Seq<EntryModel>, next: u64) -> bool {
    &&& forall|i: int, j: int| 0 <= i < j < s.len() ==> s[i].name != s[j].name
    &&& forall|i: int| 0 <= i < s.len() ==> handlers_wf(#[trigger] s[i].handlers, next)
}

/// Where `find_from` points, and what its absence means.
pub proof fn lemma_find_from_props(s: Seq<EntryModel>, name: Seq<char>, lo: int)
    requires
        0 <= lo,
    ensures
        match find_from(s, name, lo) {
            Some(i) => lo <= i < s.len() && s[i].name == name && forall|j: int|
                lo <= j < i ==> s[j].name != name,
            None => forall|j: int| lo <= j < s.len() ==> s[j].name != name,
        },
    decreases s.len() - lo,
{
    if lo < 0 || lo >= s.len() {
    } else if s[lo].name == name {
    } else {
        lemma_find_from_props(s, name, lo + 1);
    }
}

/// Updating an entry without renaming it leaves every lookup unchanged.
pub proof fn lemma_find_from_update(
    s: Seq<EntryModel>,
    i: int,
    e: EntryModel,
    name: Seq<char>,
    lo: int,
)
    requires
        0 <= i < s.len(),
        e.name == s[i].name,
    ensures
        find_from(s.update(i, e), name, lo) == find_from(s, name, lo),
    decreases s.len() - lo,
{
    if lo < 0 || lo >= s.len() {
    } else {
        lemma_find_from_update(s, i, e, name, lo + 1);
    }
}

/// A lookup in `s.push(e)` finds what `s` found, or `e` at the end.
pub proof fn lemma_find_from_push(s: Seq<EntryModel>, e: EntryModel, name: Seq<char>, lo: int)
    requires
        0 <= lo <= s.len(),
    ensures
        find_from(s.push(e), name, lo) == (match find_from(s, name, lo) {
            Some(i) => Some(i),
            None => if e.name == name {
                Some(s.len() as int)
            } else {
                None
            },
        }),
    decreases s.len() - lo,
{
    if lo == s.len() {
        assert(s.push(e)[lo] == e);
    } else {
        assert(s.push(e)[lo] == s[lo]);
        lemma_find_from_push(s, e, name, lo + 1);
    }
}

/// The cached value after one invalidation.
pub proof fn lemma_invalidate_one_value(s: Seq<EntryModel>, name: Seq<char>, k: Seq<char>)
    ensures
        cached_value(invalidate_one(s, name), k) == (if name == k {
            None
        } else {
            cached_value(s, k)
        }),
{
    lemma_find_from_props(s, name, 0);
    match find_entry(s, name) {
        Some(i) => {
            let e = EntryModel { value: None, ..s[i] };
            lemma_find_from_update(s, i, e, k, 0);
            lemma_find_from_props(s, k, 0);
        },
        None => {},
    }
}

/// The cached value after one change or store.
pub proof fn lemma_set_one_value(
    s: Seq<EntryModel>,
    name: Seq<char>,
    v: Option<ValueModel>,
    k: Seq<char>,
)
    ensures
        cached_value(set_one(s, name, v), k) == (if name == k {
            v
        } else {
            cached_value(s, k)
        }),
{
    lemma_find_from_props(s, name, 0);
    lemma_find_from_props(s, k, 0);
    match find_entry(s, name) {
        Some(i) => {
            let e = EntryModel { value: v, ..s[i] };
            lemma_find_from_update(s, i, e, k, 0);
        },
        None => {
            let e = EntryModel { name: name, value: v, handlers: Seq::empty() };
            lemma_find_from_push(s, e, k, 0);
        },
    }
}

/// Neither invalidation nor change nor creation touches the callbacks
/// registered for a property.
pub proof fn lemma_invalidate_one_handlers(s: Seq<EntryModel>, name: Seq<char>, k: Seq<char>)
    ensures
        handlers_of(invalidate_one(s, name), k) == handlers_of(s, k),
{
    lemma_find_from_props(s, name, 0);
    lemma_find_from_props(s, k, 0);
    match find_entry(s, name) {
        Some(i) => {
            let e = EntryModel { value: None, ..s[i] };
            lemma_find_from_update(s, i, e, k, 0);
        },
        None => {},
    }
}

/// See [`lemma_invalidate_one_handlers`]: a store keeps callbacks too.
pub proof fn lemma_set_one_handlers(
    s: Seq<EntryModel>,
    name: Seq<char>,
    v: Option<ValueModel>,
    k: Seq<char>,
)
    ensures
        handlers_of(set_one(s, name, v), k) == handlers_of(s, k),
{
    lemma_find_from_props(s, name, 0);
    lemma_find_from_props(s, k, 0);
    match find_entry(s, name) {
        Some(i) => {
            let e = EntryModel { value: v, ..s[i] };
            lemma_find_from_update(s, i, e, k, 0);
        },
        None => {
            let e = EntryModel { name: name, value: v, handlers: Seq::empty() };
            lemma_find_from_push(s, e, k, 0);
            if name == k {
                assert(handlers_of(set_one(s, name, v), k) =~= handlers_of(s, k));
            }
        },
    }
}

/// Invalidation preserves well-formedness.
pub proof fn lemma_invalidate_one_wf(s: Seq<EntryModel>, name: Seq<char>, next: u64)
    requires
        entries_wf(s, next),
    ensures
        entries_wf(invalidate_one(s, name), next),
{
    match find_entry(s, name) {
        Some(i) => {
            lemma_find_from_props(s, name, 0);
        },
        None => {},
    }
}

/// A store preserves well-formedness: an updated entry keeps its name, and
/// a fresh entry's name was absent.
pub proof fn lemma_set_one_wf(s: Seq<EntryModel>, name: Seq<char>, v: Option<ValueModel>, next: u64)
    requires
        entries_wf(s, next),
    ensures
        entries_wf(set_one(s, name, v), next),
{
    lemma_find_from_props(s, name, 0);
    match find_entry(s, name) {
        Some(i) => {},
        None => {
            let s2 = set_one(s, name, v);
            assert forall|i: int| 0 <= i < s2.len() implies handlers_wf(
                #[trigger] s2[i].handlers,
                next,
            ) by {
                if i < s.len() {
                    assert(s2[i] == s[i]);
                }
            }
        },
    }
}

/// Lazy entry creation preserves well-formedness.
pub proof fn lemma_ensure_one_wf(s: Seq<EntryModel>, name: Seq<char>, next: u64)
    requires
        entries_wf(s, next),
    ensures
        entries_wf(ensure_one(s, name), next),
{
    lemma_find_from_props(s, name, 0);
    match find_entry(s, name) {
        Some(_) => {},
        None => {
            let s2 = ensure_one(s, name);
            assert forall|i: int| 0 <= i < s2.len() implies handlers_wf(
                #[trigger] s2[i].handlers,
                next,
            ) by {
                if i < s.len() {
                    assert(s2[i] == s[i]);
                }
            }
        },
    }
}

/// The position of `key` in a callback list, scanning from `lo`.
pub open spec fn key_idx_from(hs: Seq<u64>, key: u64, lo: int) -> Option<int>
    decreases hs.len() - lo,
{
    if lo < 0 || lo >= hs.len() {
        None
    } else if hs[lo] == key {
        Some(lo)
    } else {
        key_idx_from(hs, key, lo + 1)
    }
}

/// Where `key_idx_from` points, and what its absence means.
pub proof fn lemma_key_idx_props(hs: Seq<u64>, key: u64, lo: int)
    requires
        0 <= lo,
    ensures
        match key_idx_from(hs, key, lo) {
            Some(i) => lo <= i < hs.len() && hs[i] == key,
            None => forall|j: int| lo <= j < hs.len() ==> hs[j] != key,
        },
    decreases hs.len() - lo,
{
    if lo < 0 || lo >= hs.len() {
    } else if hs[lo] == key {
    } else {
        lemma_key_idx_props(hs, key, lo + 1);
    }
}

/// A callback list with `key` removed; unchanged when `key` is not there.
pub open spec fn remove_key(hs: Seq<u64>, key: u64) -> Seq<u64> {
    match key_idx_from(hs, key, 0) {
        Some(j) => hs.remove(j),
        None => hs,
    }
}

/// Whether property `name` has a callback with key `key`.
pub open spec fn has_handler(s: Seq<EntryModel>, name: Seq<char>, key: u64) -> bool {
    handlers_of(s, name).contains(key)
}

/// A registration: the entry (created if missing) gains callback `key` at
/// the end of its list.
pub open spec fn connect_one(s: Seq<EntryModel>, name: Seq<char>, key: u64) -> Seq<EntryModel> {
    match find_entry(s, name) {
        Some(i) => s.update(i, EntryModel { handlers: s[i].handlers.push(key), ..s[i] }),
        None => s.push(EntryModel { name: name, value: None, handlers: seq![key] }),
    }
}

/// A deregistration: the entry, if any, loses callback `key`.
pub open spec fn disconnect_one(s: Seq<EntryModel>, name: Seq<char>, key: u64) -> Seq<EntryModel> {
    match find_entry(s, name) {
        Some(i) => s.update(i, EntryModel { handlers: remove_key(s[i].handlers, key), ..s[i] }),
        None => s,
    }
}

/// Deregistering a callback removes it for good: with distinct keys, the
/// removed key is no longer registered, so a second deregistration of the
/// same key reports that nothing was found.
pub proof fn lemma_disconnect_property_changed_idempotent(
    s: Seq<EntryModel>,
    next: u64,
    name: Seq<char>,
    key: u64,
)
    requires
        entries_wf(s, next),
    ensures
        !has_handler(disconnect_one(s, name, key), name, key),
{
    lemma_find_from_props(s, name, 0);
    match find_entry(s, name) {
        Some(i) => {
            let hs = s[i].handlers;
            lemma_key_idx_props(hs, key, 0);
            let e = EntryModel { handlers: remove_key(hs, key), ..s[i] };
            lemma_find_from_update(s, i, e, name, 0);
            let s2 = disconnect_one(s, name, key);
            assert(handlers_of(s2, name) == remove_key(hs, key));
            match key_idx_from(hs, key, 0) {
                Some(j) => {
                    let hs2 = hs.remove(j);
                    assert forall|a: int| 0 <= a < hs2.len() implies hs2[a] != key by {
                        if a < j {
                            assert(hs2[a] == hs[a]);
                        } else {
                            assert(hs2[a] == hs[a + 1]);
                        }
                    }
                    if hs2.contains(key) {
                        let w = choose|w: int| 0 <= w < hs2.len() && hs2[w] == key;
                        assert(false);
                    }
                },
                None => {
                    if hs.contains(key) {
                        let w = choose|w: int| 0 <= w < hs.len() && hs[w] == key;
                        assert(false);
                    }
                },
            }
        },
        None => {
            assert(handlers_of(s, name) == Seq::<u64>::empty());
            assert(!Seq::<u64>::empty().contains(key));
        },
    }
}

/// `entries_view` commutes with an element update.
proof fn lemma_entries_view_update(s: Seq<PropertyEntry>, i: int, e: PropertyEntry)
    requires
        0 <= i < s.len(),
    ensures
        entries_view(s.update(i, e)) =~= entries_view(s).update(i, e@),
{
}

/// `entries_view` commutes with a push.
proof fn lemma_entries_view_push(s: Seq<PropertyEntry>, e: PropertyEntry)
    ensures
        entries_view(s.push(e)) =~= entries_view(s).push(e@),
{
}

/// Removing an element and inserting another at the same place is an
/// update.
proof fn lemma_remove_insert(s: Seq<PropertyEntry>, i: int, e: PropertyEntry)
    requires
        0 <= i < s.len(),
    ensures
        s.remove(i).insert(i, e) =~= s.update(i, e),
{
}

/// `calls_view` commutes with a push.
proof fn lemma_calls_view_push(cs: Seq<CallbackCall>, c: CallbackCall)
    ensures
        calls_view(cs.push(c)) =~= calls_view(cs).push(c@),
{
}

/// Character-by-character string equality.
pub(crate) fn str_eq(a: &str, b: &str) -> (r: bool)
    ensures
        r == (a@ == b@),
{
    let n = a.unicode_len();
    if n != b.unicode_len() {
        return false;
    }
    let mut i: usize = 0;
    while i < n
        invariant
            i <= n,
            n == a@.len(),
            n == b@.len(),
            forall|j: int| 0 <= j < i ==> a@[j] == b@[j],
        decreases n - i,
    {
        if a.get_char(i) != b.get_char(i) {
            return false;
        }
        i = i + 1;
    }
    proof {
        assert(a@ =~= b@);
    }
    true
}

/// An owned copy of an optional value.
fn dup_opt(v: &Option<Value>) -> (r: Option<Value>)
    ensures
        opt_value_view(r) == opt_value_view(*v),
{
    match v {
        Some(x) => Some(x.dup()),
        None => None,
    }
}

/// The property cache of one proxy: the entries in first-seen order, and
/// the key the next registered callback will get.
#[derive(Debug)]
pub struct PropertyCache {
    entries: Vec<PropertyEntry>,
    next_key: u64,
}

/// The mathematical shape of a [`PropertyCache`].
pub struct CacheModel {
    pub entries: Seq<EntryModel>,
    pub next_key: u64,
}

impl View for PropertyCache {
    type V = CacheModel;

    closed spec fn view(&self) -> CacheModel {
        CacheModel { entries: entries_view(self.entries@), next_key: self.next_key }
    }
}

impl PropertyCache {
    /// Entry names are distinct and callback keys are distinct and below
    /// the allocator.
    pub open spec fn wf(&self) -> bool {
        entries_wf(self@.entries, self@.next_key)
    }

    /// A fresh, empty cache.
    pub fn new() -> (c: PropertyCache)
        ensures
            c@.entries.len() == 0,
            c@.next_key == 0,
            c.wf(),
    {
        PropertyCache { entries: Vec::new(), next_key: 0 }
    }

    /// Whether another callback key can be allocated.
    pub fn keys_left(&self) -> (r: bool)
        ensures
            r == (self@.next_key < u64::MAX),
    {
        self.next_key < u64::MAX
    }

    /// The index of the entry named `name`, if any.
    fn find_idx(&self, name: &str) -> (r: Option<usize>)
        ensures
            match r {
                Some(i) => find_entry(self@.entries, name@) == Some(i as int),
                None => find_entry(self@.entries, name@) is None,
            },
    {
        let es = &self.entries;
        let n = es.len();
        let mut i: usize = 0;
        while i < n
            invariant
                i <= n,
                n == es.len(),
                es == self.entries,
                find_entry(self@.entries, name@) == find_from(self@.entries, name@, i as int),
            decreases n - i,
        {
            proof {
                assert(self@.entries[i as int] == es@[i as int]@);
            }
            if str_eq(es[i].name.as_str(), name) {
                return Some(i);
            }
            i = i + 1;
        }
        None
    }

    /// The cached value of `name`: `None` when absent or invalidated.
    pub fn cached_property(&self, name: &str) -> (r: Option<Value>)
        ensures
            opt_value_view(r) == cached_value(self@.entries, name@),
    {
        match self.find_idx(name) {
            Some(i) => {
                proof {
                    lemma_find_from_props(self@.entries, name@, 0);
                    assert(self@.entries[i as int] == self.entries@[i as int]@);
                }
                dup_opt(&self.entries[i].value)
            },
            None => None,
        }
    }

    /// Store `value` for `name`, creating the entry if missing. This is
    /// how a fetched `Get` result and every `GetAll` pair are recorded.
    pub fn set_cached_property(&mut self, name: &str, value: Option<Value>)
        ensures
            final(self)@.entries == set_one(old(self)@.entries, name@, opt_value_view(value)),
            final(self)@.next_key == old(self)@.next_key,
            old(self).wf() ==> final(self).wf(),
    {
        proof {
            if entries_wf(old(self)@.entries, old(self)@.next_key) {
                lemma_set_one_wf(old(self)@.entries, name@, opt_value_view(value), old(self)@.next_key);
            }
        }
        let ghost orig = self@.entries;
        match self.find_idx(name) {
            Some(i) => {
                proof {
                    lemma_find_from_props(orig, name@, 0);
                }
                let mut e = self.entries.remove(i);
                e.value = value;
                proof {
                    assert(e@ == (EntryModel { value: opt_value_view(value), ..orig[i as int] }));
                }
                self.entries.insert(i, e);
                proof {
                    lemma_remove_insert(old(self).entries@, i as int, e);
                    lemma_entries_view_update(old(self).entries@, i as int, e);
                    assert(self@.entries =~= set_one(orig, name@, opt_value_view(value)));
                }
            },
            None => {
                let e = PropertyEntry { name: name.to_owned(), value, handlers: Vec::new() };
                proof {
                    assert(e@ == (EntryModel {
                        name: name@,
                        value: opt_value_view(value),
                        handlers: Seq::empty(),
                    }));
                }
                self.entries.push(e);
                proof {
                    lemma_entries_view_push(old(self).entries@, e);
                    assert(self@.entries =~= set_one(orig, name@, opt_value_view(value)));
                }
            },
        }
    }

    /// Create the entry for `name` if it is missing: first interest in a
    /// property (a stream or a registration) creates its entry lazily.
    pub fn ensure_entry(&mut self, name: &str)
        ensures
            final(self)@.entries == ensure_one(old(self)@.entries, name@),
            final(self)@.next_key == old(self)@.next_key,
            old(self).wf() ==> final(self).wf(),
    {
        proof {
            if entries_wf(old(self)@.entries, old(self)@.next_key) {
                lemma_ensure_one_wf(old(self)@.entries, name@, old(self)@.next_key);
            }
        }
        let ghost orig = self@.entries;
        match self.find_idx(name) {
            Some(_) => {},
            None => {
                let e = PropertyEntry { name: name.to_owned(), value: None, handlers: Vec::new() };
                self.entries.push(e);
                proof {
                    lemma_entries_view_push(old(self).entries@, e);
                    assert(self@.entries =~= ensure_one(orig, name@));
                }
            },
        }
    }

    /// Append to `calls` one call per callback in `handlers`, in order,
    /// each carrying `name` and `value`.
    fn collect_calls(
        name: &str,
        value: &Option<Value>,
        handlers: &Vec<u64>,
        calls: &mut Vec<CallbackCall>,
    )
        ensures
            calls_view(final(calls)@) == calls_view(old(calls)@) + calls_of(
                handlers@,
                name@,
                opt_value_view(*value),
            ),
    {
        let ghost v = opt_value_view(*value);
        let n = handlers.len();
        let mut j: usize = 0;
        while j < n
            invariant
                j <= n,
                n == handlers@.len(),
                opt_value_view(*value) == v,
                calls_view(calls@) =~= calls_view(old(calls)@) + calls_of(
                    handlers@.take(j as int),
                    name@,
                    v,
                ),
            decreases n - j,
        {
            let c = CallbackCall { key: handlers[j], name: name.to_owned(), value: dup_opt(value) };
            proof {
                lemma_calls_view_push(calls@, c);
                assert(calls_of(handlers@.take(j + 1), name@, v) =~= calls_of(
                    handlers@.take(j as int),
                    name@,
                    v,
                ).push(c@));
            }
            calls.push(c);
            j = j + 1;
        }
        proof {
            assert(handlers@.take(n as int) =~= handlers@);
            assert(calls_view(calls@) =~= calls_view(old(calls)@) + calls_of(handlers@, name@, v));
        }
    }

    /// Apply one invalidation and collect the calls it owes.
    fn invalidate_entry(&mut self, name: &str, calls: &mut Vec<CallbackCall>)
        ensures
            final(self)@.entries == invalidate_one(old(self)@.entries, name@),
            final(self)@.next_key == old(self)@.next_key,
            calls_view(final(calls)@) == calls_view(old(calls)@) + invalidate_calls_one(
                old(self)@.entries,
                name@,
            ),
    {
        let ghost orig = self@.entries;
        match self.find_idx(name) {
            Some(i) => {
                proof {
                    lemma_find_from_props(orig, name@, 0);
                }
                let mut e = self.entries.remove(i);
                let no_value: Option<Value> = None;
                Self::collect_calls(e.name.as_str(), &no_value, &e.handlers, calls);
                e.value = None;
                self.entries.insert(i, e);
                proof {
                    lemma_remove_insert(old(self).entries@, i as int, e);
                    lemma_entries_view_update(old(self).entries@, i as int, e);
                    assert(self@.entries =~= invalidate_one(orig, name@));
                    assert(calls_view(calls@) =~= calls_view(old(calls)@) + invalidate_calls_one(
                        orig,
                        name@,
                    ));
                }
            },
            None => {
                proof {
                    assert(calls_view(calls@) =~= calls_view(old(calls)@) + invalidate_calls_one(
                        orig,
                        name@,
                    ));
                }
            },
        }
    }

    /// Apply one change and collect the calls it owes.
    fn change_entry(&mut self, name: &str, value: &Value, calls: &mut Vec<CallbackCall>)
        ensures
            final(self)@.entries == change_one(old(self)@.entries, name@, value@),
            final(self)@.next_key == old(self)@.next_key,
            calls_view(final(calls)@) == calls_view(old(calls)@) + change_calls_one(
                old(self)@.entries,
                name@,
                value@,
            ),
    {
        let ghost orig = self@.entries;
        let new_value = Some(value.dup());
        match self.find_idx(name) {
            Some(i) => {
                proof {
                    lemma_find_from_props(orig, name@, 0);
                }
                let mut e = self.entries.remove(i);
                Self::collect_calls(name, &new_value, &e.handlers, calls);
                e.value = new_value;
                self.entries.insert(i, e);
                proof {
                    lemma_remove_insert(old(self).entries@, i as int, e);
                    lemma_entries_view_update(old(self).entries@, i as int, e);
                    assert(self@.entries =~= change_one(orig, name@, value@));
                    assert(calls_view(calls@) =~= calls_view(old(calls)@) + change_calls_one(
                        orig,
                        name@,
                        value@,
                    ));
                }
            },
            None => {
                let e = PropertyEntry { name: name.to_owned(), value: new_value, handlers: Vec::new() };
                self.entries.push(e);
                proof {
                    lemma_entries_view_push(old(self).entries@, e);
                    assert(self@.entries =~= change_one(orig, name@, value@));
                    assert(calls_of(handlers_of(orig, name@), name@, Some(value@))
                        =~= Seq::<CallModel>::empty());
                    assert(calls_view(calls@) =~= calls_view(old(calls)@) + change_calls_one(
                        orig,
                        name@,
                        value@,
                    ));
                }
            },
        }
    }

    /// Apply one `PropertiesChanged` emission: every invalidated property
    /// loses its value, then every changed property takes its new value
    /// (created if missing), and the calls owed to the registered change
    /// callbacks are returned in dispatch order. The caller runs them
    /// after releasing its lock.
    pub fn update_cache(&mut self, changed: &Vec<(String, Value)>, invalidated: &Vec<String>) -> (calls:
        Vec<CallbackCall>)
        ensures
            final(self)@.entries == update_entries(
                old(self)@.entries,
                pairs_view(changed@),
                names_view(invalidated@),
            ),
            final(self)@.next_key == old(self)@.next_key,
            calls_view(calls@) == update_calls(
                old(self)@.entries,
                pairs_view(changed@),
                names_view(invalidated@),
            ),
            old(self).wf() ==> final(self).wf(),
    {
        proof {
            if entries_wf(old(self)@.entries, old(self)@.next_key) {
                lemma_update_entries_wf(
                    old(self)@.entries,
                    pairs_view(changed@),
                    names_view(invalidated@),
                    old(self)@.next_key,
                );
            }
        }
        let ghost orig = self@.entries;
        let ghost inv = names_view(invalidated@);
        let ghost ch = pairs_view(changed@);
        let mut calls: Vec<CallbackCall> = Vec::new();
        let ni = invalidated.len();
        let mut i: usize = 0;
        while i < ni
            invariant
                i <= ni,
                ni == invalidated@.len(),
                inv == names_view(invalidated@),
                ch == pairs_view(changed@),
                self@.entries == apply_invalidated(orig, inv, i as int),
                self@.next_key == old(self)@.next_key,
                calls_view(calls@) == invalidated_calls(orig, inv, i as int),
            decreases ni - i,
        {
            proof {
                assert(inv[i as int] == invalidated@[i as int]@);
            }
            self.invalidate_entry(invalidated[i].as_str(), &mut calls);
            i = i + 1;
        }
        let ghost mid = apply_invalidated(orig, inv, inv.len() as int);
        proof {
            assert(self@.entries == mid);
        }
        let nc = changed.len();
        let mut j: usize = 0;
        while j < nc
            invariant
                j <= nc,
                nc == changed@.len(),
                inv == names_view(invalidated@),
                ch == pairs_view(changed@),
                mid == apply_invalidated(orig, inv, inv.len() as int),
                self@.entries == apply_changed(mid, ch, j as int),
                self@.next_key == old(self)@.next_key,
                calls_view(calls@) == invalidated_calls(orig, inv, inv.len() as int)
                    + changed_calls(mid, ch, j as int),
            decreases nc - j,
        {
            proof {
                assert(ch[j as int] == (changed@[j as int].0@, changed@[j as int].1@));
            }
            let pair = &changed[j];
            self.change_entry(pair.0.as_str(), &pair.1, &mut calls);
            j = j + 1;
        }
        calls
    }

    /// Seed the cache from a `GetAll` result, first pair first. Seeding
    /// overwrites: if a change signal raced ahead of the reply, the stale
    /// value is corrected by the next emission.
    pub fn seed(&mut self, values: &Vec<(String, Value)>)
        ensures
            final(self)@.entries == apply_seed(old(self)@.entries, pairs_view(values@), values@.len() as int),
            final(self)@.next_key == old(self)@.next_key,
            old(self).wf() ==> final(self).wf(),
    {
        proof {
            if entries_wf(old(self)@.entries, old(self)@.next_key) {
                lemma_apply_seed_wf(
                    old(self)@.entries,
                    pairs_view(values@),
                    values@.len() as int,
                    old(self)@.next_key,
                );
            }
        }
        let ghost orig = self@.entries;
        let ghost ps = pairs_view(values@);
        let n = values.len();
        let mut i: usize = 0;
        while i < n
            invariant
                i <= n,
                n == values@.len(),
                ps == pairs_view(values@),
                self@.entries == apply_seed(orig, ps, i as int),
                self@.next_key == old(self)@.next_key,
            decreases n - i,
        {
            proof {
                assert(ps[i as int] == (values@[i as int].0@, values@[i as int].1@));
            }
            let pair = &values[i];
            self.set_cached_property(pair.0.as_str(), Some(pair.1.dup()));
            i = i + 1;
        }
    }

    /// Register a change callback for `name`, creating the entry if
    /// missing, and return its key.
    pub fn connect_property_changed(&mut self, name: &str) -> (key: u64)
        requires
            old(self).wf(),
            old(self)@.next_key < u64::MAX,
        ensures
            key == old(self)@.next_key,
            final(self)@.next_key == old(self)@.next_key + 1,
            final(self)@.entries == connect_one(old(self)@.entries, name@, key),
            final(self).wf(),
            has_handler(final(self)@.entries, name@, key),
    {
        let ghost orig = self@.entries;
        let ghost next = self@.next_key;
        let key = self.next_key;
        match self.find_idx(name) {
            Some(i) => {
                proof {
                    lemma_find_from_props(orig, name@, 0);
                }
                let mut e = self.entries.remove(i);
                e.handlers.push(key);
                self.entries.insert(i, e);
                self.next_key = self.next_key + 1;
                proof {
                    lemma_remove_insert(old(self).entries@, i as int, e);
                    lemma_entries_view_update(old(self).entries@, i as int, e);
                    assert(self@.entries =~= connect_one(orig, name@, key));
                    let e2 = EntryModel { handlers: orig[i as int].handlers.push(key), ..orig[i as int] };
                    lemma_find_from_update(orig, i as int, e2, name@, 0);
                    assert(handlers_of(self@.entries, name@) == orig[i as int].handlers.push(key));
                    assert(handlers_of(self@.entries, name@).last() == key);
                    lemma_connect_wf(orig, name@, key, next);
                }
            },
            None => {
                let mut handlers: Vec<u64> = Vec::new();
                handlers.push(key);
                let e = PropertyEntry { name: name.to_owned(), value: None, handlers };
                self.entries.push(e);
                self.next_key = self.next_key + 1;
                proof {
                    lemma_entries_view_push(old(self).entries@, e);
                    assert(e@.handlers =~= seq![key]);
                    assert(self@.entries =~= connect_one(orig, name@, key));
                    lemma_find_from_push(orig, e@, name@, 0);
                    assert(handlers_of(self@.entries, name@) == e@.handlers);
                    assert(handlers_of(self@.entries, name@)[0] == key);
                    lemma_connect_wf(orig, name@, key, next);
                }
            },
        }
        key
    }

    /// Deregister the change callback `key` of `name`. Returns whether it
    /// was found and removed: `true` the first time, `false` on any later
    /// call with the same key.
    pub fn disconnect_property_changed(&mut self, name: &str, key: u64) -> (found: bool)
        requires
            old(self).wf(),
        ensures
            found == has_handler(old(self)@.entries, name@, key),
            final(self)@.entries == disconnect_one(old(self)@.entries, name@, key),
            final(self)@.next_key == old(self)@.next_key,
            final(self).wf(),
            !has_handler(final(self)@.entries, name@, key),
    {
        let ghost orig = self@.entries;
        let ghost next = self@.next_key;
        let found = match self.find_idx(name) {
            Some(i) => {
                proof {
                    lemma_find_from_props(orig, name@, 0);
                }
                let mut e = self.entries.remove(i);
                let ghost hs = e.handlers@;
                let r = remove_first_key(&mut e.handlers, key);
                self.entries.insert(i, e);
                proof {
                    lemma_remove_insert(old(self).entries@, i as int, e);
                    lemma_entries_view_update(old(self).entries@, i as int, e);
                    assert(self@.entries =~= disconnect_one(orig, name@, key));
                    lemma_key_idx_props(hs, key, 0);
                    if r {
                        assert(hs.contains(key));
                    } else {
                        if hs.contains(key) {
                            let w = choose|w: int| 0 <= w < hs.len() && hs[w] == key;
                            assert(false);
                        }
                    }
                }
                r
            },
            None => {
                proof {
                    assert(self@.entries =~= disconnect_one(orig, name@, key));
                    if handlers_of(orig, name@).contains(key) {
                        let w = choose|w: int|
                            0 <= w < handlers_of(orig, name@).len() && handlers_of(orig, name@)[w]
                                == key;
                        assert(false);
                    }
                }
                false
            },
        };
        proof {
            lemma_disconnect_wf(orig, name@, key, next);
            lemma_disconnect_property_changed_idempotent(orig, next, name@, key);
        }
        found
    }
}

/// Remove the first occurrence of `key`; report whether one was there.
fn remove_first_key(hs: &mut Vec<u64>, key: u64) -> (r: bool)
    ensures
        final(hs)@ == remove_key(old(hs)@, key),
        r == (key_idx_from(old(hs)@, key, 0) is Some),
{
    let n = hs.len();
    let mut j: usize = 0;
    while j < n
        invariant
            j <= n,
            n == hs@.len(),
            hs@ == old(hs)@,
            key_idx_from(old(hs)@, key, 0) == key_idx_from(old(hs)@, key, j as int),
        decreases n - j,
    {
        if hs[j] == key {
            proof {
                assert(key_idx_from(old(hs)@, key, j as int) == Some(j as int));
            }
            hs.remove(j);
            return true;
        }
        j = j + 1;
    }
    false
}

/// A registration preserves well-formedness when it uses the allocator's
/// next key.
proof fn lemma_connect_wf(s: Seq<EntryModel>, name: Seq<char>, key: u64, next: u64)
    requires
        entries_wf(s, next),
        key == next,
        next < u64::MAX,
    ensures
        entries_wf(connect_one(s, name, key), (next + 1) as u64),
{
    lemma_find_from_props(s, name, 0);
    let s2 = connect_one(s, name, key);
    match find_entry(s, name) {
        Some(i) => {
            assert forall|a: int| 0 <= a < s2.len() implies handlers_wf(
                #[trigger] s2[a].handlers,
                (next + 1) as u64,
            ) by {
                if a == i {
                    let hs = s[i].handlers;
                    let hs2 = hs.push(key);
                    assert forall|x: int, y: int| 0 <= x < y < hs2.len() implies hs2[x] != hs2[y] by {
                        if y < hs.len() {
                            assert(hs2[x] == hs[x] && hs2[y] == hs[y]);
                        } else {
                            assert(hs2[y] == key && hs2[x] == hs[x]);
                        }
                    }
                } else {
                    assert(s2[a] == s[a]);
                }
            }
        },
        None => {
            assert forall|a: int| 0 <= a < s2.len() implies handlers_wf(
                #[trigger] s2[a].handlers,
                (next + 1) as u64,
            ) by {
                if a < s.len() {
                    assert(s2[a] == s[a]);
                } else {
                    assert(s2[a].handlers =~= seq![key]);
                }
            }
        },
    }
}

/// A deregistration preserves well-formedness.
proof fn lemma_disconnect_wf(s: Seq<EntryModel>, name: Seq<char>, key: u64, next: u64)
    requires
        entries_wf(s, next),
    ensures
        entries_wf(disconnect_one(s, name, key), next),
{
    lemma_find_from_props(s, name, 0);
    let s2 = disconnect_one(s, name, key);
    match find_entry(s, name) {
        Some(i) => {
            let hs = s[i].handlers;
            lemma_key_idx_props(hs, key, 0);
            assert forall|a: int| 0 <= a < s2.len() implies handlers_wf(
                #[trigger] s2[a].handlers,
                next,
            ) by {
                if a == i {
                    match key_idx_from(hs, key, 0) {
                        Some(jj) => {
                            let hs2 = hs.remove(jj);
                            assert forall|x: int, y: int| 0 <= x < y < hs2.len() implies hs2[x]
                                != hs2[y] by {
                                let xo: int = if x < jj { x } else { x + 1 };
                                let yo: int = if y < jj { y } else { y + 1 };
                                assert(hs2[x] == hs[xo] && hs2[y] == hs[yo]);
                            }
                            assert forall|x: int| 0 <= x < hs2.len() implies #[trigger] hs2[x]
                                < next by {
                                let xo: int = if x < jj { x } else { x + 1 };
                                assert(hs2[x] == hs[xo]);
                            }
                        },
                        None => {},
                    }
                } else {
                    assert(s2[a] == s[a]);
                }
            }
        },
        None => {},
    }
}

/// Invalidations preserve well-formedness.
pub proof fn lemma_apply_invalidated_wf(s: Seq<EntryModel>, inv: Seq<Seq<char>>, n: int, next: u64)
    requires
        entries_wf(s, next),
    ensures
        entries_wf(apply_invalidated(s, inv, n), next),
    decreases n,
{
    if n > 0 {
        lemma_apply_invalidated_wf(s, inv, n - 1, next);
        lemma_invalidate_one_wf(apply_invalidated(s, inv, n - 1), inv[n - 1], next);
    }
}

/// Changes preserve well-formedness.
pub proof fn lemma_apply_changed_wf(
    s: Seq<EntryModel>,
    ch: Seq<(Seq<char>, ValueModel)>,
    n: int,
    next: u64,
)
    requires
        entries_wf(s, next),
    ensures
        entries_wf(apply_changed(s, ch, n), next),
    decreases n,
{
    if n > 0 {
        lemma_apply_changed_wf(s, ch, n - 1, next);
        lemma_set_one_wf(apply_changed(s, ch, n - 1), ch[n - 1].0, Some(ch[n - 1].1), next);
    }
}

/// Seeding preserves well-formedness.
pub proof fn lemma_apply_seed_wf(
    s: Seq<EntryModel>,
    ps: Seq<(Seq<char>, ValueModel)>,
    n: int,
    next: u64,
)
    requires
        entries_wf(s, next),
    ensures
        entries_wf(apply_seed(s, ps, n), next),
    decreases n,
{
    if n > 0 {
        lemma_apply_seed_wf(s, ps, n - 1, next);
        lemma_set_one_wf(apply_seed(s, ps, n - 1), ps[n - 1].0, Some(ps[n - 1].1), next);
    }
}

/// The cached value after a run of invalidations: gone if the property
/// was named, otherwise untouched.
pub proof fn lemma_apply_invalidated_value(
    s: Seq<EntryModel>,
    inv: Seq<Seq<char>>,
    n: int,
    k: Seq<char>,
)
    ensures
        cached_value(apply_invalidated(s, inv, n), k) == (if exists|j: int|
            0 <= j < n && inv[j] == k {
            None
        } else {
            cached_value(s, k)
        }),
    decreases n,
{
    if n > 0 {
        lemma_apply_invalidated_value(s, inv, n - 1, k);
        lemma_invalidate_one_value(apply_invalidated(s, inv, n - 1), inv[n - 1], k);
        if inv[n - 1] == k {
            assert(exists|j: int| 0 <= j < n && inv[j] == k);
        } else {
            assert((exists|j: int| 0 <= j < n && inv[j] == k) == (exists|j: int|
                0 <= j < n - 1 && inv[j] == k));
        }
    }
}

/// The last value assigned to `k` among the first `n` changed pairs.
pub open spec fn last_changed(ch: Seq<(Seq<char>, ValueModel)>, k: Seq<char>, n: int) -> Option<
    ValueModel,
>
    decreases n,
{
    if n <= 0 {
        None
    } else if ch[n - 1].0 == k {
        Some(ch[n - 1].1)
    } else {
        last_changed(ch, k, n - 1)
    }
}

/// The cached value after a run of changes: the last value assigned to the
/// property, or whatever was there if none was.
pub proof fn lemma_apply_changed_value(
    s: Seq<EntryModel>,
    ch: Seq<(Seq<char>, ValueModel)>,
    n: int,
    k: Seq<char>,
)
    ensures
        cached_value(apply_changed(s, ch, n), k) == (match last_changed(ch, k, n) {
            Some(v) => Some(v),
            None => cached_value(s, k),
        }),
    decreases n,
{
    if n > 0 {
        lemma_apply_changed_value(s, ch, n - 1, k);
        lemma_set_one_value(apply_changed(s, ch, n - 1), ch[n - 1].0, Some(ch[n - 1].1), k);
    }
}

/// The cached value after one whole emission.
pub proof fn lemma_update_entries_value(
    s: Seq<EntryModel>,
    ch: Seq<(Seq<char>, ValueModel)>,
    inv: Seq<Seq<char>>,
    k: Seq<char>,
)
    ensures
        cached_value(update_entries(s, ch, inv), k) == (match last_changed(
            ch,
            k,
            ch.len() as int,
        ) {
            Some(v) => Some(v),
            None => if exists|j: int| 0 <= j < inv.len() && inv[j] == k {
                None
            } else {
                cached_value(s, k)
            },
        }),
{
    lemma_apply_invalidated_value(s, inv, inv.len() as int, k);
    lemma_apply_changed_value(apply_invalidated(s, inv, inv.len() as int), ch, ch.len() as int, k);
}

/// One `PropertiesChanged` emission, in mathematical form.
pub struct ChangeEvent {
    pub changed: Seq<(Seq<char>, ValueModel)>,
    pub invalidated: Seq<Seq<char>>,
}

/// The entries after the first `n` emissions of `t`, in order.
pub open spec fn apply_events(s: Seq<EntryModel>, t: Seq<ChangeEvent>, n: int) -> Seq<EntryModel>
    decreases n,
{
    if n <= 0 {
        s
    } else {
        update_entries(apply_events(s, t, n - 1), t[n - 1].changed, t[n - 1].invalidated)
    }
}

/// What the cache is expected to hold for `k` after the first `n`
/// emissions of `t`: the last value among changed maps after the last
/// appearance of `k` in any invalidated list, `None` if the invalidation
/// is later, and `None` if `k` was never mentioned.
pub open spec fn expected_value(t: Seq<ChangeEvent>, n: int, k: Seq<char>) -> Option<ValueModel>
    decreases n,
{
    if n <= 0 {
        None
    } else {
        match last_changed(t[n - 1].changed, k, t[n - 1].changed.len() as int) {
            Some(v) => Some(v),
            None => if exists|j: int|
                0 <= j < t[n - 1].invalidated.len() && #[trigger] t[n - 1].invalidated[j] == k {
                None
            } else {
                expected_value(t, n - 1, k)
            },
        }
    }
}

/// Cache consistency: for any run of `PropertiesChanged` emissions applied
/// to a freshly built cache, the cached value of a property equals the
/// last value assigned to it after its last invalidation, and is absent
/// when the invalidation came later or the property was never mentioned.
pub proof fn lemma_cache_consistency(t: Seq<ChangeEvent>, n: int, k: Seq<char>)
    ensures
        cached_value(apply_events(Seq::empty(), t, n), k) == expected_value(t, n, k),
    decreases n,
{
    if n <= 0 {
        assert(cached_value(Seq::empty(), k) is None);
    } else {
        lemma_cache_consistency(t, n - 1, k);
        lemma_update_entries_value(
            apply_events(Seq::empty(), t, n - 1),
            t[n - 1].changed,
            t[n - 1].invalidated,
            k,
        );
    }
}

/// The calls of `cs` that concern property `k`, in order.
pub open spec fn calls_for_key(cs: Seq<CallModel>, k: Seq<char>) -> Seq<CallModel>
    decreases cs.len(),
{
    if cs.len() == 0 {
        Seq::empty()
    } else if cs.last().name == k {
        calls_for_key(cs.drop_last(), k).push(cs.last())
    } else {
        calls_for_key(cs.drop_last(), k)
    }
}

/// `calls_for_key` splits over concatenation.
pub proof fn lemma_calls_for_key_add(a: Seq<CallModel>, b: Seq<CallModel>, k: Seq<char>)
    ensures
        calls_for_key(a + b, k) == calls_for_key(a, k) + calls_for_key(b, k),
    decreases b.len(),
{
    if b.len() == 0 {
        assert(a + b =~= a);
        assert(calls_for_key(b, k) =~= Seq::empty());
        assert(calls_for_key(a, k) + calls_for_key(b, k) =~= calls_for_key(a, k));
    } else {
        lemma_calls_for_key_add(a, b.drop_last(), k);
        assert((a + b).drop_last() =~= a + b.drop_last());
        assert((a + b).last() == b.last());
        if b.last().name == k {
            assert(calls_for_key(a, k) + calls_for_key(b, k) =~= (calls_for_key(a, k)
                + calls_for_key(b.drop_last(), k)).push(b.last()));
        }
    }
}

/// A list of calls all concerning `k` is kept whole.
pub proof fn lemma_calls_for_key_all(cs: Seq<CallModel>, k: Seq<char>)
    requires
        forall|i: int| 0 <= i < cs.len() ==> #[trigger] cs[i].name == k,
    ensures
        calls_for_key(cs, k) == cs,
    decreases cs.len(),
{
    if cs.len() > 0 {
        lemma_calls_for_key_all(cs.drop_last(), k);
        assert(calls_for_key(cs, k) =~= cs);
    }
}

/// A list of calls none of which concern `k` is dropped whole.
pub proof fn lemma_calls_for_key_none(cs: Seq<CallModel>, k: Seq<char>)
    requires
        forall|i: int| 0 <= i < cs.len() ==> #[trigger] cs[i].name != k,
    ensures
        calls_for_key(cs, k) == Seq::<CallModel>::empty(),
    decreases cs.len(),
{
    if cs.len() > 0 {
        lemma_calls_for_key_none(cs.drop_last(), k);
    }
}

/// Invalidations do not move the callbacks registered for `k`.
pub proof fn lemma_apply_invalidated_handlers(
    s: Seq<EntryModel>,
    inv: Seq<Seq<char>>,
    n: int,
    k: Seq<char>,
)
    ensures
        handlers_of(apply_invalidated(s, inv, n), k) == handlers_of(s, k),
    decreases n,
{
    if n > 0 {
        lemma_apply_invalidated_handlers(s, inv, n - 1, k);
        lemma_invalidate_one_handlers(apply_invalidated(s, inv, n - 1), inv[n - 1], k);
    }
}

/// Changes do not move the callbacks registered for `k`.
pub proof fn lemma_apply_changed_handlers(
    s: Seq<EntryModel>,
    ch: Seq<(Seq<char>, ValueModel)>,
    n: int,
    k: Seq<char>,
)
    ensures
        handlers_of(apply_changed(s, ch, n), k) == handlers_of(s, k),
    decreases n,
{
    if n > 0 {
        lemma_apply_changed_handlers(s, ch, n - 1, k);
        lemma_set_one_handlers(apply_changed(s, ch, n - 1), ch[n - 1].0, Some(ch[n - 1].1), k);
    }
}

/// Invalidations of other properties owe `k` no calls.
proof fn lemma_invalidated_calls_avoid(s: Seq<EntryModel>, inv: Seq<Seq<char>>, n: int, k: Seq<char>)
    requires
        forall|j: int| 0 <= j < n ==> inv[j] != k,
    ensures
        calls_for_key(invalidated_calls(s, inv, n), k) == Seq::<CallModel>::empty(),
    decreases n,
{
    if n > 0 {
        lemma_invalidated_calls_avoid(s, inv, n - 1, k);
        let mid = apply_invalidated(s, inv, n - 1);
        let step = invalidate_calls_one(mid, inv[n - 1]);
        lemma_find_from_props(mid, inv[n - 1], 0);
        assert forall|i: int| 0 <= i < step.len() implies #[trigger] step[i].name != k by {}
        lemma_calls_for_key_none(step, k);
        lemma_calls_for_key_add(invalidated_calls(s, inv, n - 1), step, k);
        assert(calls_for_key(invalidated_calls(s, inv, n), k) =~= Seq::<CallModel>::empty());
    }
}

/// Changes of other properties owe `k` no calls.
proof fn lemma_changed_calls_avoid(
    s: Seq<EntryModel>,
    ch: Seq<(Seq<char>, ValueModel)>,
    n: int,
    k: Seq<char>,
)
    requires
        forall|j: int| 0 <= j < n ==> ch[j].0 != k,
    ensures
        calls_for_key(changed_calls(s, ch, n), k) == Seq::<CallModel>::empty(),
    decreases n,
{
    if n > 0 {
        lemma_changed_calls_avoid(s, ch, n - 1, k);
        let mid = apply_changed(s, ch, n - 1);
        let step = change_calls_one(mid, ch[n - 1].0, ch[n - 1].1);
        assert forall|i: int| 0 <= i < step.len() implies #[trigger] step[i].name != k by {}
        lemma_calls_for_key_none(step, k);
        lemma_calls_for_key_add(changed_calls(s, ch, n - 1), step, k);
        assert(calls_for_key(changed_calls(s, ch, n), k) =~= Seq::<CallModel>::empty());
    }
}

/// The calls owed to `k` by a run of changes in which `k` appears exactly
/// once.
proof fn lemma_changed_calls_key(
    s: Seq<EntryModel>,
    ch: Seq<(Seq<char>, ValueModel)>,
    n: int,
    k: Seq<char>,
    ci: int,
)
    requires
        0 <= ci < n <= ch.len(),
        ch[ci].0 == k,
        forall|j: int| 0 <= j < n && j != ci ==> ch[j].0 != k,
    ensures
        calls_for_key(changed_calls(s, ch, n), k) == calls_of(handlers_of(s, k), k, Some(ch[ci].1)),
    decreases n,
{
    let mid = apply_changed(s, ch, n - 1);
    let step = change_calls_one(mid, ch[n - 1].0, ch[n - 1].1);
    lemma_calls_for_key_add(changed_calls(s, ch, n - 1), step, k);
    if ci == n - 1 {
        lemma_changed_calls_avoid(s, ch, n - 1, k);
        lemma_apply_changed_handlers(s, ch, n - 1, k);
        assert forall|i: int| 0 <= i < step.len() implies #[trigger] step[i].name == k by {}
        lemma_calls_for_key_all(step, k);
        assert(calls_for_key(changed_calls(s, ch, n), k) =~= step);
    } else {
        lemma_changed_calls_key(s, ch, n - 1, k, ci);
        assert forall|i: int| 0 <= i < step.len() implies #[trigger] step[i].name != k by {}
        lemma_calls_for_key_none(step, k);
        assert(calls_for_key(changed_calls(s, ch, n), k) =~= calls_of(
            handlers_of(s, k),
            k,
            Some(ch[ci].1),
        ));
    }
}

/// The calls owed to `k` by a run of invalidations in which `k` appears
/// exactly once.
proof fn lemma_invalidated_calls_key(
    s: Seq<EntryModel>,
    inv: Seq<Seq<char>>,
    n: int,
    k: Seq<char>,
    ii: int,
)
    requires
        0 <= ii < n <= inv.len(),
        inv[ii] == k,
        forall|j: int| 0 <= j < n && j != ii ==> inv[j] != k,
    ensures
        calls_for_key(invalidated_calls(s, inv, n), k) == calls_of(handlers_of(s, k), k, None),
    decreases n,
{
    let mid = apply_invalidated(s, inv, n - 1);
    let step = invalidate_calls_one(mid, inv[n - 1]);
    lemma_calls_for_key_add(invalidated_calls(s, inv, n - 1), step, k);
    if ii == n - 1 {
        lemma_invalidated_calls_avoid(s, inv, n - 1, k);
        lemma_apply_invalidated_handlers(s, inv, n - 1, k);
        lemma_find_from_props(mid, k, 0);
        assert forall|i: int| 0 <= i < step.len() implies #[trigger] step[i].name == k by {}
        lemma_calls_for_key_all(step, k);
        match find_entry(mid, k) {
            Some(i) => {
                assert(step =~= calls_of(handlers_of(s, k), k, None));
            },
            None => {
                assert(handlers_of(mid, k) =~= Seq::<u64>::empty());
                assert(step =~= calls_of(handlers_of(s, k), k, None));
            },
        }
        assert(calls_for_key(invalidated_calls(s, inv, n), k) =~= calls_of(
            handlers_of(s, k),
            k,
            None,
        ));
    } else {
        lemma_invalidated_calls_key(s, inv, n - 1, k, ii);
        lemma_find_from_props(mid, inv[n - 1], 0);
        assert forall|i: int| 0 <= i < step.len() implies #[trigger] step[i].name != k by {}
        lemma_calls_for_key_none(step, k);
        assert(calls_for_key(invalidated_calls(s, inv, n), k) =~= calls_of(
            handlers_of(s, k),
            k,
            None,
        ));
    }
}

/// Callback exhaustiveness for a changed property: an emission whose
/// changed map mentions `k` exactly once, with value `v`, and whose
/// invalidated list does not, owes `k` exactly one call per callback
/// registered for `k`, each with argument `v`, in registration order.
pub proof fn lemma_callback_exhaustiveness_changed(
    s: Seq<EntryModel>,
    ch: Seq<(Seq<char>, ValueModel)>,
    inv: Seq<Seq<char>>,
    k: Seq<char>,
    ci: int,
)
    requires
        0 <= ci < ch.len(),
        ch[ci].0 == k,
        forall|j: int| 0 <= j < ch.len() && j != ci ==> ch[j].0 != k,
        forall|j: int| 0 <= j < inv.len() ==> inv[j] != k,
    ensures
        calls_for_key(update_calls(s, ch, inv), k) == calls_of(
            handlers_of(s, k),
            k,
            Some(ch[ci].1),
        ),
        calls_for_key(update_calls(s, ch, inv), k).len() == handlers_of(s, k).len(),
{
    let mid = apply_invalidated(s, inv, inv.len() as int);
    lemma_calls_for_key_add(
        invalidated_calls(s, inv, inv.len() as int),
        changed_calls(mid, ch, ch.len() as int),
        k,
    );
    lemma_invalidated_calls_avoid(s, inv, inv.len() as int, k);
    lemma_changed_calls_key(mid, ch, ch.len() as int, k, ci);
    lemma_apply_invalidated_handlers(s, inv, inv.len() as int, k);
    assert(calls_for_key(update_calls(s, ch, inv), k) =~= calls_of(
        handlers_of(s, k),
        k,
        Some(ch[ci].1),
    ));
}

/// Callback exhaustiveness for an invalidated property: an emission whose
/// invalidated list mentions `k` exactly once, and whose changed map does
/// not, owes `k` exactly one call per callback registered for `k`, each
/// with an absent argument, in registration order.
pub proof fn lemma_callback_exhaustiveness_invalidated(
    s: Seq<EntryModel>,
    ch: Seq<(Seq<char>, ValueModel)>,
    inv: Seq<Seq<char>>,
    k: Seq<char>,
    ii: int,
)
    requires
        0 <= ii < inv.len(),
        inv[ii] == k,
        forall|j: int| 0 <= j < inv.len() && j != ii ==> inv[j] != k,
        forall|j: int| 0 <= j < ch.len() ==> ch[j].0 != k,
    ensures
        calls_for_key(update_calls(s, ch, inv), k) == calls_of(handlers_of(s, k), k, None),
        calls_for_key(update_calls(s, ch, inv), k).len() == handlers_of(s, k).len(),
{
    let mid = apply_invalidated(s, inv, inv.len() as int);
    lemma_calls_for_key_add(
        invalidated_calls(s, inv, inv.len() as int),
        changed_calls(mid, ch, ch.len() as int),
        k,
    );
    lemma_invalidated_calls_key(s, inv, inv.len() as int, k, ii);
    lemma_changed_calls_avoid(mid, ch, ch.len() as int, k);
    assert(calls_for_key(update_calls(s, ch, inv), k) =~= calls_of(handlers_of(s, k), k, None));
}

/// A whole update preserves well-formedness.
pub proof fn lemma_update_entries_wf(
    s: Seq<EntryModel>,
    ch: Seq<(Seq<char>, ValueModel)>,
    inv: Seq<Seq<char>>,
    next: u64,
)
    requires
        entries_wf(s, next),
    ensures
        entries_wf(update_entries(s, ch, inv), next),
{
    lemma_apply_invalidated_wf(s, inv, inv.len() as int, next);
    lemma_apply_changed_wf(apply_invalidated(s, inv, inv.len() as int), ch, ch.len() as int, next);
}

} // verus!
