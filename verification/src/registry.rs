//! Process-wide registries: the connection registry maps a client identity to
//! its live control-channel handle, the active-stream registry maps a proxied
//! stream to its in-flight state. Handles and states live outside the
//! library; each registry stores the small integer token the embedding
//! process associates with them. Entries race per key: the last successful
//! write is the visible one.
use vstd::prelude::*;
use vstd::map::*;
use crate::ident::{ClientId, StreamId};

verus! {

/// Concurrent map from an identity's canonical text to a token. The sharded
/// map inside takes many readers and writers without a global lock.
#[verifier::external_body]
pub struct TokenMap {
    inner: dashmap::DashMap<String, u64>,
}

/// The entries the map currently holds, keyed by identity text.
pub uninterp spec fn token_map_entries(m: TokenMap) -> Map<Seq<char>, u64>;

/// The contents of a map that holds nothing.
pub open spec fn no_entries() -> Map<Seq<char>, u64> {
    Map::empty()
}

/// Relies on `dashmap::DashMap::new`: the fresh map holds nothing.
#[verifier::external_body]
fn token_map_new() -> (r: TokenMap)
    ensures
        token_map_entries(r) == no_entries(),
{
    TokenMap { inner: dashmap::DashMap::new() }
}

/// Relies on `dashmap::DashMap::insert`: afterwards `key` holds `value`,
/// replacing any earlier entry for `key`; other keys are untouched.
#[verifier::external_body]
fn token_map_insert(m: &mut TokenMap, key: &str, value: u64)
    ensures
        token_map_entries(*final(m)) == token_map_entries(*old(m)).insert(key@, value),
{
    m.inner.insert(key.to_owned(), value);
}

/// Relies on `dashmap::DashMap::get`: the value stored under `key`, or
/// `None` when the key is absent.
#[verifier::external_body]
fn token_map_get(m: &TokenMap, key: &str) -> (r: Option<u64>)
    ensures
        r == (if token_map_entries(*m).contains_key(key@) {
            Some(token_map_entries(*m)[key@])
        } else {
            None::<u64>
        }),
{
    match m.inner.get(key) {
        Some(entry) => Some(*entry),
        None => None,
    }
}

/// Relies on `dashmap::DashMap::remove`: afterwards the map holds no entry
/// for `key`; other keys are untouched.
#[verifier::external_body]
fn token_map_remove(m: &mut TokenMap, key: &str)
    ensures
        token_map_entries(*final(m)) == token_map_entries(*old(m)).remove(key@),
{
    m.inner.remove(key);
}

/// Registry of live control connections, keyed by client identity.
pub struct Connections {
    map: TokenMap,
}

impl View for Connections {
    type V = Map<Seq<char>, u64>;

    closed spec fn view(&self) -> Map<Seq<char>, u64> {
        token_map_entries(self.map)
    }
}

impl Connections {
    pub fn new() -> (r: Connections)
        ensures
            r@ == Map::<Seq<char>, u64>::empty(),
    {
        Connections { map: token_map_new() }
    }

    /// Records `handle` as the live control channel of `id`, replacing any
    /// earlier one: a reconnecting agent implicitly displaces its old entry.
    pub fn register(&mut self, id: &ClientId, handle: u64)
        ensures
            final(self)@ == old(self)@.insert(id@, handle),
    {
        token_map_insert(&mut self.map, id.as_text(), handle);
    }

    /// The handle registered for `id`, if any.
    pub fn lookup(&self, id: &ClientId) -> (r: Option<u64>)
        ensures
            r == (if self@.contains_key(id@) {
                Some(self@[id@])
            } else {
                None::<u64>
            }),
    {
        token_map_get(&self.map, id.as_text())
    }

    /// Drops the entry of `id`; doing so for an absent key changes nothing.
    pub fn remove(&mut self, id: &ClientId)
        ensures
            final(self)@ == old(self)@.remove(id@),
    {
        token_map_remove(&mut self.map, id.as_text());
    }
}

/// Registry of in-flight proxied streams, keyed by stream identifier, with
/// an insert/remove lifecycle tied to one proxied byte stream.
pub struct ActiveStreams {
    map: TokenMap,
}

impl View for ActiveStreams {
    type V = Map<Seq<char>, u64>;

    closed spec fn view(&self) -> Map<Seq<char>, u64> {
        token_map_entries(self.map)
    }
}

impl ActiveStreams {
    pub fn new() -> (r: ActiveStreams)
        ensures
            r@ == Map::<Seq<char>, u64>::empty(),
    {
        ActiveStreams { map: token_map_new() }
    }

    /// Tracks `state` as the in-flight record of stream `id`.
    pub fn insert(&mut self, id: &StreamId, state: u64)
        ensures
            final(self)@ == old(self)@.insert(id@, state),
    {
        token_map_insert(&mut self.map, id.as_text(), state);
    }

    /// The in-flight record of stream `id`, if any.
    pub fn lookup(&self, id: &StreamId) -> (r: Option<u64>)
        ensures
            r == (if self@.contains_key(id@) {
                Some(self@[id@])
            } else {
                None::<u64>
            }),
    {
        token_map_get(&self.map, id.as_text())
    }

    /// Drops the record of stream `id`; a no-op for an absent key.
    pub fn remove(&mut self, id: &StreamId)
        ensures
            final(self)@ == old(self)@.remove(id@),
    {
        token_map_remove(&mut self.map, id.as_text());
    }
}

/// Registering the same identity twice keeps only the second handle: the
/// later write fully displaces the earlier one, and that second handle is
/// what a lookup then sees.
pub proof fn lemma_register_last_write_wins(
    m: Map<Seq<char>, u64>,
    id: Seq<char>,
    h1: u64,
    h2: u64,
)
    ensures
        m.insert(id, h1).insert(id, h2) == m.insert(id, h2),
        m.insert(id, h1).insert(id, h2)[id] == h2,
{
    assert_maps_equal!(m.insert(id, h1).insert(id, h2), m.insert(id, h2));
}

/// Removing an identity that is not registered changes nothing.
pub proof fn lemma_remove_absent_is_noop(m: Map<Seq<char>, u64>, id: Seq<char>)
    requires
        !m.contains_key(id),
    ensures
        m.remove(id) == m,
{
    assert_maps_equal!(m.remove(id), m);
}

} // verus!
