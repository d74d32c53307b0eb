use vstd::prelude::*;
use fnv::FnvHashMap;

verus! {

#[verifier::external_type_specification]
#[verifier::external_body]
pub struct ExFnvHasher(fnv::FnvHasher);

#[verifier::external_type_specification]
#[verifier::external_body]
#[verifier::reject_recursive_types(H)]
pub struct ExBuildHasherDefault<H>(std::hash::BuildHasherDefault<H>);

/// Calls std's `HashMap::insert` on a map with FNV hashing. FNV hashes a key
/// the same way every time, and `i64`'s `Eq` and `Hash` agree, so the map
/// behaves as std documents: the key now maps to the value, and the value it
/// mapped to before, if any, is handed back.
#[verifier::external_body]
fn fnv_insert<S>(m: &mut FnvHashMap<i64, S>, k: i64, v: S) -> (r: Option<S>)
    ensures
        final(m)@ == old(m)@.insert(k, v),
        match r {
            Some(o) => old(m)@.contains_key(k) && o == old(m)@[k],
            None => !old(m)@.contains_key(k),
        },
{
    m.insert(k, v)
}

/// Calls std's `HashMap::remove` on a map with FNV hashing: the key no longer
/// maps to anything, and the value it mapped to, if any, is handed back.
#[verifier::external_body]
fn fnv_remove<S>(m: &mut FnvHashMap<i64, S>, k: i64) -> (r: Option<S>)
    ensures
        final(m)@ == old(m)@.remove(k),
        match r {
            Some(o) => old(m)@.contains_key(k) && o == old(m)@[k],
            None => !old(m)@.contains_key(k),
        },
{
    m.remove(&k)
}

/// Calls std's `HashMap::len` on a map with FNV hashing: the number of keys.
#[verifier::external_body]
fn fnv_len<S>(m: &FnvHashMap<i64, S>) -> (n: usize)
    ensures
        n == m@.len(),
{
    m.len()
}

/// The requests that wait for their answers, each with the listener that the
/// answer goes to.
pub struct Listeners<S> {
    channels: FnvHashMap<i64, S>,
}

impl<S> View for Listeners<S> {
    type V = Map<i64, S>;

    closed spec fn view(&self) -> Map<i64, S> {
        self.channels@
    }
}

impl<S> Listeners<S> {
    pub fn new() -> (r: Listeners<S>)
        ensures
            r@ == Map::<i64, S>::empty(),
    {
        Listeners { channels: FnvHashMap::default() }
    }

    /// Registers the listener of request `id`. Request ids are handed out
    /// once each, so a listener that was already there is a conflict: it is
    /// handed back, and the new one takes its place.
    pub fn register(&mut self, id: i64, listener: S) -> (r: Option<S>)
        ensures
            final(self)@ == old(self)@.insert(id, listener),
            match r {
                Some(o) => old(self)@.contains_key(id) && o == old(self)@[id],
                None => !old(self)@.contains_key(id),
            },
    {
        fnv_insert(&mut self.channels, id, listener)
    }

    /// Takes the listener of request `id`, if the request is waiting.
    pub fn take(&mut self, id: i64) -> (r: Option<S>)
        ensures
            final(self)@ == old(self)@.remove(id),
            match r {
                Some(o) => old(self)@.contains_key(id) && o == old(self)@[id],
                None => !old(self)@.contains_key(id),
            },
    {
        fnv_remove(&mut self.channels, id)
    }

    /// How many requests are waiting.
    pub fn len(&self) -> (n: usize)
        ensures
            n == self@.len(),
    {
        fnv_len(&self.channels)
    }
}

/// Law: an answer reaches the listener that was registered for its request,
/// and only once.
pub proof fn law_answer_reaches_its_listener<S>(m: Map<i64, S>, id: i64, listener: S)
    ensures
        m.insert(id, listener).contains_key(id),
        m.insert(id, listener)[id] == listener,
        !m.insert(id, listener).remove(id).contains_key(id),
{
}

} // verus!
