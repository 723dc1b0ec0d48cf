//! The process-wide document store: a concurrent table mapping an open
//! document's identifier to its current parsed tree. Trees are immutable
//! once built; an update installs a wholly new tree, and readers always see
//! a consistent snapshot.

use std::sync::Arc;
use vstd::prelude::*;

use crate::nodes::Node;

verus! {

/// The concurrent map type of the dashmap crate, opaque to verification;
/// what it holds is spoken of through `dash_contents`.
#[verifier::external_type_specification]
#[verifier::external_body]
#[verifier::reject_recursive_types(K)]
#[verifier::reject_recursive_types(V)]
#[verifier::reject_recursive_types(S)]
pub struct ExDashMap<K, V, S>(dashmap::DashMap<K, V, S>);

/// What a document table holds: the map from document identifier to the
/// tree currently installed for it.
pub uninterp spec fn dash_contents(m: dashmap::DashMap<String, Arc<Node>>) -> Map<
    Seq<char>,
    Arc<Node>,
>;

/// Relies on dashmap::DashMap::new: creates an empty map.
#[verifier::external_body]
fn dash_new() -> (m: dashmap::DashMap<String, Arc<Node>>)
    ensures
        forall|id: Seq<char>| !dash_contents(m).contains_key(id),
{
    dashmap::DashMap::new()
}

/// Relies on dashmap::DashMap::insert: maps `id` to `tree`, replacing any
/// value the map held for `id` before.
#[verifier::external_body]
fn dash_insert(m: &mut dashmap::DashMap<String, Arc<Node>>, id: String, tree: Arc<Node>)
    ensures
        dash_contents(*final(m)) == dash_contents(*old(m)).insert(id@, tree),
{
    m.insert(id, tree);
}

/// Relies on dashmap::DashMap::get: returns the value held for `id`, or
/// none when the map holds no entry for it.
#[verifier::external_body]
fn dash_get(m: &dashmap::DashMap<String, Arc<Node>>, id: &String) -> (r: Option<Arc<Node>>)
    ensures
        match r {
            Some(tree) => dash_contents(*m).contains_key(id@) && tree == dash_contents(*m)[id@],
            None => !dash_contents(*m).contains_key(id@),
        },
{
    m.get(id).map(|entry| entry.value().clone())
}

/// Relies on dashmap::DashMap::remove: removes the entry for `id`, if any.
#[verifier::external_body]
fn dash_remove(m: &mut dashmap::DashMap<String, Arc<Node>>, id: &String)
    ensures
        dash_contents(*final(m)) == dash_contents(*old(m)).remove(id@),
{
    m.remove(id);
}

/// The table of open documents. `put` atomically replaces the tree held
/// for an identifier, `get` returns the current snapshot, `remove` forgets
/// a closed document.
#[derive(Debug)]
pub struct DocumentStore {
    map: dashmap::DashMap<String, Arc<Node>>,
}

impl View for DocumentStore {
    type V = Map<Seq<char>, Arc<Node>>;

    closed spec fn view(&self) -> Map<Seq<char>, Arc<Node>> {
        dash_contents(self.map)
    }
}

impl DocumentStore {
    /// A store with no documents.
    pub fn new() -> (store: Self)
        ensures
            store@ == Map::<Seq<char>, Arc<Node>>::empty(),
    {
        let store = DocumentStore { map: dash_new() };
        proof {
            assert(store@ =~= Map::<Seq<char>, Arc<Node>>::empty());
        }
        store
    }

    /// Installs `tree` as the current snapshot for `id`, replacing any
    /// prior one; other documents are untouched.
    pub fn put(&mut self, id: String, tree: Arc<Node>)
        ensures
            final(self)@ == old(self)@.insert(id@, tree),
    {
        dash_insert(&mut self.map, id, tree);
    }

    /// Returns the snapshot currently installed for `id`, or none when the
    /// identifier was never seen or has been removed.
    pub fn get(&self, id: &String) -> (r: Option<Arc<Node>>)
        ensures
            match r {
                Some(tree) => self@.contains_key(id@) && tree == self@[id@],
                None => !self@.contains_key(id@),
            },
    {
        dash_get(&self.map, id)
    }

    /// Removes the snapshot for `id`, after which the identifier reads as
    /// absent.
    pub fn remove(&mut self, id: &String)
        ensures
            final(self)@ == old(self)@.remove(id@),
    {
        dash_remove(&mut self.map, id);
    }
}

} // verus!
