//! The registry of live windows.

use vstd::prelude::*;
use vstd::std_specs::iter::IteratorSpec;
use std::collections::HashMap;
use std::rc::Rc;
use crate::window::WindowId;

verus! {

broadcast use vstd::std_specs::hash::group_hash_axioms;

/// The live windows, each a shared handle under the identifier of its
/// window.
pub struct WindowRegistry<W> {
    pub(crate) windows: HashMap<u64, Rc<W>>,
}

impl<W> View for WindowRegistry<W> {
    type V = Map<WindowId, Rc<W>>;

    /// The registry as a map from identifiers to handles.
    closed spec fn view(&self) -> Map<WindowId, Rc<W>> {
        Map::new(
            |id: WindowId| self.windows@.contains_key(id.raw),
            |id: WindowId| self.windows@[id.raw],
        )
    }
}

impl<W> WindowRegistry<W> {
    /// Whether a window is registered under `id`.
    pub open spec fn contains(&self, id: WindowId) -> bool {
        self@.contains_key(id)
    }

    /// The number of registered windows.
    pub open spec fn count(&self) -> nat {
        self@.dom().len()
    }

    /// The registry holds finitely many windows.
    pub proof fn lemma_finite(&self)
        ensures
            self@.dom().finite(),
    {
        self.lemma_count_is_stored();
    }

    /// Whether `order` names every registered window exactly once.
    pub open spec fn lists_all(&self, order: Seq<WindowId>) -> bool {
        &&& order.no_duplicates()
        &&& order.to_set() == self@.dom()
    }

    /// The view is the stored map, read by the raw identifier.
    pub(crate) proof fn lemma_view_is_stored(&self)
        ensures
            forall|id: WindowId| #[trigger] self@.contains_key(id) == self.windows@.contains_key(id.raw),
            forall|id: WindowId| self@.contains_key(id) ==> #[trigger] self@[id] == self.windows@[id.raw],
    {
    }

    /// Walking the stored map meets every registered window exactly once:
    /// the identifiers `order` of the walked `entries` name them all, each
    /// with its own handle.
    pub(crate) proof fn lemma_walk_lists_all(
        &self,
        entries: Seq<(&u64, &Rc<W>)>,
        order: Seq<WindowId>,
    )
        requires
            entries == self.windows.iter().remaining(),
            entries.no_duplicates(),
            order.len() == entries.len(),
            forall|i: int|
                0 <= i < order.len() ==> #[trigger] order[i] == (WindowId { raw: *entries[i].0 }),
        ensures
            self.lists_all(order),
            forall|i: int|
                0 <= i < order.len() ==> self@.contains_key(#[trigger] order[i]) && self@[order[i]]
                    == *entries[i].1,
    {
        let stored = self.windows@;
        assert forall|i: int, j: int|
            0 <= i < order.len() && 0 <= j < order.len() && i != j implies order[i] != order[j] by {
            if order[i] == order[j] {
                assert(stored[*entries[i].0] == *entries[i].1);
                assert(stored[*entries[j].0] == *entries[j].1);
                assert(entries[i] == entries[j]);
            }
        }
        assert forall|id: WindowId| self@.dom().contains(id) implies order.to_set().contains(
            id,
        ) by {
            assert(stored.contains_key(id.raw));
            assert(entries.contains((&id.raw, &stored[id.raw])));
            let i = choose|i: int| 0 <= i < entries.len() && entries[i] == (&id.raw, &stored[id.raw]);
            assert(order[i] == id);
        }
        assert forall|id: WindowId| order.to_set().contains(id) implies self@.dom().contains(
            id,
        ) by {
            let i = choose|i: int| 0 <= i < order.len() && order[i] == id;
            assert(stored.contains_key(*entries[i].0));
        }
        assert(order.to_set() =~= self@.dom());
    }

    /// The registry holds as many windows as the map that stores them has
    /// keys.
    pub(crate) proof fn lemma_count_is_stored(&self)
        ensures
            self@.dom().finite(),
            self.count() == self.windows@.dom().len(),
    {
        let raws = self.windows@.dom();
        let ids = raws.map(|raw: u64| WindowId { raw });
        assert(self@.dom() =~= ids) by {
            assert forall|id: WindowId| self@.dom().contains(id) implies ids.contains(id) by {
                assert(raws.contains(id.raw));
                assert(id == WindowId { raw: id.raw });
            }
        }
        raws.lemma_map_finite(|raw: u64| WindowId { raw });
        vstd::set_lib::lemma_map_size(raws, ids, |raw: u64| WindowId { raw });
    }

    /// A registry without windows.
    pub fn new() -> (registry: Self)
        ensures
            registry@ == Map::<WindowId, Rc<W>>::empty(),
    {
        let registry = WindowRegistry { windows: HashMap::new() };
        assert(registry@ =~= Map::<WindowId, Rc<W>>::empty());
        registry
    }

    /// Registers `window` under `id`. A handle that was registered under
    /// `id` before leaves the registry.
    pub fn register_window(&mut self, id: WindowId, window: Rc<W>)
        ensures
            final(self)@ == old(self)@.insert(id, window),
    {
        self.windows.insert(id.raw, window);
        assert(self@ =~= old(self)@.insert(id, window));
    }

    /// Whether a window is registered under `id`.
    pub fn is_registered(&self, id: WindowId) -> (registered: bool)
        ensures
            registered == self.contains(id),
    {
        self.windows.contains_key(&id.raw)
    }

    /// The handle registered under `id`.
    pub fn lookup(&self, id: WindowId) -> (window: &Rc<W>)
        requires
            self.contains(id),
        ensures
            *window == self@[id],
    {
        let found = self.windows.get(&id.raw);
        found.unwrap()
    }

    /// Drops the registry's handle of the window registered under `id`, if
    /// there is one.
    pub fn remove(&mut self, id: WindowId)
        ensures
            final(self)@ == old(self)@.remove(id),
    {
        self.windows.remove(&id.raw);
        assert(self@ =~= old(self)@.remove(id));
    }

    /// The number of registered windows.
    pub fn len(&self) -> (count: usize)
        ensures
            count == self.count(),
    {
        proof {
            self.lemma_count_is_stored();
        }
        self.windows.len()
    }
}

/// After `register_window`, the window is found under its identifier, as
/// the handle that was registered, and what is registered under any other
/// identifier is as it was.
pub proof fn lemma_registered_window_is_found<W>(
    before: WindowRegistry<W>,
    after: WindowRegistry<W>,
    id: WindowId,
    window: Rc<W>,
    other: WindowId,
)
    requires
        after@ == before@.insert(id, window),
        other != id,
    ensures
        after.contains(id),
        after@[id] == window,
        after.contains(other) == before.contains(other),
        before.contains(other) ==> after@[other] == before@[other],
{
}

/// After `remove`, no window is found under the identifier, and what is
/// registered under any other identifier is as it was.
pub proof fn lemma_removed_window_is_not_found<W>(
    before: WindowRegistry<W>,
    after: WindowRegistry<W>,
    id: WindowId,
    other: WindowId,
)
    requires
        after@ == before@.remove(id),
        other != id,
    ensures
        !after.contains(id),
        after.contains(other) == before.contains(other),
        before.contains(other) ==> after@[other] == before@[other],
{
}

} // verus!
