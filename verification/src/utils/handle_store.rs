//! Objects handed out to the caller under integer handles.
use vstd::prelude::*;

use std::collections::HashMap;
use std::sync::Arc;

verus! {

broadcast use vstd::std_specs::hash::group_hash_axioms;

/// Objects kept under handles. Handles are issued in order, `1, 2, 3, ...`
/// (the count of insertions, truncated to `i32`); a handle stays valid until
/// it is removed.
pub struct HandleStore<T> {
    ids_counter: usize,
    map: HashMap<i32, Arc<T>>,
}

/// A copy of the shared pointer, pointing to the same object (`Arc::clone`).
#[verifier::external_body]
pub(crate) fn arc_clone<T>(a: &Arc<T>) -> (r: Arc<T>)
    ensures
        *r == **a,
{
    a.clone()
}

impl<T> HandleStore<T> {
    /// The objects, by handle.
    pub closed spec fn handles(&self) -> Map<i32, T> {
        self.map@.map_values(|a: Arc<T>| *a)
    }

    /// How many handles have been issued.
    pub closed spec fn issued(&self) -> nat {
        self.ids_counter as nat
    }

    /// While the handles issued still fit in `i32` without wrapping, every
    /// live handle is one of them: between 1 and the number issued.
    pub closed spec fn wf(&self) -> bool {
        self.ids_counter <= i32::MAX ==> forall|k: i32|
            #![trigger self.map@.contains_key(k)]
            self.map@.contains_key(k) ==> 1 <= k <= self.ids_counter
    }

    /// Whether another handle can be issued.
    pub fn can_insert(&self) -> (r: bool)
        ensures
            r == (self.issued() < usize::MAX),
    {
        self.ids_counter < usize::MAX
    }

    /// An empty store.
    pub fn new() -> (r: Self)
        ensures
            r.wf(),
            r.handles() == Map::<i32, T>::empty(),
            r.issued() == 0,
    {
        let r = HandleStore { ids_counter: 0, map: HashMap::new() };
        assert(r.handles() =~= Map::<i32, T>::empty());
        r
    }

    /// The object under `handle`, if there is one.
    pub fn get(&self, handle: i32) -> (r: Option<Arc<T>>)
        ensures
            match r {
                Some(a) => self.handles().contains_key(handle) && *a == self.handles()[handle],
                None => !self.handles().contains_key(handle),
            },
    {
        match self.map.get(&handle) {
            None => None,
            Some(x) => Some(arc_clone(x)),
        }
    }

    /// Keeps `storage` under a new handle: one more than the number of
    /// handles issued before, truncated to `i32`.
    pub fn insert(&mut self, storage: T) -> (handle: i32)
        requires
            old(self).wf(),
            old(self).issued() < usize::MAX,
        ensures
            final(self).wf(),
            handle == (old(self).issued() + 1) as i32,
            final(self).issued() == old(self).issued() + 1,
            final(self).handles() == old(self).handles().insert(handle, storage),
            old(self).issued() < i32::MAX ==> 1 <= handle && !old(self).handles().contains_key(
                handle,
            ),
    {
        let next = self.ids_counter + 1;
        let handle = next as i32;
        assert(next <= i32::MAX ==> handle == next) by (bit_vector)
            requires
                handle == next as i32,
        ;
        let ghost old_map = self.map@;
        self.ids_counter = next;
        self.map.insert(handle, Arc::new(storage));
        assert(self.handles() =~= old(self).handles().insert(handle, storage));
        handle
    }

    /// Drops the object under `handle`; whether there was one.
    pub fn remove(&mut self, handle: i32) -> (r: bool)
        requires
            old(self).wf(),
        ensures
            final(self).wf(),
            r == old(self).handles().contains_key(handle),
            final(self).handles() == old(self).handles().remove(handle),
            final(self).issued() == old(self).issued(),
    {
        let r = self.map.remove(&handle).is_some();
        assert(self.handles() =~= old(self).handles().remove(handle));
        r
    }
}

/// The handle that the `i`-th of a run of inserts returns (counting from
/// 0), on a store that had issued `issued` handles before the run:
/// `issued + i + 1`, truncated to `i32`. Gets and removes in between do not
/// change it, as they keep the count issued.
pub open spec fn spec_nth_handle(issued: nat, i: nat) -> i32 {
    (issued + i + 1) as i32
}

/// Over a run of `n` further inserts, while their handles fit in `i32`,
/// the handles come out `issued + 1, issued + 2, ...`: positive, increasing
/// (so pairwise distinct), never a handle issued before (so a removed
/// handle is never issued again) and never live.
pub proof fn law_handles_issued_in_order<T>(store: &HandleStore<T>, n: nat)
    requires
        store.wf(),
        store.issued() + n <= i32::MAX,
    ensures
        forall|i: nat|
            i < n ==> #[trigger] spec_nth_handle(store.issued(), i) == store.issued() + i + 1,
        forall|i: nat, j: nat|
            i < j < n ==> #[trigger] spec_nth_handle(store.issued(), i) < #[trigger] spec_nth_handle(
                store.issued(),
                j,
            ),
        forall|i: nat| i < n ==> #[trigger] spec_nth_handle(store.issued(), i) > store.issued(),
        forall|i: nat|
            i < n ==> !store.handles().contains_key(#[trigger] spec_nth_handle(store.issued(), i)),
{
    assert forall|i: nat| i < n implies #[trigger] spec_nth_handle(store.issued(), i) == store.issued()
        + i + 1 by {
        assert(0 < store.issued() + i + 1 <= i32::MAX);
    }
    assert forall|i: nat|
        i < n implies !store.handles().contains_key(#[trigger] spec_nth_handle(store.issued(), i)) by {
        let h = spec_nth_handle(store.issued(), i);
        assert(h == store.issued() + i + 1);
        if store.handles().contains_key(h) {
            assert(store.map@.contains_key(h));
        }
    }
}

/// While fewer than `i32::MAX` handles have been issued, the next handle
/// is positive and no object is under it: a new object never replaces a
/// live one.
pub proof fn law_next_handle_is_fresh<T>(store: &HandleStore<T>)
    requires
        store.wf(),
        store.issued() < i32::MAX,
    ensures
        1 <= (store.issued() + 1) as i32,
        !store.handles().contains_key((store.issued() + 1) as i32),
{
    let h = (store.issued() + 1) as i32;
    assert(h == store.issued() + 1);
    if store.handles().contains_key(h) {
        assert(store.map@.contains_key(h));
    }
}

/// While at most `i32::MAX` handles have been issued, nothing is kept
/// under a handle below 1, such as `-1`.
pub proof fn law_no_object_under_non_positive_handle<T>(store: &HandleStore<T>, handle: i32)
    requires
        store.wf(),
        store.issued() <= i32::MAX,
        handle < 1,
    ensures
        !store.handles().contains_key(handle),
{
    if store.handles().contains_key(handle) {
        assert(store.map@.contains_key(handle));
    }
}

/// What `insert` keeps is what `get` reads back under the handle that
/// `insert` returns; every other handle keeps what it had.
pub proof fn law_read_back_what_was_kept<T>(store: &HandleStore<T>, object: T, other: i32)
    ensures
        ({
            let handle = (store.issued() + 1) as i32;
            let after = store.handles().insert(handle, object);
            &&& after.contains_key(handle)
            &&& after[handle] == object
            &&& other != handle ==> after.contains_key(other) == store.handles().contains_key(other)
            &&& other != handle && store.handles().contains_key(other) ==> after[other]
                == store.handles()[other]
        }),
{
}

/// Once `remove` has dropped a handle, `get` finds nothing under it, and
/// removing it again finds nothing and changes nothing.
pub proof fn law_removed_handle_is_gone<T>(store: &HandleStore<T>, handle: i32)
    ensures
        !store.handles().remove(handle).contains_key(handle),
        store.handles().remove(handle).remove(handle) == store.handles().remove(handle),
{
    assert(store.handles().remove(handle).remove(handle) =~= store.handles().remove(handle));
}

} // verus!
