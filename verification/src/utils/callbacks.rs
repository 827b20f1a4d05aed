//! Command handles and the completion callbacks waiting on them.
use vstd::prelude::*;

use std::collections::HashMap;

use crate::utils::handle_store::spec_nth_handle;

verus! {

broadcast use vstd::std_specs::hash::group_hash_axioms;

/// The counter behind command handles.
pub struct IdsCounter {
    issued: usize,
}

impl IdsCounter {
    /// How many ids have been issued.
    pub closed spec fn issued(&self) -> nat {
        self.issued as nat
    }

    /// A counter that has issued nothing.
    pub fn new() -> (r: Self)
        ensures
            r.issued() == 0,
    {
        IdsCounter { issued: 0 }
    }
}

/// The next command handle: one more than the number issued before,
/// truncated to `i32`.
pub fn get_next_id(counter: &mut IdsCounter) -> (id: i32)
    requires
        old(counter).issued() < usize::MAX,
    ensures
        final(counter).issued() == old(counter).issued() + 1,
        id == (old(counter).issued() + 1) as i32,
{
    counter.issued = counter.issued + 1;
    counter.issued as i32
}

/// Over a run of `n` further calls of `get_next_id`, while the ids fit in
/// `i32`, the `i`-th returns `issued + i + 1`: the ids are exactly
/// `issued + 1 ..= issued + n`, positive, increasing (a later call gets a
/// larger id) and so pairwise distinct.
pub proof fn law_ids_issued_in_order(counter: &IdsCounter, n: nat)
    requires
        counter.issued() + n <= i32::MAX,
    ensures
        forall|i: nat|
            i < n ==> #[trigger] spec_nth_handle(counter.issued(), i) == counter.issued() + i + 1,
        forall|i: nat| i < n ==> #[trigger] spec_nth_handle(counter.issued(), i) >= 1,
        forall|i: nat, j: nat|
            i < j < n ==> #[trigger] spec_nth_handle(counter.issued(), i) < #[trigger] spec_nth_handle(
                counter.issued(),
                j,
            ),
{
    assert forall|i: nat| i < n implies #[trigger] spec_nth_handle(counter.issued(), i)
        == counter.issued() + i + 1 by {
        assert(0 < counter.issued() + i + 1 <= i32::MAX);
    }
}

/// Callbacks waiting for the completion of their command, by command
/// handle.
pub struct Callbacks<C> {
    ids: IdsCounter,
    pending: HashMap<i32, C>,
}

impl<C> Callbacks<C> {
    /// The waiting callbacks, by command handle.
    pub closed spec fn pending(&self) -> Map<i32, C> {
        self.pending@
    }

    /// How many command handles have been issued.
    pub closed spec fn issued(&self) -> nat {
        self.ids.issued()
    }

    /// While the handles issued fit in `i32` without wrapping, every waiting
    /// callback is under one of them: between 1 and the number issued.
    pub closed spec fn wf(&self) -> bool {
        self.ids.issued <= i32::MAX ==> forall|k: i32|
            #![trigger self.pending@.contains_key(k)]
            self.pending@.contains_key(k) ==> 1 <= k <= self.ids.issued
    }

    /// No callback waiting, no handle issued.
    pub fn new() -> (r: Self)
        ensures
            r.wf(),
            r.pending() == Map::<i32, C>::empty(),
            r.issued() == 0,
    {
        Callbacks { ids: IdsCounter::new(), pending: HashMap::new() }
    }

    /// Whether another command handle can be issued.
    pub fn can_register(&self) -> (r: bool)
        ensures
            r == (self.issued() < usize::MAX),
    {
        self.ids.issued < usize::MAX
    }

    /// Takes the callback waiting on `command_handle`, if there is one.
    pub fn take(&mut self, command_handle: i32) -> (r: Option<C>)
        requires
            old(self).wf(),
        ensures
            final(self).wf(),
            final(self).issued() == old(self).issued(),
            final(self).pending() == old(self).pending().remove(command_handle),
            match r {
                Some(c) => old(self).pending().contains_key(command_handle) && c == old(
                    self,
                ).pending()[command_handle],
                None => !old(self).pending().contains_key(command_handle),
            },
    {
        self.pending.remove(&command_handle)
    }
}

/// Registers a completion callback under a new command handle and returns
/// the handle. While fewer than `i32::MAX` handles have been issued, the
/// handle is positive and no callback was waiting under it.
pub fn closure_to_cb_ec<C>(callbacks: &mut Callbacks<C>, closure: C) -> (command_handle: i32)
    requires
        old(callbacks).wf(),
        old(callbacks).issued() < usize::MAX,
    ensures
        final(callbacks).wf(),
        command_handle == (old(callbacks).issued() + 1) as i32,
        final(callbacks).issued() == old(callbacks).issued() + 1,
        final(callbacks).pending() == old(callbacks).pending().insert(command_handle, closure),
        old(callbacks).issued() < i32::MAX ==> 1 <= command_handle && !old(
            callbacks,
        ).pending().contains_key(command_handle),
{
    let next = callbacks.ids.issued + 1;
    let command_handle = get_next_id(&mut callbacks.ids);
    assert(next <= i32::MAX ==> command_handle == next) by (bit_vector)
        requires
            command_handle == next as i32,
    ;
    proof {
        if next <= i32::MAX && callbacks.pending@.contains_key(command_handle) {
            assert(command_handle <= next - 1);
        }
    }
    callbacks.pending.insert(command_handle, closure);
    command_handle
}

/// A closure registered under a new command handle (while fewer than
/// `i32::MAX` have been issued) is the one that `take` gives back under it,
/// and the only one: the other waiting callbacks stay as they were. Once
/// taken, nothing waits under the handle any more, so a second `take` finds
/// nothing and the closure runs at most once.
pub proof fn law_callback_runs_once<C>(callbacks: &Callbacks<C>, closure: C, other: i32)
    requires
        callbacks.wf(),
        callbacks.issued() < i32::MAX,
    ensures
        ({
            let h = (callbacks.issued() + 1) as i32;
            let registered = callbacks.pending().insert(h, closure);
            let taken = registered.remove(h);
            &&& 1 <= h
            &&& !callbacks.pending().contains_key(h)
            &&& registered.contains_key(h)
            &&& registered[h] == closure
            &&& !taken.contains_key(h)
            &&& taken.remove(h) == taken
            &&& other != h ==> taken.contains_key(other) == callbacks.pending().contains_key(other)
            &&& other != h && callbacks.pending().contains_key(other) ==> taken[other]
                == callbacks.pending()[other]
        }),
{
    let h = (callbacks.issued() + 1) as i32;
    assert(0 < callbacks.issued() + 1 <= i32::MAX);
    assert(h == callbacks.issued() + 1);
    if callbacks.pending().contains_key(h) {
        assert(callbacks.pending@.contains_key(h));
    }
    let taken = callbacks.pending().insert(h, closure).remove(h);
    assert(taken.remove(h) =~= taken);
}

} // verus!
