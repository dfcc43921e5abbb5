//! The table of running push-mode relays.
//!
//! Every relay gets the next number of a counter as its id and leaves the
//! value that stops it in the table, from registration until its task ends.

use std::collections::HashMap;
use vstd::prelude::*;

verus! {

broadcast use vstd::std_specs::hash::group_hash_axioms;

/// Running relays by id, each with the value that cancels it.
pub struct StreamHandles<T> {
    counter: u64,
    stoppers: HashMap<u64, T>,
}

impl<T> StreamHandles<T> {
    #[verifier::type_invariant]
    spec fn ids_were_issued(&self) -> bool {
        forall|id: u64| #[trigger] self.stoppers@.contains_key(id) ==> 1 <= id <= self.counter
    }

    /// The id that was issued last; zero before the first.
    pub closed spec fn issued(&self) -> u64 {
        self.counter
    }

    /// The running relays.
    pub closed spec fn active(&self) -> Map<u64, T> {
        self.stoppers@
    }

    /// An empty table whose first id will be 1.
    pub fn new() -> (handles: Self)
        ensures
            handles.issued() == 0,
            handles.active() == Map::<u64, T>::empty(),
    {
        StreamHandles { counter: 0, stoppers: HashMap::new() }
    }

    /// Registers a relay under the next id. Ids grow by one and are never
    /// handed out twice; once the counter is exhausted nothing is registered.
    pub fn register(&mut self, stopper: T) -> (id: Option<u64>)
        ensures
            match id {
                Some(id) => {
                    &&& id == old(self).issued() + 1
                    &&& !old(self).active().contains_key(id)
                    &&& final(self).issued() == id
                    &&& final(self).active() == old(self).active().insert(id, stopper)
                },
                None => {
                    &&& old(self).issued() == u64::MAX
                    &&& final(self).issued() == old(self).issued()
                    &&& final(self).active() == old(self).active()
                },
            },
    {
        proof {
            use_type_invariant(&*self);
        }
        if self.counter == u64::MAX {
            return None;
        }
        let id = self.counter + 1;
        let mut stoppers: HashMap<u64, T> = HashMap::new();
        core::mem::swap(&mut self.stoppers, &mut stoppers);
        self.counter = id;
        stoppers.insert(id, stopper);
        self.stoppers = stoppers;
        Some(id)
    }

    /// Takes a relay out of the table and hands back the value that stops it.
    pub fn take(&mut self, id: u64) -> (stopper: Option<T>)
        ensures
            match stopper {
                Some(s) => old(self).active().contains_key(id) && s == old(self).active()[id],
                None => !old(self).active().contains_key(id),
            },
            final(self).active() == old(self).active().remove(id),
            final(self).issued() == old(self).issued(),
    {
        proof {
            use_type_invariant(&*self);
        }
        let mut stoppers: HashMap<u64, T> = HashMap::new();
        core::mem::swap(&mut self.stoppers, &mut stoppers);
        let stopper = stoppers.remove(&id);
        self.stoppers = stoppers;
        stopper
    }

    /// Number of running relays.
    pub fn count(&self) -> (n: usize)
        ensures
            n == self.active().len(),
    {
        self.stoppers.len()
    }
}

/// Stops a pushed stream: takes it out of the table and hands back the value
/// that cancels it, for the caller to fire. `None` for a stream that is
/// unknown, has ended or was stopped before.
pub fn openai_stream_stop<T>(handles: &mut StreamHandles<T>, id: u64) -> (stopper: Option<T>)
    ensures
        match stopper {
            Some(s) => old(handles).active().contains_key(id) && s == old(handles).active()[id],
            None => !old(handles).active().contains_key(id),
        },
        final(handles).active() == old(handles).active().remove(id),
        final(handles).issued() == old(handles).issued(),
{
    handles.take(id)
}

} // verus!
