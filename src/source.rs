use crate::join::InnerJoinSetIterator;
use crate::ordered::{EntryIterator, KeyIterator, OrderedMapIterator, OrderedSetIterator};
use std::collections::VecDeque;
use vstd::prelude::*;

verus! {

/// An ordered set sequence that owns its keys.
pub struct VecSetIterator {
    keys: VecDeque<i64>,
}

impl VecSetIterator {
    /// The sequence that yields `keys` front to back.
    pub fn new(keys: Vec<i64>) -> (r: VecSetIterator)
        ensures
            r.wf(),
            r.remaining() == keys@,
    {
        let mut keys = keys;
        let ghost all = keys@;
        let mut q: VecDeque<i64> = VecDeque::new();
        while keys.len() > 0
            invariant
                all == keys@ + q@,
            decreases keys.len(),
        {
            let k = keys.pop().unwrap();
            q.push_front(k);
        }
        VecSetIterator { keys: q }
    }
}

impl KeyIterator for VecSetIterator {
    closed spec fn remaining(&self) -> Seq<i64> {
        self.keys@
    }

    closed spec fn wf(&self) -> bool {
        true
    }

    fn next(&mut self) -> (r: Option<i64>) {
        self.keys.pop_front()
    }
}

impl OrderedSetIterator for VecSetIterator {}

/// An ordered map sequence that owns its key/value pairs.
pub struct VecMapIterator<V> {
    entries: VecDeque<(i64, V)>,
}

impl<V> VecMapIterator<V> {
    /// The sequence that yields `entries` front to back.
    pub fn new(entries: Vec<(i64, V)>) -> (r: VecMapIterator<V>)
        ensures
            r.wf(),
            r.remaining() == entries@,
    {
        let mut entries = entries;
        let ghost all = entries@;
        let mut q: VecDeque<(i64, V)> = VecDeque::new();
        while entries.len() > 0
            invariant
                all == entries@ + q@,
            decreases entries.len(),
        {
            let p = entries.pop().unwrap();
            q.push_front(p);
        }
        VecMapIterator { entries: q }
    }
}

impl<V> EntryIterator for VecMapIterator<V> {
    type Val = V;

    closed spec fn remaining(&self) -> Seq<(i64, V)> {
        self.entries@
    }

    closed spec fn wf(&self) -> bool {
        true
    }

    fn next(&mut self) -> (r: Option<(i64, V)>) {
        self.entries.pop_front()
    }
}

impl<V> OrderedMapIterator for VecMapIterator<V> {}

} // verus!
