use crate::join::{InnerJoinMapIterator, InnerJoinMapSetIterator, InnerJoinSetIterator, OuterJoinIterator};
use crate::merge::{intersect, join_maps, outer_join_maps, restrict};
use vstd::prelude::*;

verus! {

/// A sequence of keys that is pulled one key at a time.
pub trait KeyIterator: Sized {
    /// The keys still to come, in the order they will be yielded.
    spec fn remaining(&self) -> Seq<i64>;

    /// The internal consistency of the sequence.
    spec fn wf(&self) -> bool;

    /// Pulls the next key. Once a pull yields nothing, every later pull
    /// yields nothing too.
    fn next(&mut self) -> (r: Option<i64>)
        requires
            old(self).wf(),
        ensures
            final(self).wf(),
            match r {
                None => old(self).remaining().len() == 0 && final(self).remaining().len() == 0,
                Some(k) => old(self).remaining().len() > 0 && k == old(self).remaining()[0]
                    && final(self).remaining() == old(self).remaining().drop_first(),
            },
    ;
}

/// A sequence of key/value pairs that is pulled one pair at a time.
pub trait EntryIterator: Sized {
    /// The type of the values paired with the keys.
    type Val;

    /// The pairs still to come, in the order they will be yielded.
    spec fn remaining(&self) -> Seq<(i64, Self::Val)>;

    /// The internal consistency of the sequence.
    spec fn wf(&self) -> bool;

    /// Pulls the next pair. Once a pull yields nothing, every later pull
    /// yields nothing too.
    fn next(&mut self) -> (r: Option<(i64, Self::Val)>)
        requires
            old(self).wf(),
        ensures
            final(self).wf(),
            match r {
                None => old(self).remaining().len() == 0 && final(self).remaining().len() == 0,
                Some(p) => old(self).remaining().len() > 0 && p == old(self).remaining()[0]
                    && final(self).remaining() == old(self).remaining().drop_first(),
            },
    ;
}

/// A key sequence whose keys come in strictly increasing order, and that can
/// be joined with other ordered sequences.
///
/// The order is the implementor's promise and is not checked: the joins stay
/// well defined without it, but then the order of what they yield means
/// nothing. The same promise is expected of every operand of a join.
pub trait OrderedSetIterator: KeyIterator {
    /// Keeps the entries of `map` whose key is also a key of this set.
    fn inner_join_map<I: EntryIterator>(self, map: I) -> (r: InnerJoinMapSetIterator<I, Self>)
        requires
            self.wf(),
            map.wf(),
        ensures
            r.wf(),
            r.remaining() == restrict(self.remaining(), map.remaining()),
    {
        InnerJoinMapSetIterator::new(map, self)
    }

    /// Keeps the keys that also occur in `set`.
    fn inner_join_set<I: KeyIterator>(self, set: I) -> (r: InnerJoinSetIterator<Self, I>)
        requires
            self.wf(),
            set.wf(),
        ensures
            r.wf(),
            r.remaining() == intersect(self.remaining(), set.remaining()),
    {
        InnerJoinSetIterator::new(self, set)
    }
}

/// A key/value sequence whose keys come in strictly increasing order, and
/// that can be joined with other ordered sequences.
///
/// As for sets, the order is the implementor's promise and is not checked.
pub trait OrderedMapIterator: EntryIterator {
    /// Pairs up the values of the keys that occur in both maps.
    fn inner_join_map<I: EntryIterator>(self, map: I) -> (r: InnerJoinMapIterator<Self, I>)
        requires
            self.wf(),
            map.wf(),
        ensures
            r.wf(),
            r.remaining() == join_maps(self.remaining(), map.remaining()),
    {
        InnerJoinMapIterator::new(self, map)
    }

    /// Keeps the entries whose key is also a key of `set`.
    fn inner_join_set<I: KeyIterator>(self, set: I) -> (r: InnerJoinMapSetIterator<Self, I>)
        requires
            self.wf(),
            set.wf(),
        ensures
            r.wf(),
            r.remaining() == restrict(set.remaining(), self.remaining()),
    {
        InnerJoinMapSetIterator::new(self, set)
    }

    /// Yields every key of either map once, in increasing order, with the
    /// value of each side that holds it and `None` for a side that does not.
    fn outer_join<I: EntryIterator>(self, right: I) -> (r: OuterJoinIterator<Self, I>)
        requires
            self.wf(),
            right.wf(),
        ensures
            r.wf(),
            r.remaining() == outer_join_maps(self.remaining(), right.remaining()),
    {
        OuterJoinIterator::new(self, right)
    }
}

} // verus!
