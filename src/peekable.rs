use crate::ordered::{EntryIterator, OrderedMapIterator};
use vstd::prelude::*;

verus! {

/// A key/value sequence with room for one pair pulled ahead of time, so that
/// the next key can be looked at without being consumed.
pub struct PeekableEntries<I: EntryIterator> {
    iter: I,
    head: Option<(i64, I::Val)>,
}

impl<I: EntryIterator> PeekableEntries<I> {
    /// Wraps `iter` with nothing pulled ahead yet.
    pub fn new(iter: I) -> (r: PeekableEntries<I>)
        requires
            iter.wf(),
        ensures
            r.wf(),
            r.remaining() == iter.remaining(),
    {
        PeekableEntries { iter, head: None }
    }

    /// The key of the next pair, left in place.
    pub fn peek_key(&mut self) -> (r: Option<i64>)
        requires
            old(self).wf(),
        ensures
            final(self).wf(),
            final(self).remaining() == old(self).remaining(),
            r == (if old(self).remaining().len() > 0 {
                Some(old(self).remaining()[0].0)
            } else {
                None
            }),
    {
        if self.head.is_none() {
            self.head = self.iter.next();
        }
        match &self.head {
            Some(h) => Some(h.0),
            None => None,
        }
    }
}

impl<I: EntryIterator> EntryIterator for PeekableEntries<I> {
    type Val = I::Val;

    closed spec fn remaining(&self) -> Seq<(i64, I::Val)> {
        match self.head {
            Some(h) => seq![h] + self.iter.remaining(),
            None => self.iter.remaining(),
        }
    }

    closed spec fn wf(&self) -> bool {
        self.iter.wf()
    }

    fn next(&mut self) -> (r: Option<(i64, I::Val)>) {
        match self.head.take() {
            Some(h) => {
                proof {
                    assert((seq![h] + self.iter.remaining()).drop_first() =~= self.iter.remaining());
                }
                Some(h)
            },
            None => self.iter.next(),
        }
    }
}

impl<I: OrderedMapIterator> OrderedMapIterator for PeekableEntries<I> {}

} // verus!
