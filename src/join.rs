use crate::merge::{
    intersect, join_maps, lemma_head_rest, lemma_intersect_step, lemma_join_maps_step,
    lemma_restrict_step, outer_join_maps, restrict,
};
use crate::ordered::{EntryIterator, KeyIterator, OrderedMapIterator, OrderedSetIterator};
use crate::peekable::PeekableEntries;
use vstd::prelude::*;

verus! {

/// The entries of two ordered map sequences that share a key, with both
/// values.
pub struct InnerJoinMapIterator<A, B> {
    a: A,
    b: B,
}

/// The entries of an ordered map sequence whose key occurs in an ordered set
/// sequence.
pub struct InnerJoinMapSetIterator<A, B> {
    map: A,
    set: B,
}

/// The keys that two ordered set sequences have in common.
pub struct InnerJoinSetIterator<A, B> {
    a: A,
    b: B,
}

/// Every key of two ordered map sequences, with the value of each side that
/// holds it.
pub struct OuterJoinIterator<A: EntryIterator, B: EntryIterator> {
    left: PeekableEntries<A>,
    right: PeekableEntries<B>,
}

impl<A: KeyIterator, B: KeyIterator> InnerJoinSetIterator<A, B> {
    pub(crate) fn new(a: A, b: B) -> (r: InnerJoinSetIterator<A, B>)
        requires
            a.wf(),
            b.wf(),
        ensures
            r.wf(),
            r.remaining() == intersect(a.remaining(), b.remaining()),
    {
        InnerJoinSetIterator { a, b }
    }
}

impl<A: KeyIterator, B: KeyIterator> KeyIterator for InnerJoinSetIterator<A, B> {
    closed spec fn remaining(&self) -> Seq<i64> {
        intersect(self.a.remaining(), self.b.remaining())
    }

    closed spec fn wf(&self) -> bool {
        self.a.wf() && self.b.wf()
    }

    fn next(&mut self) -> (r: Option<i64>) {
        let ghost start = self.remaining();
        let ghost a0 = self.a.remaining();
        let ghost b0 = self.b.remaining();
        let mut key_a = match self.a.next() {
            None => return None,
            Some(k) => k,
        };
        let mut key_b = match self.b.next() {
            None => return None,
            Some(k) => k,
        };
        proof {
            lemma_head_rest(a0);
            lemma_head_rest(b0);
        }
        loop
            invariant
                self.a.wf(),
                self.b.wf(),
                start == old(self).remaining(),
                start == intersect(seq![key_a] + self.a.remaining(), seq![key_b] + self.b.remaining()),
            decreases self.a.remaining().len() + self.b.remaining().len(),
        {
            let ghost ra = self.a.remaining();
            let ghost rb = self.b.remaining();
            proof {
                lemma_intersect_step(key_a, ra, key_b, rb);
            }
            if key_a < key_b {
                match self.a.next() {
                    None => return None,
                    Some(k) => {
                        proof {
                            lemma_head_rest(ra);
                        }
                        key_a = k;
                    },
                }
            } else if key_a > key_b {
                match self.b.next() {
                    None => return None,
                    Some(k) => {
                        proof {
                            lemma_head_rest(rb);
                        }
                        key_b = k;
                    },
                }
            } else {
                return Some(key_a);
            }
        }
    }
}

impl<A: OrderedSetIterator, B: OrderedSetIterator> OrderedSetIterator for InnerJoinSetIterator<A, B> {}

impl<A: EntryIterator, B: EntryIterator> InnerJoinMapIterator<A, B> {
    pub(crate) fn new(a: A, b: B) -> (r: InnerJoinMapIterator<A, B>)
        requires
            a.wf(),
            b.wf(),
        ensures
            r.wf(),
            r.remaining() == join_maps(a.remaining(), b.remaining()),
    {
        InnerJoinMapIterator { a, b }
    }
}

impl<A: EntryIterator, B: EntryIterator> EntryIterator for InnerJoinMapIterator<A, B> {
    type Val = (A::Val, B::Val);

    closed spec fn remaining(&self) -> Seq<(i64, (A::Val, B::Val))> {
        join_maps(self.a.remaining(), self.b.remaining())
    }

    closed spec fn wf(&self) -> bool {
        self.a.wf() && self.b.wf()
    }

    fn next(&mut self) -> (r: Option<(i64, (A::Val, B::Val))>) {
        let ghost start = self.remaining();
        let ghost a0 = self.a.remaining();
        let ghost b0 = self.b.remaining();
        let (mut key_a, mut data_a) = match self.a.next() {
            None => return None,
            Some(p) => p,
        };
        let (mut key_b, mut data_b) = match self.b.next() {
            None => return None,
            Some(p) => p,
        };
        proof {
            lemma_head_rest(a0);
            lemma_head_rest(b0);
        }
        loop
            invariant
                self.a.wf(),
                self.b.wf(),
                start == old(self).remaining(),
                start == join_maps(
                    seq![(key_a, data_a)] + self.a.remaining(),
                    seq![(key_b, data_b)] + self.b.remaining(),
                ),
            decreases self.a.remaining().len() + self.b.remaining().len(),
        {
            let ghost ra = self.a.remaining();
            let ghost rb = self.b.remaining();
            proof {
                lemma_join_maps_step((key_a, data_a), ra, (key_b, data_b), rb);
            }
            if key_a < key_b {
                match self.a.next() {
                    None => return None,
                    Some((k, d)) => {
                        proof {
                            lemma_head_rest(ra);
                        }
                        key_a = k;
                        data_a = d;
                    },
                }
            } else if key_a > key_b {
                match self.b.next() {
                    None => return None,
                    Some((k, d)) => {
                        proof {
                            lemma_head_rest(rb);
                        }
                        key_b = k;
                        data_b = d;
                    },
                }
            } else {
                return Some((key_a, (data_a, data_b)));
            }
        }
    }
}

impl<A: OrderedMapIterator, B: OrderedMapIterator> OrderedMapIterator for InnerJoinMapIterator<A, B> {}

impl<A: EntryIterator, B: KeyIterator> InnerJoinMapSetIterator<A, B> {
    pub(crate) fn new(map: A, set: B) -> (r: InnerJoinMapSetIterator<A, B>)
        requires
            map.wf(),
            set.wf(),
        ensures
            r.wf(),
            r.remaining() == restrict(set.remaining(), map.remaining()),
    {
        InnerJoinMapSetIterator { map, set }
    }
}

impl<A: EntryIterator, B: KeyIterator> EntryIterator for InnerJoinMapSetIterator<A, B> {
    type Val = A::Val;

    closed spec fn remaining(&self) -> Seq<(i64, A::Val)> {
        restrict(self.set.remaining(), self.map.remaining())
    }

    closed spec fn wf(&self) -> bool {
        self.map.wf() && self.set.wf()
    }

    fn next(&mut self) -> (r: Option<(i64, A::Val)>) {
        let ghost start = self.remaining();
        let ghost s0 = self.set.remaining();
        let ghost m0 = self.map.remaining();
        let mut key_set = match self.set.next() {
            None => return None,
            Some(k) => k,
        };
        let (mut key_map, mut data) = match self.map.next() {
            None => return None,
            Some(p) => p,
        };
        proof {
            lemma_head_rest(s0);
            lemma_head_rest(m0);
        }
        loop
            invariant
                self.map.wf(),
                self.set.wf(),
                start == old(self).remaining(),
                start == restrict(
                    seq![key_set] + self.set.remaining(),
                    seq![(key_map, data)] + self.map.remaining(),
                ),
            decreases self.set.remaining().len() + self.map.remaining().len(),
        {
            let ghost rs = self.set.remaining();
            let ghost rm = self.map.remaining();
            proof {
                lemma_restrict_step(key_set, rs, (key_map, data), rm);
            }
            if key_set < key_map {
                match self.set.next() {
                    None => return None,
                    Some(k) => {
                        proof {
                            lemma_head_rest(rs);
                        }
                        key_set = k;
                    },
                }
            } else if key_set > key_map {
                match self.map.next() {
                    None => return None,
                    Some((k, d)) => {
                        proof {
                            lemma_head_rest(rm);
                        }
                        key_map = k;
                        data = d;
                    },
                }
            } else {
                return Some((key_set, data));
            }
        }
    }
}

impl<A: OrderedMapIterator, B: OrderedSetIterator> OrderedMapIterator for InnerJoinMapSetIterator<A, B> {}

impl<A: EntryIterator, B: EntryIterator> OuterJoinIterator<A, B> {
    pub(crate) fn new(left: A, right: B) -> (r: OuterJoinIterator<A, B>)
        requires
            left.wf(),
            right.wf(),
        ensures
            r.wf(),
            r.remaining() == outer_join_maps(left.remaining(), right.remaining()),
    {
        OuterJoinIterator { left: PeekableEntries::new(left), right: PeekableEntries::new(right) }
    }
}

impl<A: EntryIterator, B: EntryIterator> EntryIterator for OuterJoinIterator<A, B> {
    type Val = (Option<A::Val>, Option<B::Val>);

    closed spec fn remaining(&self) -> Seq<(i64, (Option<A::Val>, Option<B::Val>))> {
        outer_join_maps(self.left.remaining(), self.right.remaining())
    }

    closed spec fn wf(&self) -> bool {
        self.left.wf() && self.right.wf()
    }

    fn next(&mut self) -> (r: Option<(i64, (Option<A::Val>, Option<B::Val>))>) {
        // A side whose key was peeked holds a pair, so each pull below yields one.
        let left_key = self.left.peek_key();
        let right_key = self.right.peek_key();
        match (left_key, right_key) {
            (None, None) => None,
            (Some(ka), Some(kb)) if ka == kb => {
                let (k, a) = self.left.next().unwrap();
                let (_, b) = self.right.next().unwrap();
                Some((k, (Some(a), Some(b))))
            },
            (None, Some(_)) => {
                let (k, b) = self.right.next().unwrap();
                Some((k, (None, Some(b))))
            },
            (Some(ka), Some(kb)) if kb < ka => {
                let (k, b) = self.right.next().unwrap();
                Some((k, (None, Some(b))))
            },
            _ => {
                let (k, a) = self.left.next().unwrap();
                Some((k, (Some(a), None)))
            },
        }
    }
}

impl<A: OrderedMapIterator, B: OrderedMapIterator> OrderedMapIterator for OuterJoinIterator<A, B> {}

} // verus!
