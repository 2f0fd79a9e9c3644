use vstd::prelude::*;

verus! {

/// A sequence of keys in strictly increasing order.
pub open spec fn increasing(s: Seq<i64>) -> bool {
    forall|i: int, j: int| 0 <= i < j < s.len() ==> s[i] < s[j]
}

/// The keys of a sequence of key/value pairs, in the same order.
pub open spec fn keys_of<V>(s: Seq<(i64, V)>) -> Seq<i64> {
    s.map_values(|p: (i64, V)| p.0)
}

/// What a merge intersection of two key sequences yields: walk both heads,
/// drop the smaller one, and emit a key once when both heads agree.
pub open spec fn intersect(a: Seq<i64>, b: Seq<i64>) -> Seq<i64>
    decreases a.len() + b.len(),
{
    if a.len() == 0 || b.len() == 0 {
        Seq::empty()
    } else if a[0] < b[0] {
        intersect(a.drop_first(), b)
    } else if a[0] > b[0] {
        intersect(a, b.drop_first())
    } else {
        seq![a[0]] + intersect(a.drop_first(), b.drop_first())
    }
}

/// What a merge intersection of two key/value sequences yields: each key
/// that both heads agree on, with the value from each side.
pub open spec fn join_maps<A, B>(a: Seq<(i64, A)>, b: Seq<(i64, B)>) -> Seq<(i64, (A, B))>
    decreases a.len() + b.len(),
{
    if a.len() == 0 || b.len() == 0 {
        Seq::empty()
    } else if a[0].0 < b[0].0 {
        join_maps(a.drop_first(), b)
    } else if a[0].0 > b[0].0 {
        join_maps(a, b.drop_first())
    } else {
        seq![(a[0].0, (a[0].1, b[0].1))] + join_maps(a.drop_first(), b.drop_first())
    }
}

/// What a merge of a key sequence `s` with a key/value sequence `m` yields:
/// the entries of `m` whose key the heads of both sides agree on.
pub open spec fn restrict<V>(s: Seq<i64>, m: Seq<(i64, V)>) -> Seq<(i64, V)>
    decreases s.len() + m.len(),
{
    if s.len() == 0 || m.len() == 0 {
        Seq::empty()
    } else if s[0] < m[0].0 {
        restrict(s.drop_first(), m)
    } else if s[0] > m[0].0 {
        restrict(s, m.drop_first())
    } else {
        seq![(s[0], m[0].1)] + restrict(s.drop_first(), m.drop_first())
    }
}

/// What a merge union of two key/value sequences yields: every head is
/// emitted once, the smaller head first, with the value of each side that
/// holds that key.
pub open spec fn outer_join_maps<A, B>(a: Seq<(i64, A)>, b: Seq<(i64, B)>) -> Seq<
    (i64, (Option<A>, Option<B>)),
>
    decreases a.len() + b.len(),
{
    if a.len() == 0 && b.len() == 0 {
        Seq::empty()
    } else if a.len() == 0 || (b.len() > 0 && b[0].0 < a[0].0) {
        seq![(b[0].0, (None, Some(b[0].1)))] + outer_join_maps(a, b.drop_first())
    } else if b.len() == 0 || a[0].0 < b[0].0 {
        seq![(a[0].0, (Some(a[0].1), None))] + outer_join_maps(a.drop_first(), b)
    } else {
        seq![(a[0].0, (Some(a[0].1), Some(b[0].1)))] + outer_join_maps(
            a.drop_first(),
            b.drop_first(),
        )
    }
}

/// One step of the set intersection, with both heads split off.
pub(crate) proof fn lemma_intersect_step(x: i64, ra: Seq<i64>, y: i64, rb: Seq<i64>)
    ensures
        intersect(seq![x] + ra, seq![y] + rb) == (if x < y {
            intersect(ra, seq![y] + rb)
        } else if x > y {
            intersect(seq![x] + ra, rb)
        } else {
            seq![x] + intersect(ra, rb)
        }),
{
    assert((seq![x] + ra).drop_first() =~= ra);
    assert((seq![y] + rb).drop_first() =~= rb);
}

/// One step of the map intersection, with both heads split off.
pub(crate) proof fn lemma_join_maps_step<A, B>(x: (i64, A), ra: Seq<(i64, A)>, y: (i64, B), rb: Seq<(i64, B)>)
    ensures
        join_maps(seq![x] + ra, seq![y] + rb) == (if x.0 < y.0 {
            join_maps(ra, seq![y] + rb)
        } else if x.0 > y.0 {
            join_maps(seq![x] + ra, rb)
        } else {
            seq![(x.0, (x.1, y.1))] + join_maps(ra, rb)
        }),
{
    assert((seq![x] + ra).drop_first() =~= ra);
    assert((seq![y] + rb).drop_first() =~= rb);
}

/// One step of the restriction of a map to a set, with both heads split off.
pub(crate) proof fn lemma_restrict_step<V>(x: i64, rs: Seq<i64>, y: (i64, V), rm: Seq<(i64, V)>)
    ensures
        restrict(seq![x] + rs, seq![y] + rm) == (if x < y.0 {
            restrict(rs, seq![y] + rm)
        } else if x > y.0 {
            restrict(seq![x] + rs, rm)
        } else {
            seq![(x, y.1)] + restrict(rs, rm)
        }),
{
    assert((seq![x] + rs).drop_first() =~= rs);
    assert((seq![y] + rm).drop_first() =~= rm);
}

/// A sequence is its head followed by the rest.
pub(crate) proof fn lemma_head_rest<T>(s: Seq<T>)
    requires
        s.len() > 0,
    ensures
        s == seq![s[0]] + s.drop_first(),
{
    assert(s =~= seq![s[0]] + s.drop_first());
}

} // verus!
