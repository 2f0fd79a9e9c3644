use crate::merge::{increasing, intersect, join_maps, keys_of, outer_join_maps, restrict};
use vstd::prelude::*;

verus! {

// Facts about sequences used by the laws below.

proof fn lemma_contains_cons<T>(h: T, r: Seq<T>)
    ensures
        forall|x: T| #[trigger] (seq![h] + r).contains(x) <==> (x == h || r.contains(x)),
{
    let s = seq![h] + r;
    assert forall|x: T| #[trigger] s.contains(x) implies (x == h || r.contains(x)) by {
        let i = choose|i: int| 0 <= i < s.len() && s[i] == x;
        if i > 0 {
            assert(r[i - 1] == x);
        }
    }
    assert forall|x: T| r.contains(x) implies #[trigger] s.contains(x) by {
        let i = choose|i: int| 0 <= i < r.len() && r[i] == x;
        assert(s[i + 1] == x);
    }
    assert(s[0] == h);
}

proof fn lemma_contains_split<T>(s: Seq<T>)
    requires
        s.len() > 0,
    ensures
        forall|x: T| #[trigger] s.contains(x) <==> (x == s[0] || s.drop_first().contains(x)),
{
    assert(s =~= seq![s[0]] + s.drop_first());
    lemma_contains_cons(s[0], s.drop_first());
}

proof fn lemma_increasing_split(s: Seq<i64>)
    requires
        increasing(s),
        s.len() > 0,
    ensures
        increasing(s.drop_first()),
        forall|x: i64| #[trigger] s.drop_first().contains(x) ==> s[0] < x,
        forall|x: i64| #[trigger] s.contains(x) ==> s[0] <= x,
{
    let r = s.drop_first();
    assert forall|x: i64| #[trigger] r.contains(x) implies s[0] < x by {
        let i = choose|i: int| 0 <= i < r.len() && r[i] == x;
        assert(s[i + 1] == x);
    }
    lemma_contains_split(s);
}

proof fn lemma_increasing_cons(h: i64, r: Seq<i64>)
    requires
        increasing(r),
        forall|x: i64| #[trigger] r.contains(x) ==> h < x,
    ensures
        increasing(seq![h] + r),
{
    let s = seq![h] + r;
    assert forall|i: int, j: int| 0 <= i < j < s.len() implies s[i] < s[j] by {
        if i == 0 {
            assert(r.contains(r[j - 1]));
        } else {
            assert(s[i] == r[i - 1] && s[j] == r[j - 1]);
        }
    }
}

proof fn lemma_keys_split<V>(s: Seq<(i64, V)>)
    requires
        s.len() > 0,
    ensures
        keys_of(s).len() == s.len(),
        keys_of(s)[0] == s[0].0,
        keys_of(s).drop_first() == keys_of(s.drop_first()),
{
    assert(keys_of(s).drop_first() =~= keys_of(s.drop_first()));
}

proof fn lemma_keys_cons<V>(p: (i64, V), r: Seq<(i64, V)>)
    ensures
        keys_of(seq![p] + r) == seq![p.0] + keys_of(r),
{
    assert(keys_of(seq![p] + r) =~= seq![p.0] + keys_of(r));
}

proof fn lemma_keys_contains<V>(s: Seq<(i64, V)>)
    ensures
        forall|p: (i64, V)| #[trigger] s.contains(p) ==> keys_of(s).contains(p.0),
{
    assert forall|p: (i64, V)| #[trigger] s.contains(p) implies keys_of(s).contains(p.0) by {
        let i = choose|i: int| 0 <= i < s.len() && s[i] == p;
        assert(keys_of(s)[i] == p.0);
    }
}

// The set intersection.

proof fn lemma_intersect_members(a: Seq<i64>, b: Seq<i64>)
    ensures
        forall|x: i64| #[trigger] intersect(a, b).contains(x) ==> a.contains(x) && b.contains(x),
    decreases a.len() + b.len(),
{
    let r = intersect(a, b);
    if a.len() == 0 || b.len() == 0 {
        assert(r.len() == 0);
    } else if a[0] < b[0] {
        lemma_intersect_members(a.drop_first(), b);
        lemma_contains_split(a);
        assert(r == intersect(a.drop_first(), b));
    } else if a[0] > b[0] {
        lemma_intersect_members(a, b.drop_first());
        lemma_contains_split(b);
        assert(r == intersect(a, b.drop_first()));
    } else {
        let t = intersect(a.drop_first(), b.drop_first());
        lemma_intersect_members(a.drop_first(), b.drop_first());
        lemma_contains_cons(a[0], t);
        lemma_contains_split(a);
        lemma_contains_split(b);
        assert(r == seq![a[0]] + t);
    }
}

proof fn lemma_intersect_increasing(a: Seq<i64>, b: Seq<i64>)
    requires
        increasing(a),
    ensures
        increasing(intersect(a, b)),
    decreases a.len() + b.len(),
{
    if a.len() == 0 || b.len() == 0 {
    } else {
        lemma_increasing_split(a);
        if a[0] < b[0] {
            lemma_intersect_increasing(a.drop_first(), b);
        } else if a[0] > b[0] {
            lemma_intersect_increasing(a, b.drop_first());
        } else {
            lemma_intersect_increasing(a.drop_first(), b.drop_first());
            lemma_intersect_members(a.drop_first(), b.drop_first());
            lemma_increasing_cons(a[0], intersect(a.drop_first(), b.drop_first()));
        }
    }
}

proof fn lemma_intersect_complete(a: Seq<i64>, b: Seq<i64>, x: i64)
    requires
        increasing(a),
        increasing(b),
        a.contains(x),
        b.contains(x),
    ensures
        intersect(a, b).contains(x),
    decreases a.len() + b.len(),
{
    lemma_increasing_split(a);
    lemma_increasing_split(b);
    lemma_contains_split(a);
    lemma_contains_split(b);
    if a[0] < b[0] {
        lemma_intersect_complete(a.drop_first(), b, x);
    } else if a[0] > b[0] {
        lemma_intersect_complete(a, b.drop_first(), x);
    } else {
        lemma_contains_cons(a[0], intersect(a.drop_first(), b.drop_first()));
        if x != a[0] {
            lemma_intersect_complete(a.drop_first(), b.drop_first(), x);
        }
    }
}

/// The keys that a set-set join yields are the keys common to both inputs,
/// in strictly increasing order, when both inputs are strictly increasing.
pub proof fn inner_join_set_law(a: Seq<i64>, b: Seq<i64>)
    requires
        increasing(a),
        increasing(b),
    ensures
        increasing(intersect(a, b)),
        intersect(a, b).to_set() == a.to_set().intersect(b.to_set()),
{
    lemma_intersect_increasing(a, b);
    lemma_intersect_members(a, b);
    assert forall|x: i64| a.to_set().contains(x) && b.to_set().contains(x) implies #[trigger] intersect(
        a,
        b,
    ).to_set().contains(x) by {
        lemma_intersect_complete(a, b, x);
    }
    assert(intersect(a, b).to_set() =~= a.to_set().intersect(b.to_set()));
}

/// Joining the result of a set-set join with a third set yields the keys
/// common to all three, in strictly increasing order, when all three inputs
/// are strictly increasing.
pub proof fn three_way_join_law(a: Seq<i64>, b: Seq<i64>, c: Seq<i64>)
    requires
        increasing(a),
        increasing(b),
        increasing(c),
    ensures
        increasing(intersect(intersect(a, b), c)),
        intersect(intersect(a, b), c).to_set() == a.to_set().intersect(b.to_set()).intersect(
            c.to_set(),
        ),
{
    inner_join_set_law(a, b);
    inner_join_set_law(intersect(a, b), c);
}

// The map intersection and the restriction of a map to a set.

proof fn lemma_join_maps_keys<A, B>(a: Seq<(i64, A)>, b: Seq<(i64, B)>)
    ensures
        keys_of(join_maps(a, b)) == intersect(keys_of(a), keys_of(b)),
    decreases a.len() + b.len(),
{
    if a.len() == 0 || b.len() == 0 {
        assert(keys_of(join_maps(a, b)) =~= Seq::<i64>::empty());
    } else {
        lemma_keys_split(a);
        lemma_keys_split(b);
        if a[0].0 < b[0].0 {
            lemma_join_maps_keys(a.drop_first(), b);
        } else if a[0].0 > b[0].0 {
            lemma_join_maps_keys(a, b.drop_first());
        } else {
            lemma_join_maps_keys(a.drop_first(), b.drop_first());
            lemma_keys_cons((a[0].0, (a[0].1, b[0].1)), join_maps(a.drop_first(), b.drop_first()));
        }
    }
}

proof fn lemma_join_maps_values<A, B>(a: Seq<(i64, A)>, b: Seq<(i64, B)>)
    ensures
        forall|p: (i64, (A, B))| #[trigger] join_maps(a, b).contains(p) ==> a.contains((p.0, p.1.0))
            && b.contains((p.0, p.1.1)),
    decreases a.len() + b.len(),
{
    let r = join_maps(a, b);
    if a.len() == 0 || b.len() == 0 {
        assert(r.len() == 0);
    } else if a[0].0 < b[0].0 {
        lemma_join_maps_values(a.drop_first(), b);
        lemma_contains_split(a);
        assert(r == join_maps(a.drop_first(), b));
    } else if a[0].0 > b[0].0 {
        lemma_join_maps_values(a, b.drop_first());
        lemma_contains_split(b);
        assert(r == join_maps(a, b.drop_first()));
    } else {
        let t = join_maps(a.drop_first(), b.drop_first());
        lemma_join_maps_values(a.drop_first(), b.drop_first());
        lemma_contains_cons((a[0].0, (a[0].1, b[0].1)), t);
        lemma_contains_split(a);
        lemma_contains_split(b);
        assert(r == seq![(a[0].0, (a[0].1, b[0].1))] + t);
        assert(a[0] == (a[0].0, a[0].1) && b[0] == (b[0].0, b[0].1));
    }
}

proof fn lemma_restrict_keys<V>(s: Seq<i64>, m: Seq<(i64, V)>)
    ensures
        keys_of(restrict(s, m)) == intersect(s, keys_of(m)),
    decreases s.len() + m.len(),
{
    if s.len() == 0 || m.len() == 0 {
        assert(keys_of(restrict(s, m)) =~= Seq::<i64>::empty());
    } else {
        lemma_keys_split(m);
        if s[0] < m[0].0 {
            lemma_restrict_keys(s.drop_first(), m);
        } else if s[0] > m[0].0 {
            lemma_restrict_keys(s, m.drop_first());
        } else {
            lemma_restrict_keys(s.drop_first(), m.drop_first());
            lemma_keys_cons((s[0], m[0].1), restrict(s.drop_first(), m.drop_first()));
        }
    }
}

proof fn lemma_restrict_values<V>(s: Seq<i64>, m: Seq<(i64, V)>)
    ensures
        forall|p: (i64, V)| #[trigger] restrict(s, m).contains(p) ==> m.contains(p),
    decreases s.len() + m.len(),
{
    let r = restrict(s, m);
    if s.len() == 0 || m.len() == 0 {
        assert(r.len() == 0);
    } else if s[0] < m[0].0 {
        lemma_restrict_values(s.drop_first(), m);
        assert(r == restrict(s.drop_first(), m));
    } else if s[0] > m[0].0 {
        lemma_restrict_values(s, m.drop_first());
        lemma_contains_split(m);
        assert(r == restrict(s, m.drop_first()));
    } else {
        let t = restrict(s.drop_first(), m.drop_first());
        lemma_restrict_values(s.drop_first(), m.drop_first());
        lemma_contains_cons((s[0], m[0].1), t);
        lemma_contains_split(m);
        assert(r == seq![(s[0], m[0].1)] + t);
        assert(m[0] == (s[0], m[0].1));
    }
}

/// A map-map inner join of two maps with strictly increasing keys yields
/// strictly increasing keys, exactly the keys common to both maps, and with
/// each key the value that each map holds for it.
pub proof fn inner_join_map_law<A, B>(a: Seq<(i64, A)>, b: Seq<(i64, B)>)
    requires
        increasing(keys_of(a)),
        increasing(keys_of(b)),
    ensures
        increasing(keys_of(join_maps(a, b))),
        keys_of(join_maps(a, b)).to_set() == keys_of(a).to_set().intersect(keys_of(b).to_set()),
        forall|p: (i64, (A, B))| #[trigger] join_maps(a, b).contains(p) ==> a.contains((p.0, p.1.0))
            && b.contains((p.0, p.1.1)),
{
    lemma_join_maps_keys(a, b);
    inner_join_set_law(keys_of(a), keys_of(b));
    lemma_join_maps_values(a, b);
}

/// Filtering a map with strictly increasing keys by a set with strictly
/// increasing keys yields strictly increasing keys, exactly the keys common
/// to both, each with the value that the map holds for it.
pub proof fn inner_join_map_set_law<V>(s: Seq<i64>, m: Seq<(i64, V)>)
    requires
        increasing(s),
        increasing(keys_of(m)),
    ensures
        increasing(keys_of(restrict(s, m))),
        keys_of(restrict(s, m)).to_set() == s.to_set().intersect(keys_of(m).to_set()),
        forall|p: (i64, V)| #[trigger] restrict(s, m).contains(p) ==> m.contains(p),
{
    lemma_restrict_keys(s, m);
    inner_join_set_law(s, keys_of(m));
    lemma_restrict_values(s, m);
}

// The outer join.

proof fn lemma_outer_keys<A, B>(a: Seq<(i64, A)>, b: Seq<(i64, B)>)
    ensures
        forall|k: i64| #[trigger] keys_of(outer_join_maps(a, b)).contains(k) <==> (keys_of(a).contains(
            k,
        ) || keys_of(b).contains(k)),
    decreases a.len() + b.len(),
{
    let r = outer_join_maps(a, b);
    if a.len() > 0 {
        lemma_keys_split(a);
        lemma_contains_split(keys_of(a));
    }
    if b.len() > 0 {
        lemma_keys_split(b);
        lemma_contains_split(keys_of(b));
    }
    if a.len() == 0 && b.len() == 0 {
        assert(keys_of(r).len() == 0);
        assert(keys_of(a).len() == 0 && keys_of(b).len() == 0);
    } else if a.len() == 0 || (b.len() > 0 && b[0].0 < a[0].0) {
        let h = (b[0].0, (None, Some(b[0].1)));
        let t = outer_join_maps(a, b.drop_first());
        lemma_outer_keys(a, b.drop_first());
        lemma_keys_cons(h, t);
        lemma_contains_cons(h.0, keys_of(t));
        if a.len() == 0 {
            assert(keys_of(a).len() == 0);
        }
    } else if b.len() == 0 || a[0].0 < b[0].0 {
        let h = (a[0].0, (Some(a[0].1), None));
        let t = outer_join_maps(a.drop_first(), b);
        lemma_outer_keys(a.drop_first(), b);
        lemma_keys_cons(h, t);
        lemma_contains_cons(h.0, keys_of(t));
        if b.len() == 0 {
            assert(keys_of(b).len() == 0);
        }
    } else {
        let h = (a[0].0, (Some(a[0].1), Some(b[0].1)));
        let t = outer_join_maps(a.drop_first(), b.drop_first());
        lemma_outer_keys(a.drop_first(), b.drop_first());
        lemma_keys_cons(h, t);
        lemma_contains_cons(h.0, keys_of(t));
    }
}

proof fn lemma_outer_values<A, B>(a: Seq<(i64, A)>, b: Seq<(i64, B)>)
    ensures
        forall|p: (i64, (Option<A>, Option<B>))| #[trigger] outer_join_maps(a, b).contains(p) ==> {
            &&& p.1.0 is Some ==> a.contains((p.0, p.1.0->Some_0))
            &&& p.1.1 is Some ==> b.contains((p.0, p.1.1->Some_0))
            &&& p.1.0 is Some || p.1.1 is Some
        },
    decreases a.len() + b.len(),
{
    let r = outer_join_maps(a, b);
    if a.len() > 0 {
        lemma_contains_split(a);
        assert(a[0] == (a[0].0, a[0].1));
    }
    if b.len() > 0 {
        lemma_contains_split(b);
        assert(b[0] == (b[0].0, b[0].1));
    }
    if a.len() == 0 && b.len() == 0 {
        assert(r.len() == 0);
    } else if a.len() == 0 || (b.len() > 0 && b[0].0 < a[0].0) {
        let h = (b[0].0, (None, Some(b[0].1)));
        let t = outer_join_maps(a, b.drop_first());
        lemma_outer_values(a, b.drop_first());
        lemma_contains_cons(h, t);
        assert(r == seq![h] + t);
    } else if b.len() == 0 || a[0].0 < b[0].0 {
        let h = (a[0].0, (Some(a[0].1), None));
        let t = outer_join_maps(a.drop_first(), b);
        lemma_outer_values(a.drop_first(), b);
        lemma_contains_cons(h, t);
        assert(r == seq![h] + t);
    } else {
        let h = (a[0].0, (Some(a[0].1), Some(b[0].1)));
        let t = outer_join_maps(a.drop_first(), b.drop_first());
        lemma_outer_values(a.drop_first(), b.drop_first());
        lemma_contains_cons(h, t);
        assert(r == seq![h] + t);
    }
}

proof fn lemma_outer_increasing<A, B>(a: Seq<(i64, A)>, b: Seq<(i64, B)>)
    requires
        increasing(keys_of(a)),
        increasing(keys_of(b)),
    ensures
        increasing(keys_of(outer_join_maps(a, b))),
        forall|p: (i64, (Option<A>, Option<B>))| #[trigger] outer_join_maps(a, b).contains(p) ==> {
            &&& p.1.0 is None ==> !keys_of(a).contains(p.0)
            &&& p.1.1 is None ==> !keys_of(b).contains(p.0)
        },
    decreases a.len() + b.len(),
{
    let r = outer_join_maps(a, b);
    if a.len() > 0 {
        lemma_keys_split(a);
        lemma_increasing_split(keys_of(a));
        lemma_contains_split(keys_of(a));
    }
    if b.len() > 0 {
        lemma_keys_split(b);
        lemma_increasing_split(keys_of(b));
        lemma_contains_split(keys_of(b));
    }
    if a.len() == 0 && b.len() == 0 {
        assert(r.len() == 0);
        assert(keys_of(r).len() == 0);
    } else if a.len() == 0 || (b.len() > 0 && b[0].0 < a[0].0) {
        let h = (b[0].0, (None, Some(b[0].1)));
        let t = outer_join_maps(a, b.drop_first());
        lemma_outer_increasing(a, b.drop_first());
        lemma_outer_keys(a, b.drop_first());
        lemma_keys_contains(t);
        lemma_keys_cons(h, t);
        lemma_contains_cons(h, t);
        if a.len() == 0 {
            assert(keys_of(a).len() == 0);
        }
        lemma_increasing_cons(h.0, keys_of(t));
        assert(r == seq![h] + t);
    } else if b.len() == 0 || a[0].0 < b[0].0 {
        let h = (a[0].0, (Some(a[0].1), None));
        let t = outer_join_maps(a.drop_first(), b);
        lemma_outer_increasing(a.drop_first(), b);
        lemma_outer_keys(a.drop_first(), b);
        lemma_keys_contains(t);
        lemma_keys_cons(h, t);
        lemma_contains_cons(h, t);
        if b.len() == 0 {
            assert(keys_of(b).len() == 0);
        }
        lemma_increasing_cons(h.0, keys_of(t));
        assert(r == seq![h] + t);
    } else {
        let h = (a[0].0, (Some(a[0].1), Some(b[0].1)));
        let t = outer_join_maps(a.drop_first(), b.drop_first());
        lemma_outer_increasing(a.drop_first(), b.drop_first());
        lemma_outer_keys(a.drop_first(), b.drop_first());
        lemma_keys_contains(t);
        lemma_keys_cons(h, t);
        lemma_contains_cons(h, t);
        lemma_increasing_cons(h.0, keys_of(t));
        assert(r == seq![h] + t);
    }
}

/// An outer join of two maps with strictly increasing keys yields strictly
/// increasing keys, so no key twice, and exactly the keys of either map.
/// With each key comes the value of each map that holds it, and `None` for
/// a map that does not hold it.
pub proof fn outer_join_law<A, B>(a: Seq<(i64, A)>, b: Seq<(i64, B)>)
    requires
        increasing(keys_of(a)),
        increasing(keys_of(b)),
    ensures
        increasing(keys_of(outer_join_maps(a, b))),
        keys_of(outer_join_maps(a, b)).no_duplicates(),
        keys_of(outer_join_maps(a, b)).to_set() == keys_of(a).to_set().union(keys_of(b).to_set()),
        forall|p: (i64, (Option<A>, Option<B>))| #[trigger] outer_join_maps(a, b).contains(p) ==> {
            &&& p.1.0 is Some ==> a.contains((p.0, p.1.0->Some_0))
            &&& p.1.1 is Some ==> b.contains((p.0, p.1.1->Some_0))
            &&& p.1.0 is None ==> !keys_of(a).contains(p.0)
            &&& p.1.1 is None ==> !keys_of(b).contains(p.0)
        },
{
    let k = keys_of(outer_join_maps(a, b));
    lemma_outer_increasing(a, b);
    lemma_outer_keys(a, b);
    lemma_outer_values(a, b);
    assert forall|i: int, j: int| 0 <= i < k.len() && 0 <= j < k.len() && i != j implies k[i]
        != k[j] by {
        if i < j {
            assert(k[i] < k[j]);
        } else {
            assert(k[j] < k[i]);
        }
    }
    assert(k.to_set() =~= keys_of(a).to_set().union(keys_of(b).to_set()));
}

} // verus!
