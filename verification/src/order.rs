//! Putting values in order.
//!
//! What a cache lists comes in no particular order, and a record of it must not depend on that: so
//! everything that is gathered from one is sorted before it is kept.
use vstd::prelude::*;
use vstd::relations;
use vstd::seq_lib;

use crate::text;
use crate::text::before;

verus! {

/// A type whose values have a strict total order.
pub trait Ordered: DeepView + Sized {
    /// `a` comes strictly before `b`.
    spec fn precedes(a: <Self as DeepView>::V, b: <Self as DeepView>::V) -> bool;

    /// The order is strict.
    proof fn strict(a: <Self as DeepView>::V, b: <Self as DeepView>::V)
        ensures
            Self::precedes(a, b) ==> a != b && !Self::precedes(b, a),
    ;

    /// The order is total.
    proof fn total(a: <Self as DeepView>::V, b: <Self as DeepView>::V)
        ensures
            a == b || Self::precedes(a, b) || Self::precedes(b, a),
    ;

    /// The order is transitive.
    proof fn transitive(
        a: <Self as DeepView>::V,
        b: <Self as DeepView>::V,
        c: <Self as DeepView>::V,
    )
        requires
            Self::precedes(a, b),
            Self::precedes(b, c),
        ensures
            Self::precedes(a, c),
    ;

    fn is_before(&self, other: &Self) -> (r: bool)
        ensures
            r == Self::precedes(self.deep_view(), other.deep_view()),
    ;

    fn duplicate(&self) -> (r: Self)
        ensures
            r.deep_view() == self.deep_view(),
    ;
}

/// `a` does not come after `b`.
pub open spec fn up_to<T: Ordered>() -> spec_fn(
    <T as DeepView>::V,
    <T as DeepView>::V,
) -> bool {
    |a: <T as DeepView>::V, b: <T as DeepView>::V| !T::precedes(b, a)
}

/// The values of `s` in order.
pub open spec fn in_order<T: Ordered>(s: Seq<<T as DeepView>::V>) -> Seq<<T as DeepView>::V> {
    s.sort_by(up_to::<T>())
}

/// `s` without the values that repeat the one before them.
pub open spec fn without_repeats<A>(s: Seq<A>) -> Seq<A>
    decreases s.len(),
{
    if s.len() <= 1 {
        s
    } else if s[s.len() - 2] == s.last() {
        without_repeats(s.drop_last())
    } else {
        without_repeats(s.drop_last()).push(s.last())
    }
}

/// Each value comes strictly before those that follow it.
pub open spec fn ascends<T: Ordered>(s: Seq<<T as DeepView>::V>) -> bool {
    forall|i: int, j: int| 0 <= i < j < s.len() ==> T::precedes(#[trigger] s[i], #[trigger] s[j])
}

/// The values of `s`, each once, in order.
pub open spec fn each_once<T: Ordered>(s: Seq<<T as DeepView>::V>) -> Seq<<T as DeepView>::V> {
    without_repeats(in_order::<T>(s))
}

/// Not to come after is a total order.
pub proof fn up_to_is_total<T: Ordered>()
    ensures
        relations::total_ordering(up_to::<T>()),
{
    let r = up_to::<T>();
    assert forall|x: <T as DeepView>::V| #[trigger] r(x, x) by {
        T::strict(x, x);
    }
    assert forall|x: <T as DeepView>::V, y: <T as DeepView>::V| #[trigger]
        r(x, y) && #[trigger] r(y, x) implies x == y by {
        T::total(x, y);
    }
    assert forall|x: <T as DeepView>::V, y: <T as DeepView>::V, z: <T as DeepView>::V| #[trigger]
        r(x, y) && #[trigger] r(y, z) implies r(x, z) by {
        T::total(x, y);
        T::total(y, z);
        if T::precedes(z, x) {
            if x == y {
                assert(!T::precedes(z, y));
            } else if y == z {
                assert(!T::precedes(y, x));
            } else {
                T::transitive(x, y, z);
                T::strict(x, z);
            }
        }
    }
    assert forall|x: <T as DeepView>::V, y: <T as DeepView>::V|
        #![trigger r(x, y), r(y, x)]
        r(x, y) || r(y, x) by {
        T::strict(x, y);
    }
}

/// What is in order and holds the same values is what sorting gives.
proof fn sorted_is_in_order<T: Ordered>(
    s: Seq<<T as DeepView>::V>,
    t: Seq<<T as DeepView>::V>,
)
    requires
        relations::sorted_by(t, up_to::<T>()),
        s.to_multiset() == t.to_multiset(),
    ensures
        t == in_order::<T>(s),
{
    up_to_is_total::<T>();
    s.lemma_sort_by_ensures(up_to::<T>());
    seq_lib::lemma_sorted_unique(t, s.sort_by(up_to::<T>()), up_to::<T>());
}

/// The values of a list in order.
pub fn sort<T: Ordered>(v: &Vec<T>) -> (r: Vec<T>)
    ensures
        r.deep_view() == in_order::<T>(v.deep_view()),
{
    let ghost all = v.deep_view();
    let mut out: Vec<T> = Vec::new();
    let mut i: usize = 0;
    assert(all.subrange(0, 0) =~= out.deep_view());
    while i < v.len()
        invariant
            i <= v.len(),
            all == v.deep_view(),
            relations::sorted_by(out.deep_view(), up_to::<T>()),
            out.deep_view().to_multiset() == all.subrange(0, i as int).to_multiset(),
        decreases v.len() - i,
    {
        let x: T = v[i].duplicate();
        let ghost m = x.deep_view();
        let ghost s = out.deep_view();
        assert(m == all[i as int]);
        let mut j: usize = out.len();
        while j > 0 && x.is_before(&out[j - 1])
            invariant
                j <= out.len(),
                m == x.deep_view(),
                s == out.deep_view(),
                forall|k: int| j <= k < out.len() ==> T::precedes(m, #[trigger] s[k]),
            decreases j,
        {
            assert(s[j - 1] == out@[j - 1].deep_view());
            j -= 1;
        }
        proof {
            if j > 0 {
                assert(s[j - 1] == out@[j - 1].deep_view());
            }
        }
        out.insert(j, x);
        proof {
            let t = s.insert(j as int, m);
            assert(out.deep_view() =~= t);
            up_to_is_total::<T>();
            let r = up_to::<T>();
            assert forall|a: int, b: int| 0 <= a < b < t.len() implies #[trigger] r(t[a], t[b]) by {
                if a == j {
                    T::strict(m, s[b - 1]);
                } else if b == j {
                    if a < j - 1 {
                        assert(r(s[a], s[j - 1]));
                    }
                    assert(r(s[j - 1], m));
                } else {
                    let c = if a < j {
                        a
                    } else {
                        a - 1
                    };
                    let d = if b < j {
                        b
                    } else {
                        b - 1
                    };
                    assert(r(s[c], s[d]));
                }
            }
            seq_lib::to_multiset_insert(s, j as int, m);
            seq_lib::to_multiset_build(all.subrange(0, i as int), m);
            assert(all.subrange(0, i + 1) =~= all.subrange(0, i as int).push(m));
        }
        i += 1;
    }
    proof {
        assert(all.subrange(0, i as int) =~= all);
        sorted_is_in_order::<T>(all, out.deep_view());
    }
    out
}

/// A list without the values that repeat the one before them.
pub fn dedup<T: Ordered>(v: &Vec<T>) -> (r: Vec<T>)
    ensures
        r.deep_view() == without_repeats(v.deep_view()),
{
    let ghost all = v.deep_view();
    let mut out: Vec<T> = Vec::new();
    let mut i: usize = 0;
    assert(all.subrange(0, 0) =~= out.deep_view());
    while i < v.len()
        invariant
            i <= v.len(),
            all == v.deep_view(),
            out.deep_view() == without_repeats(all.subrange(0, i as int)),
        decreases v.len() - i,
    {
        let ghost next = all.subrange(0, i + 1);
        let ghost kept = out.deep_view();
        assert(next.drop_last() =~= all.subrange(0, i as int));
        assert(next.last() == v@[i as int].deep_view());
        if i == 0 {
            out.push(v[i].duplicate());
            assert(out.deep_view() =~= next);
        } else {
            assert(next[next.len() - 2] == v@[i - 1].deep_view());
            proof {
                T::total(v@[i - 1].deep_view(), v@[i as int].deep_view());
                T::strict(v@[i - 1].deep_view(), v@[i as int].deep_view());
                T::strict(v@[i as int].deep_view(), v@[i - 1].deep_view());
            }
            if v[i - 1].is_before(&v[i]) || v[i].is_before(&v[i - 1]) {
                out.push(v[i].duplicate());
                assert(out.deep_view() =~= kept.push(next.last()));
            }
        }
        i += 1;
    }
    assert(all.subrange(0, i as int) =~= all);
    out
}

/// The values of a list, each once, in order.
pub fn sort_once<T: Ordered>(v: &Vec<T>) -> (r: Vec<T>)
    ensures
        r.deep_view() == each_once::<T>(v.deep_view()),
{
    dedup(&sort(v))
}

impl Ordered for String {
    open spec fn precedes(a: Seq<char>, b: Seq<char>) -> bool {
        text::text_before(a, b)
    }

    proof fn strict(a: Seq<char>, b: Seq<char>) {
        text::order_is_strict(a, b);
    }

    proof fn total(a: Seq<char>, b: Seq<char>) {
        text::order_is_total(a, b);
    }

    proof fn transitive(a: Seq<char>, b: Seq<char>, c: Seq<char>) {
        text::order_is_transitive(a, b, c);
    }

    fn is_before(&self, other: &Self) -> (r: bool) {
        before(self.as_str(), other.as_str())
    }

    fn duplicate(&self) -> (r: Self) {
        self.clone()
    }
}

/// `a` comes before `b`, value by value and then by length.
pub open spec fn list_before<T: Ordered>(
    a: Seq<<T as DeepView>::V>,
    b: Seq<<T as DeepView>::V>,
) -> bool
    decreases a.len(),
{
    if b.len() == 0 {
        false
    } else if a.len() == 0 {
        true
    } else if a[0] == b[0] {
        list_before::<T>(a.drop_first(), b.drop_first())
    } else {
        T::precedes(a[0], b[0])
    }
}

/// Lists are ordered value by value, and a list comes before those that it begins.
impl<T: Ordered> Ordered for Vec<T> {
    open spec fn precedes(a: Seq<<T as DeepView>::V>, b: Seq<<T as DeepView>::V>) -> bool {
        list_before::<T>(a, b)
    }

    proof fn strict(a: Seq<<T as DeepView>::V>, b: Seq<<T as DeepView>::V>)
        decreases a.len(),
    {
        if a.len() > 0 && b.len() > 0 {
            if a[0] == b[0] {
                Self::strict(a.drop_first(), b.drop_first());
            } else {
                T::strict(a[0], b[0]);
            }
        }
    }

    proof fn total(a: Seq<<T as DeepView>::V>, b: Seq<<T as DeepView>::V>)
        decreases a.len(),
    {
        if a.len() == 0 && b.len() == 0 {
            assert(a =~= b);
        } else if a.len() > 0 && b.len() > 0 {
            if a[0] == b[0] {
                Self::total(a.drop_first(), b.drop_first());
                if a.drop_first() == b.drop_first() {
                    assert(a =~= seq![a[0]] + a.drop_first());
                    assert(b =~= seq![b[0]] + b.drop_first());
                }
            } else {
                T::total(a[0], b[0]);
            }
        }
    }

    proof fn transitive(
        a: Seq<<T as DeepView>::V>,
        b: Seq<<T as DeepView>::V>,
        c: Seq<<T as DeepView>::V>,
    )
        decreases a.len(),
    {
        if a.len() > 0 {
            if a[0] == b[0] && b[0] == c[0] {
                Self::transitive(a.drop_first(), b.drop_first(), c.drop_first());
            } else if a[0] != b[0] && b[0] != c[0] {
                T::transitive(a[0], b[0], c[0]);
                T::strict(a[0], c[0]);
            }
        }
    }

    fn is_before(&self, other: &Self) -> (r: bool) {
        let ghost a = self.deep_view();
        let ghost b = other.deep_view();
        let mut i: usize = 0;
        assert(a.subrange(0, a.len() as int) =~= a);
        assert(b.subrange(0, b.len() as int) =~= b);
        while i < self.len() && i < other.len()
            invariant
                i <= self.len(),
                i <= other.len(),
                a == self.deep_view(),
                b == other.deep_view(),
                list_before::<T>(a, b) == list_before::<T>(
                    a.subrange(i as int, a.len() as int),
                    b.subrange(i as int, b.len() as int),
                ),
            decreases self.len() - i,
        {
            let ghost x = a.subrange(i as int, a.len() as int);
            let ghost y = b.subrange(i as int, b.len() as int);
            assert(x[0] == self@[i as int].deep_view());
            assert(y[0] == other@[i as int].deep_view());
            proof {
                T::strict(x[0], y[0]);
                T::strict(y[0], x[0]);
                T::total(x[0], y[0]);
            }
            if self[i].is_before(&other[i]) {
                return true;
            }
            if other[i].is_before(&self[i]) {
                return false;
            }
            assert(x.drop_first() =~= a.subrange(i + 1, a.len() as int));
            assert(y.drop_first() =~= b.subrange(i + 1, b.len() as int));
            i += 1;
        }
        i < other.len()
    }

    fn duplicate(&self) -> (r: Self) {
        let mut out: Vec<T> = Vec::new();
        let mut i: usize = 0;
        while i < self.len()
            invariant
                i <= self.len(),
                out@.len() == i,
                forall|k: int|
                    0 <= k < i ==> (#[trigger] out@[k]).deep_view() == self@[k].deep_view(),
            decreases self.len() - i,
        {
            out.push(self[i].duplicate());
            i += 1;
        }
        assert(out.deep_view() =~= self.deep_view());
        out
    }
}

/// Nothing comes before something.
impl<T: Ordered> Ordered for Option<T> {
    open spec fn precedes(a: Option<<T as DeepView>::V>, b: Option<<T as DeepView>::V>) -> bool {
        match b {
            Some(y) => match a {
                Some(x) => T::precedes(x, y),
                None => true,
            },
            None => false,
        }
    }

    proof fn strict(a: Option<<T as DeepView>::V>, b: Option<<T as DeepView>::V>) {
        if a is Some && b is Some {
            T::strict(a->0, b->0);
        }
    }

    proof fn total(a: Option<<T as DeepView>::V>, b: Option<<T as DeepView>::V>) {
        if a is Some && b is Some {
            T::total(a->0, b->0);
        }
    }

    proof fn transitive(
        a: Option<<T as DeepView>::V>,
        b: Option<<T as DeepView>::V>,
        c: Option<<T as DeepView>::V>,
    ) {
        if a is Some {
            T::transitive(a->0, b->0, c->0);
        }
    }

    fn is_before(&self, other: &Self) -> (r: bool) {
        match other {
            Some(y) => match self {
                Some(x) => x.is_before(y),
                None => true,
            },
            None => false,
        }
    }

    fn duplicate(&self) -> (r: Self) {
        match self {
            Some(x) => Some(x.duplicate()),
            None => None,
        }
    }
}

/// The order is transitive, as an implication.
pub proof fn transitive_where_ordered<T: Ordered>(
    a: <T as DeepView>::V,
    b: <T as DeepView>::V,
    c: <T as DeepView>::V,
)
    ensures
        T::precedes(a, b) && T::precedes(b, c) ==> T::precedes(a, c),
{
    if T::precedes(a, b) && T::precedes(b, c) {
        T::transitive(a, b, c);
    }
}

// ---------------------------------------------------------------------------------------------
// Laws
// ---------------------------------------------------------------------------------------------
/// Sorting does not depend on the order in which the values came.
pub proof fn sorting_forgets_the_order<T: Ordered>(
    s: Seq<<T as DeepView>::V>,
    t: Seq<<T as DeepView>::V>,
)
    requires
        s.to_multiset() == t.to_multiset(),
    ensures
        in_order::<T>(s) == in_order::<T>(t),
        each_once::<T>(s) == each_once::<T>(t),
{
    up_to_is_total::<T>();
    s.lemma_sort_by_ensures(up_to::<T>());
    t.lemma_sort_by_ensures(up_to::<T>());
    sorted_is_in_order::<T>(s, in_order::<T>(t));
}

/// Leaving out repeats loses no value and adds none.
pub proof fn nothing_is_lost<A>(s: Seq<A>, x: A)
    ensures
        without_repeats(s).contains(x) <==> s.contains(x),
    decreases s.len(),
{
    if s.len() > 1 {
        let before = s.drop_last();
        let kept = without_repeats(before);
        nothing_is_lost(before, x);
        assert(s[s.len() - 1] == s.last());
        if s.contains(x) {
            let k = choose|k: int| 0 <= k < s.len() && s[k] == x;
            if k < before.len() {
                assert(before[k] == x);
            }
        }
        if before.contains(x) {
            let k = choose|k: int| 0 <= k < before.len() && before[k] == x;
            assert(s[k] == x);
        }
        if s[s.len() - 2] == s.last() {
            assert(before[s.len() - 2] == s.last());
        } else {
            let all = kept.push(s.last());
            assert(all[all.len() - 1] == s.last());
            if kept.contains(x) {
                let k = choose|k: int| 0 <= k < kept.len() && kept[k] == x;
                assert(all[k] == x);
            }
            if all.contains(x) {
                let k = choose|k: int| 0 <= k < all.len() && all[k] == x;
                if k < kept.len() {
                    assert(kept[k] == x);
                }
            }
        }
    }
}

proof fn repeats_gone_it_ascends<T: Ordered>(s: Seq<<T as DeepView>::V>)
    requires
        forall|i: int, j: int|
            0 <= i < j < s.len() ==> !T::precedes(#[trigger] s[j], #[trigger] s[i]),
    ensures
        ascends::<T>(without_repeats(s)),
        s.len() > 0 ==> without_repeats(s).len() > 0 && without_repeats(s).last() == s.last(),
    decreases s.len(),
{
    if s.len() > 1 {
        let before = s.drop_last();
        let kept = without_repeats(before);
        assert forall|i: int, j: int| 0 <= i < j < before.len() implies !T::precedes(
            #[trigger] before[j],
            #[trigger] before[i],
        ) by {
            assert(before[j] == s[j] && before[i] == s[i]);
        }
        repeats_gone_it_ascends::<T>(before);
        let last = s[s.len() - 1];
        let previous = s[s.len() - 2];
        assert(before.last() == previous);
        if previous != last {
            T::total(previous, last);
            let r = kept.push(last);
            assert forall|i: int, j: int| 0 <= i < j < r.len() implies T::precedes(
                #[trigger] r[i],
                #[trigger] r[j],
            ) by {
                if j == kept.len() && i < kept.len() - 1 {
                    assert(T::precedes(kept[i], kept[kept.len() - 1]));
                    T::transitive(kept[i], previous, last);
                }
            }
        }
    }
}

/// What is kept once of each value comes strictly in order, so that nothing occurs twice.
pub proof fn each_once_ascends<T: Ordered>(s: Seq<<T as DeepView>::V>)
    ensures
        ascends::<T>(each_once::<T>(s)),
        each_once::<T>(s).no_duplicates(),
{
    up_to_is_total::<T>();
    s.lemma_sort_by_ensures(up_to::<T>());
    let t = in_order::<T>(s);
    let r = each_once::<T>(s);
    assert forall|i: int, j: int| 0 <= i < j < t.len() implies !T::precedes(
        #[trigger] t[j],
        #[trigger] t[i],
    ) by {
        assert(up_to::<T>()(t[i], t[j]));
    }
    repeats_gone_it_ascends::<T>(t);
    assert forall|i: int, j: int| 0 <= i < r.len() && 0 <= j < r.len() && i != j implies r[i]
        != r[j] by {
        T::strict(r[i], r[j]);
        T::strict(r[j], r[i]);
        if i < j {
            assert(T::precedes(r[i], r[j]));
        } else {
            assert(T::precedes(r[j], r[i]));
        }
    }
}

/// Sorting each once keeps exactly the values that came.
pub proof fn each_value_is_kept<T: Ordered>(s: Seq<<T as DeepView>::V>, x: <T as DeepView>::V)
    ensures
        each_once::<T>(s).contains(x) <==> s.contains(x),
{
    up_to_is_total::<T>();
    s.lemma_sort_by_ensures(up_to::<T>());
    let t = in_order::<T>(s);
    nothing_is_lost(t, x);
    s.to_multiset_ensures();
    t.to_multiset_ensures();
    assert(s.to_multiset().contains(x) <==> s.contains(x)) by {
        seq_lib::to_multiset_contains(s, x);
    }
    assert(t.to_multiset().contains(x) <==> t.contains(x)) by {
        seq_lib::to_multiset_contains(t, x);
    }
}

/// What `f` finds in each value of `s`, one after the other.
pub open spec fn gathered<A, B>(s: Seq<A>, f: spec_fn(A) -> Seq<B>) -> Seq<B>
    decreases s.len(),
{
    if s.len() == 0 {
        Seq::empty()
    } else {
        gathered(s.drop_last(), f) + f(s.last())
    }
}

/// What is found in one value can be counted apart.
proof fn gathered_apart<A, B>(s: Seq<A>, f: spec_fn(A) -> Seq<B>, k: int)
    requires
        0 <= k < s.len(),
    ensures
        gathered(s, f).to_multiset() == gathered(s.remove(k), f).to_multiset().add(
            f(s[k]).to_multiset(),
        ),
    decreases s.len(),
{
    let before = s.drop_last();
    seq_lib::lemma_multiset_commutative(gathered(before, f), f(s.last()));
    if k == s.len() - 1 {
        assert(s.remove(k) =~= before);
    } else {
        gathered_apart(before, f, k);
        let rest = s.remove(k);
        assert(rest.drop_last() =~= before.remove(k));
        assert(rest.last() == s.last());
        seq_lib::lemma_multiset_commutative(gathered(before.remove(k), f), f(s.last()));
        assert(gathered(s, f).to_multiset() =~= gathered(rest, f).to_multiset().add(
            f(s[k]).to_multiset(),
        ));
    }
}

/// What is found does not depend on the order in which it is looked for, but for its own order.
pub proof fn gathering_forgets_the_order<A, B>(s: Seq<A>, t: Seq<A>, f: spec_fn(A) -> Seq<B>)
    requires
        s.to_multiset() == t.to_multiset(),
    ensures
        gathered(s, f).to_multiset() == gathered(t, f).to_multiset(),
    decreases s.len(),
{
    seq_lib::to_multiset_len(s);
    seq_lib::to_multiset_len(t);
    if s.len() > 0 {
        let x = s.last();
        assert(s[s.len() - 1] == x);
        seq_lib::to_multiset_contains(s, x);
        seq_lib::to_multiset_contains(t, x);
        let k = choose|k: int| 0 <= k < t.len() && t[k] == x;
        seq_lib::to_multiset_remove(t, k);
        seq_lib::to_multiset_remove(s, s.len() - 1);
        assert(s.remove(s.len() - 1) =~= s.drop_last());
        gathering_forgets_the_order(s.drop_last(), t.remove(k), f);
        gathered_apart(s, f, s.len() - 1);
        gathered_apart(t, f, k);
    } else {
        assert(s =~= t);
    }
}

} // verus!
