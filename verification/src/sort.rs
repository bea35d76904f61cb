//! A stable sort, and the order of texts.

use vstd::prelude::*;

use crate::text::chars_of;

verus! {

/// Items that are kept in an order. Items of which neither precedes the other
/// rank equally.
pub trait Ranked: Sized {
    /// Whether this item goes before the other.
    spec fn precedes(self, other: Self) -> bool;

    /// Whether this item goes before the other.
    fn goes_before(&self, other: &Self) -> (r: bool)
        ensures
            r == self.precedes(*other),
    ;

    /// An item that precedes another is not preceded by it.
    proof fn asymmetric(a: Self, b: Self)
        requires
            a.precedes(b),
        ensures
            !b.precedes(a),
    ;

    /// What does not precede an item does not precede what goes before it.
    proof fn transitive(a: Self, b: Self, c: Self)
        requires
            !b.precedes(a),
            !c.precedes(b),
        ensures
            !c.precedes(a),
    ;
}

/// Whether no item precedes one that stands before it.
pub open spec fn sorted<T: Ranked>(s: Seq<T>) -> bool {
    forall|i: int, j: int| 0 <= i < j < s.len() ==> !(#[trigger] s[j]).precedes(#[trigger] s[i])
}

/// The position behind the last item that `x` does not precede.
pub open spec fn place<T: Ranked>(s: Seq<T>, x: T) -> int
    decreases s.len(),
{
    if s.len() > 0 && x.precedes(s.last()) {
        place(s.drop_last(), x)
    } else {
        s.len() as int
    }
}

/// The items in order; those that rank equally keep their order.
pub open spec fn stable_sort<T: Ranked>(s: Seq<T>) -> Seq<T>
    decreases s.len(),
{
    if s.len() == 0 {
        s
    } else {
        let rest = stable_sort(s.drop_last());
        rest.insert(place(rest, s.last()), s.last())
    }
}

proof fn lemma_place<T: Ranked>(s: Seq<T>, x: T)
    ensures
        0 <= place(s, x) <= s.len(),
        forall|i: int| place(s, x) <= i < s.len() ==> x.precedes(#[trigger] s[i]),
        place(s, x) > 0 ==> !x.precedes(s[place(s, x) - 1]),
    decreases s.len(),
{
    if s.len() > 0 && x.precedes(s.last()) {
        lemma_place(s.drop_last(), x);
        assert forall|i: int| place(s, x) <= i < s.len() implies x.precedes(#[trigger] s[i]) by {
            if i < s.len() - 1 {
                assert(s.drop_last()[i] == s[i]);
            }
        }
    }
}

/// Sorting yields the same items, in order.
pub proof fn lemma_stable_sort<T: Ranked>(s: Seq<T>)
    ensures
        sorted(stable_sort(s)),
        stable_sort(s).len() == s.len(),
        stable_sort(s).to_multiset() == s.to_multiset(),
    decreases s.len(),
{
    if s.len() > 0 {
        let x = s.last();
        let rest = stable_sort(s.drop_last());
        let p = place(rest, x);
        let r = stable_sort(s);
        lemma_stable_sort(s.drop_last());
        lemma_place(rest, x);
        assert forall|i: int, j: int| 0 <= i < j < r.len() implies !(#[trigger] r[j]).precedes(
            #[trigger] r[i],
        ) by {
            let a = if i < p {
                i
            } else {
                i - 1
            };
            let b = if j < p {
                j
            } else {
                j - 1
            };
            if i == p {
                assert(x.precedes(rest[b]));
                T::asymmetric(x, rest[b]);
            } else if j == p {
                assert(!x.precedes(rest[p - 1]));
                if i < p - 1 {
                    T::transitive(rest[i], rest[p - 1], x);
                }
            } else {
                assert(!rest[b].precedes(rest[a]));
            }
        }
        broadcast use vstd::seq_lib::group_to_multiset_ensures;

        assert(s =~= s.drop_last().push(x));
        assert(r.to_multiset() =~= rest.to_multiset().insert(x));
    }
}

/// Whether two items rank equally.
pub open spec fn equal_rank<T: Ranked>(a: T, b: T) -> bool {
    !a.precedes(b) && !b.precedes(a)
}

/// The items that rank as `x` does, in order.
pub open spec fn ranked_as<T: Ranked>(s: Seq<T>, x: T) -> Seq<T>
    decreases s.len(),
{
    if s.len() == 0 {
        s
    } else if equal_rank(s.last(), x) {
        ranked_as(s.drop_last(), x).push(s.last())
    } else {
        ranked_as(s.drop_last(), x)
    }
}

proof fn lemma_ranked_as_concat<T: Ranked>(s: Seq<T>, t: Seq<T>, x: T)
    ensures
        ranked_as(s + t, x) == ranked_as(s, x) + ranked_as(t, x),
    decreases t.len(),
{
    if t.len() == 0 {
        assert(s + t =~= s);
        assert(ranked_as(s, x) + ranked_as(t, x) =~= ranked_as(s, x));
    } else {
        assert((s + t).drop_last() =~= s + t.drop_last());
        lemma_ranked_as_concat(s, t.drop_last(), x);
        assert(ranked_as(s + t, x) =~= ranked_as(s, x) + ranked_as(t, x));
    }
}

proof fn lemma_ranked_as_none<T: Ranked>(s: Seq<T>, x: T)
    requires
        forall|i: int| 0 <= i < s.len() ==> !equal_rank(#[trigger] s[i], x),
    ensures
        ranked_as(s, x).len() == 0,
    decreases s.len(),
{
    if s.len() > 0 {
        assert forall|i: int| 0 <= i < s.drop_last().len() implies !equal_rank(
            #[trigger] s.drop_last()[i],
            x,
        ) by {
            assert(s.drop_last()[i] == s[i]);
        }
        assert(!equal_rank(s[s.len() - 1], x));
        lemma_ranked_as_none(s.drop_last(), x);
    }
}

/// Sorting keeps the order of the items that rank equally.
pub proof fn lemma_sort_is_stable<T: Ranked>(s: Seq<T>, x: T)
    ensures
        ranked_as(stable_sort(s), x) == ranked_as(s, x),
    decreases s.len(),
{
    if s.len() > 0 {
        let y = s.last();
        let rest = stable_sort(s.drop_last());
        let p = place(rest, y);
        lemma_place(rest, y);
        lemma_sort_is_stable(s.drop_last(), x);
        let head = rest.take(p);
        let tail = rest.skip(p);
        assert(rest =~= head + tail);
        assert(rest.insert(p, y) =~= (head + seq![y]) + tail);
        lemma_ranked_as_concat(head, tail, x);
        lemma_ranked_as_concat(head + seq![y], tail, x);
        lemma_ranked_as_concat(head, seq![y], x);
        let one = seq![y];
        assert(one.last() == y);
        assert(one.drop_last() =~= Seq::<T>::empty());
        assert(ranked_as(one.drop_last(), x) =~= Seq::<T>::empty());
        if equal_rank(y, x) {
            assert forall|i: int| 0 <= i < tail.len() implies !equal_rank(#[trigger] tail[i], x) by {
                assert(tail[i] == rest[p + i]);
                if equal_rank(tail[i], x) {
                    T::transitive(tail[i], x, y);
                    T::transitive(y, x, tail[i]);
                }
            }
            lemma_ranked_as_none(tail, x);
            assert(ranked_as(tail, x) =~= Seq::<T>::empty());
            assert(ranked_as(seq![y], x) =~= seq![y]);
            assert(ranked_as(stable_sort(s), x) =~= ranked_as(rest, x).push(y));
        } else {
            assert(ranked_as(seq![y], x) =~= Seq::<T>::empty());
            assert(ranked_as(stable_sort(s), x) =~= ranked_as(rest, x));
        }
    }
}

/// Sorts items; those that rank equally keep their order.
pub fn sort<T: Ranked>(items: Vec<T>) -> (r: Vec<T>)
    ensures
        r@ == stable_sort(items@),
{
    let ghost all = items@;
    let mut source: Vec<T> = items;
    let mut out: Vec<T> = Vec::new();
    let mut turned: Vec<T> = Vec::new();
    assert(all.take(source@.len() as int) =~= all);
    assert(turned@.reverse() =~= all.skip(all.len() as int));
    while source.len() > 0
        invariant
            source@.len() <= all.len(),
            source@ == all.take(source@.len() as int),
            turned@ == all.skip(source@.len() as int).reverse(),
        decreases source@.len(),
    {
        let ghost n = source@.len();
        match source.pop() {
            Some(item) => {
                turned.push(item);
                assert(all.skip(n - 1) =~= seq![item] + all.skip(n as int));
                assert(turned@ =~= all.skip(n - 1).reverse());
                assert(source@ =~= all.take(n - 1));
            },
            None => {},
        }
    }
    assert(all.skip(0) =~= all);
    assert(out@ =~= stable_sort(all.take(0)));
    while turned.len() > 0
        invariant
            turned@.len() <= all.len(),
            turned@ == all.skip(all.len() - turned@.len()).reverse(),
            out@ == stable_sort(all.take(all.len() - turned@.len())),
        decreases turned@.len(),
    {
        let ghost done = all.len() - turned@.len();
        let ghost rest = all.skip(done);
        match turned.pop() {
            Some(item) => {
                assert(item == rest[0]);
                let mut i: usize = out.len();
                let ghost sorted_part = out@;
                assert(sorted_part.take(i as int) =~= sorted_part);
                while i > 0 && item.goes_before(&out[i - 1])
                    invariant
                        i <= out@.len(),
                        out@ == sorted_part,
                        place(sorted_part, item) == place(sorted_part.take(i as int), item),
                    decreases i,
                {
                    assert(sorted_part.take(i as int).drop_last() =~= sorted_part.take(i - 1));
                    i = i - 1;
                }
                out.insert(i, item);
                proof {
                    assert(all.take(done + 1).drop_last() =~= all.take(done));
                    assert(all.take(done + 1).last() == item);
                    assert(turned@ =~= all.skip(done + 1).reverse());
                }
            },
            None => {},
        }
    }
    assert(all.take(all.len() as int) =~= all);
    out
}

/// Whether every item precedes those that stand behind it.
pub open spec fn strictly_sorted<T: Ranked>(s: Seq<T>) -> bool {
    forall|i: int, j: int| 0 <= i < j < s.len() ==> (#[trigger] s[i]).precedes(#[trigger] s[j])
}

/// There is only one way to put items in strict order.
pub proof fn lemma_strict_order_unique<T: Ranked>(a: Seq<T>, b: Seq<T>)
    requires
        strictly_sorted(a),
        strictly_sorted(b),
        a.to_multiset() == b.to_multiset(),
    ensures
        a == b,
    decreases a.len(),
{
    broadcast use vstd::seq_lib::group_to_multiset_ensures;

    assert(a.len() == a.to_multiset().len());
    assert(b.len() == b.to_multiset().len());
    if a.len() > 0 {
        assert(a.to_multiset().count(a[0]) > 0) by {
            assert(a.contains(a[0]));
        }
        assert(b.contains(a[0]));
        let k = choose|k: int| 0 <= k < b.len() && b[k] == a[0];
        assert(b.to_multiset().count(b[0]) > 0) by {
            assert(b.contains(b[0]));
        }
        assert(a.contains(b[0]));
        let m = choose|m: int| 0 <= m < a.len() && a[m] == b[0];
        if k > 0 {
            assert(b[0].precedes(b[k]));
            T::asymmetric(b[0], b[k]);
            if m > 0 {
                assert(a[0].precedes(a[m]));
            }
        }
        assert(a[0] == b[0]);
        let x = a.skip(1);
        let y = b.skip(1);
        assert(x =~= a.remove(0));
        assert(y =~= b.remove(0));
        assert forall|i: int, j: int| 0 <= i < j < x.len() implies (#[trigger] x[i]).precedes(
            #[trigger] x[j],
        ) by {
            assert(a[i + 1].precedes(a[j + 1]));
        }
        assert forall|i: int, j: int| 0 <= i < j < y.len() implies (#[trigger] y[i]).precedes(
            #[trigger] y[j],
        ) by {
            assert(b[i + 1].precedes(b[j + 1]));
        }
        assert(x.to_multiset() =~= a.to_multiset().remove(a[0]));
        assert(y.to_multiset() =~= b.to_multiset().remove(b[0]));
        lemma_strict_order_unique(x, y);
        assert(a =~= seq![a[0]] + x);
        assert(b =~= seq![b[0]] + y);
    } else {
        assert(a =~= b);
    }
}

/// Whether a text goes before another: at the first difference it has the
/// smaller character, or it is a proper prefix of the other.
pub open spec fn text_before(a: Seq<char>, b: Seq<char>) -> bool
    decreases a.len(),
{
    if b.len() == 0 {
        false
    } else if a.len() == 0 {
        true
    } else if a[0] == b[0] {
        text_before(a.skip(1), b.skip(1))
    } else {
        a[0] < b[0]
    }
}

/// Two texts of which neither goes before the other are the same.
pub proof fn lemma_text_total(a: Seq<char>, b: Seq<char>)
    requires
        !text_before(a, b),
        !text_before(b, a),
    ensures
        a == b,
    decreases a.len(),
{
    if a.len() > 0 && b.len() > 0 {
        lemma_text_total(a.skip(1), b.skip(1));
        assert(a =~= seq![a[0]] + a.skip(1));
        assert(b =~= seq![b[0]] + b.skip(1));
    } else {
        assert(a =~= b);
    }
}

/// The order of texts is strict.
pub proof fn lemma_text_asymmetric(a: Seq<char>, b: Seq<char>)
    requires
        text_before(a, b),
    ensures
        !text_before(b, a),
        a != b,
    decreases a.len(),
{
    if a.len() > 0 && b.len() > 0 && a[0] == b[0] {
        lemma_text_asymmetric(a.skip(1), b.skip(1));
    }
}

/// The order of texts is transitive.
pub proof fn lemma_text_transitive(a: Seq<char>, b: Seq<char>, c: Seq<char>)
    requires
        text_before(a, b),
        text_before(b, c),
    ensures
        text_before(a, c),
    decreases a.len(),
{
    if a.len() > 0 && b.len() > 0 && c.len() > 0 && a[0] == b[0] && b[0] == c[0] {
        lemma_text_transitive(a.skip(1), b.skip(1), c.skip(1));
    }
}

/// Whether a text goes before another.
pub fn is_text_before(a: &str, b: &str) -> (r: bool)
    ensures
        r == text_before(a@, b@),
{
    let x: Vec<char> = chars_of(a);
    let y: Vec<char> = chars_of(b);
    let mut i: usize = 0;
    assert(x@.skip(0) =~= x@);
    assert(y@.skip(0) =~= y@);
    loop
        invariant
            i <= x@.len(),
            i <= y@.len(),
            text_before(x@, y@) == text_before(x@.skip(i as int), y@.skip(i as int)),
            x@ == a@,
            y@ == b@,
        decreases x@.len() - i,
    {
        if i == y.len() {
            return false;
        }
        if i == x.len() {
            return true;
        }
        assert(x@.skip(i as int)[0] == x@[i as int]);
        assert(y@.skip(i as int)[0] == y@[i as int]);
        if x[i] != y[i] {
            return x[i] < y[i];
        }
        assert(x@.skip(i as int).skip(1) =~= x@.skip(i + 1));
        assert(y@.skip(i as int).skip(1) =~= y@.skip(i + 1));
        i = i + 1;
    }
}

} // verus!
