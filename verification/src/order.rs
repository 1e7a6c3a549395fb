//! Lexicographic order and a stable sort.

use vstd::prelude::*;

verus! {

/// `le` is reflexive, total, transitive and antisymmetric.
pub open spec fn is_total_order<T>(le: spec_fn(T, T) -> bool) -> bool {
    &&& forall|x: T, y: T| #[trigger] le(x, y) || le(y, x)
    &&& forall|x: T, y: T, z: T| #[trigger] le(x, y) && #[trigger] le(y, z) ==> le(x, z)
    &&& forall|x: T, y: T| #[trigger] le(x, y) && le(y, x) ==> x == y
}

/// Compares two sequences at their first difference; a proper prefix comes first.
pub open spec fn lex_le<T>(left: Seq<T>, right: Seq<T>, le: spec_fn(T, T) -> bool) -> bool
    decreases left.len(),
{
    if left.len() == 0 {
        true
    } else if right.len() == 0 {
        false
    } else if left[0] != right[0] {
        le(left[0], right[0])
    } else {
        lex_le(left.drop_first(), right.drop_first(), le)
    }
}

pub proof fn lex_le_total<T>(left: Seq<T>, right: Seq<T>, le: spec_fn(T, T) -> bool)
    requires
        is_total_order(le),
    ensures
        lex_le(left, right, le) || lex_le(right, left, le),
    decreases left.len(),
{
    if left.len() > 0 && right.len() > 0 {
        if left[0] == right[0] {
            lex_le_total(left.drop_first(), right.drop_first(), le);
        } else {
            assert(le(left[0], right[0]) || le(right[0], left[0]));
        }
    }
}

pub proof fn lex_le_transitive<T>(a: Seq<T>, b: Seq<T>, c: Seq<T>, le: spec_fn(T, T) -> bool)
    requires
        is_total_order(le),
        lex_le(a, b, le),
        lex_le(b, c, le),
    ensures
        lex_le(a, c, le),
    decreases a.len(),
{
    if a.len() > 0 && b.len() > 0 && c.len() > 0 {
        if a[0] == b[0] && b[0] == c[0] {
            lex_le_transitive(a.drop_first(), b.drop_first(), c.drop_first(), le);
        } else if a[0] != b[0] && b[0] != c[0] {
            assert(le(a[0], b[0]) && le(b[0], c[0]));
            assert(le(a[0], c[0]));
            assert(a[0] == c[0] ==> le(b[0], a[0]));
        }
    }
}

pub proof fn lex_le_antisymmetric<T>(a: Seq<T>, b: Seq<T>, le: spec_fn(T, T) -> bool)
    requires
        is_total_order(le),
        lex_le(a, b, le),
        lex_le(b, a, le),
    ensures
        a == b,
    decreases a.len(),
{
    if a.len() > 0 && b.len() > 0 {
        if a[0] == b[0] {
            lex_le_antisymmetric(a.drop_first(), b.drop_first(), le);
            assert(a == seq![a[0]] + a.drop_first());
            assert(b == seq![b[0]] + b.drop_first());
        } else {
            assert(le(a[0], b[0]) && le(b[0], a[0]));
        }
    } else {
        assert(a =~= b);
    }
}

/// Values that a list can be sorted by.
pub trait Sortable: Sized {
    /// This value may stand before `other`.
    spec fn le(self, other: Self) -> bool;

    proof fn le_total(left: Self, right: Self)
        ensures
            left.le(right) || right.le(left),
    ;

    proof fn le_transitive(a: Self, b: Self, c: Self)
        requires
            a.le(b),
            b.le(c),
        ensures
            a.le(c),
    ;

    fn is_le(&self, other: &Self) -> (r: bool)
        ensures
            r == self.le(*other),
    ;
}

/// The order of a sortable type as a value.
pub open spec fn natural_order<T: Sortable>() -> spec_fn(T, T) -> bool {
    |left: T, right: T| left.le(right)
}

/// Every item may stand before each later one.
pub open spec fn is_sorted<T>(items: Seq<T>, le: spec_fn(T, T) -> bool) -> bool {
    forall|i: int, j: int| 0 <= i < j < items.len() ==> le(#[trigger] items[i], #[trigger] items[j])
}

/// Where `item` goes in the sorted `items`: behind every item that may stand before it.
pub open spec fn insertion_point<T>(items: Seq<T>, item: T, le: spec_fn(T, T) -> bool) -> nat
    decreases items.len(),
{
    if items.len() == 0 {
        0
    } else if le(items.last(), item) {
        items.len()
    } else {
        insertion_point(items.drop_last(), item, le)
    }
}

/// `items` in sorted order. Items that may each stand before the other keep the order that
/// they had.
pub open spec fn stable_sorted<T>(items: Seq<T>, le: spec_fn(T, T) -> bool) -> Seq<T>
    decreases items.len(),
{
    if items.len() == 0 {
        Seq::empty()
    } else {
        let rest = stable_sorted(items.drop_last(), le);
        rest.insert(insertion_point(rest, items.last(), le) as int, items.last())
    }
}

/// Of any two values one may stand before the other, and the relation is transitive.
pub open spec fn can_sort<T>(le: spec_fn(T, T) -> bool) -> bool {
    &&& forall|x: T, y: T| #[trigger] le(x, y) || le(y, x)
    &&& forall|x: T, y: T, z: T| #[trigger] le(x, y) && #[trigger] le(y, z) ==> le(x, z)
}

/// A sortable type can be sorted by its order.
pub proof fn natural_order_can_sort<T: Sortable>()
    ensures
        can_sort(natural_order::<T>()),
{
    let le = natural_order::<T>();
    assert forall|x: T, y: T| #[trigger] le(x, y) || le(y, x) by {
        T::le_total(x, y);
    }
    assert forall|x: T, y: T, z: T| #[trigger] le(x, y) && #[trigger] le(y, z) implies le(x, z) by {
        T::le_transitive(x, y, z);
    }
}

/// An item goes somewhere in the list or behind it.
pub proof fn insertion_point_bounds<T>(items: Seq<T>, item: T, le: spec_fn(T, T) -> bool)
    ensures
        insertion_point(items, item, le) <= items.len(),
    decreases items.len(),
{
    if items.len() > 0 && !le(items.last(), item) {
        insertion_point_bounds(items.drop_last(), item, le);
    }
}

/// The insertion point is the one place that parts the items that may stand before `item`
/// from those that may not.
proof fn insertion_point_is<T>(items: Seq<T>, item: T, at: nat, le: spec_fn(T, T) -> bool)
    requires
        at <= items.len(),
        forall|i: int| 0 <= i < at ==> le(#[trigger] items[i], item),
        forall|i: int| at <= i < items.len() ==> !le(#[trigger] items[i], item),
    ensures
        insertion_point(items, item, le) == at,
    decreases items.len(),
{
    if items.len() > at {
        insertion_point_is(items.drop_last(), item, at, le);
    }
}

proof fn insertion_point_splits<T>(items: Seq<T>, item: T, le: spec_fn(T, T) -> bool)
    requires
        can_sort(le),
        is_sorted(items, le),
    ensures
        forall|i: int| 0 <= i < insertion_point(items, item, le) ==> le(#[trigger] items[i], item),
        forall|i: int|
            insertion_point(items, item, le) <= i < items.len() ==> !le(#[trigger] items[i], item),
    decreases items.len(),
{
    if items.len() > 0 {
        if le(items.last(), item) {
            assert forall|i: int| 0 <= i < items.len() implies le(#[trigger] items[i], item) by {
                if i < items.len() - 1 {
                    assert(le(items[i], items.last()));
                }
            }
        } else {
            let rest = items.drop_last();
            insertion_point_splits(rest, item, le);
            insertion_point_bounds(rest, item, le);
            assert forall|i: int| insertion_point(items, item, le) <= i < items.len() implies !le(
                #[trigger] items[i],
                item,
            ) by {
                if i < items.len() - 1 {
                    assert(rest[i] == items[i]);
                }
            }
            assert forall|i: int| 0 <= i < insertion_point(items, item, le) implies le(
                #[trigger] items[i],
                item,
            ) by {
                assert(rest[i] == items[i]);
            }
        }
    }
}

proof fn insertion_keeps_sorted<T>(items: Seq<T>, item: T, at: int, le: spec_fn(T, T) -> bool)
    requires
        can_sort(le),
        is_sorted(items, le),
        0 <= at <= items.len(),
        forall|i: int| 0 <= i < at ==> le(#[trigger] items[i], item),
        forall|i: int| at <= i < items.len() ==> !le(#[trigger] items[i], item),
    ensures
        is_sorted(items.insert(at, item), le),
{
    let all = items.insert(at, item);
    assert forall|i: int, j: int| 0 <= i < j < all.len() implies le(
        #[trigger] all[i],
        #[trigger] all[j],
    ) by {
        if i == at {
            assert(le(item, items[j - 1]) || le(items[j - 1], item));
        }
    }
}

/// The stable sort of a list is sorted and holds the list's items, each as often as before.
pub proof fn stable_sorted_is_sorted<T>(items: Seq<T>, le: spec_fn(T, T) -> bool)
    requires
        can_sort(le),
    ensures
        is_sorted(stable_sorted(items, le), le),
        stable_sorted(items, le).to_multiset() == items.to_multiset(),
        stable_sorted(items, le).len() == items.len(),
    decreases items.len(),
{
    broadcast use vstd::seq_lib::group_to_multiset_ensures;

    if items.len() > 0 {
        let rest = stable_sorted(items.drop_last(), le);
        let item = items.last();
        let at = insertion_point(rest, item, le) as int;
        stable_sorted_is_sorted(items.drop_last(), le);
        insertion_point_bounds(rest, item, le);
        insertion_point_splits(rest, item, le);
        insertion_keeps_sorted(rest, item, at, le);
        assert(items == items.drop_last().push(item));
        vstd::seq_lib::to_multiset_insert(rest, at, item);
    }
}

/// Sorting by an order that only looks at images sorts the images.
pub proof fn stable_sorted_images<T, U>(
    items: Seq<T>,
    image: spec_fn(T) -> U,
    le: spec_fn(T, T) -> bool,
    image_le: spec_fn(U, U) -> bool,
)
    requires
        forall|x: T, y: T| #[trigger] le(x, y) == image_le(image(x), image(y)),
    ensures
        stable_sorted(items.map_values(image), image_le) == stable_sorted(items, le).map_values(
            image,
        ),
    decreases items.len(),
{
    let images = items.map_values(image);
    if items.len() > 0 {
        let rest = stable_sorted(items.drop_last(), le);
        let item = items.last();
        stable_sorted_images(items.drop_last(), image, le, image_le);
        assert(images.drop_last() == items.drop_last().map_values(image));
        insertion_point_images(rest, item, image, le, image_le);
        insertion_point_bounds(rest, item, le);
        let at = insertion_point(rest, item, le) as int;
        assert(rest.insert(at, item).map_values(image) =~= rest.map_values(image).insert(
            at,
            image(item),
        ));
    } else {
        assert(stable_sorted(images, image_le) =~= stable_sorted(items, le).map_values(image));
    }
}

proof fn insertion_point_images<T, U>(
    items: Seq<T>,
    item: T,
    image: spec_fn(T) -> U,
    le: spec_fn(T, T) -> bool,
    image_le: spec_fn(U, U) -> bool,
)
    requires
        forall|x: T, y: T| #[trigger] le(x, y) == image_le(image(x), image(y)),
    ensures
        insertion_point(items.map_values(image), image(item), image_le) == insertion_point(
            items,
            item,
            le,
        ),
    decreases items.len(),
{
    let images = items.map_values(image);
    if items.len() > 0 {
        assert(images.last() == image(items.last()));
        assert(le(items.last(), item) == image_le(images.last(), image(item)));
        assert(images.drop_last() == items.drop_last().map_values(image));
        insertion_point_images(items.drop_last(), item, image, le, image_le);
    }
}

/// Sorts a list. Equal items keep the order that they had.
pub fn sort_stable<T: Sortable>(items: Vec<T>) -> (r: Vec<T>)
    ensures
        r@ == stable_sorted(items@, natural_order()),
{
    let ghost all = items@;
    let ghost le = natural_order::<T>();
    proof {
        natural_order_can_sort::<T>();
    }
    let mut out: Vec<T> = Vec::new();
    for item in iter: items
        invariant
            iter.seq() == all,
            le == natural_order::<T>(),
            can_sort(le),
            out@ == stable_sorted(all.take(iter.index()), le),
    {
        proof {
            stable_sorted_is_sorted(all.take(iter.index()), le);
            assert(all.take(iter.index() + 1).drop_last() == all.take(iter.index()));
            assert(all.take(iter.index() + 1).last() == item);
        }
        let mut low: usize = 0;
        let mut high: usize = out.len();
        while low < high
            invariant
                low <= high <= out.len(),
                le == natural_order::<T>(),
                can_sort(le),
                is_sorted(out@, le),
                forall|i: int| 0 <= i < low ==> le(#[trigger] out@[i], item),
                forall|i: int| high <= i < out.len() ==> !le(#[trigger] out@[i], item),
            decreases high - low,
        {
            let middle: usize = low + (high - low) / 2;
            if out[middle].is_le(&item) {
                proof {
                    assert(le(out@[middle as int], item));
                    assert forall|i: int| 0 <= i < middle + 1 implies le(
                        #[trigger] out@[i],
                        item,
                    ) by {
                        if i < middle {
                            assert(le(out@[i], out@[middle as int]));
                        }
                    }
                }
                low = middle + 1;
            } else {
                proof {
                    assert(!le(out@[middle as int], item));
                    assert forall|i: int| middle <= i < out.len() implies !le(
                        #[trigger] out@[i],
                        item,
                    ) by {
                        if i > middle {
                            assert(le(out@[middle as int], out@[i]));
                        }
                    }
                }
                high = middle;
            }
        }
        proof {
            insertion_point_is(out@, item, low as nat, le);
        }
        out.insert(low, item);
    }
    assert(all.take(all.len() as int) == all);
    out
}

/// Sequences are compared at their first difference: what is alike before it does not matter,
/// and a sequence comes before those that it begins.
pub proof fn sequences_differ_first<T>(
    left: Seq<T>,
    right: Seq<T>,
    n: int,
    le: spec_fn(T, T) -> bool,
)
    requires
        0 <= n <= left.len(),
        n <= right.len(),
        forall|i: int| 0 <= i < n ==> #[trigger] left[i] == right[i],
    ensures
        n == left.len() ==> lex_le(left, right, le),
        n == right.len() && n < left.len() ==> !lex_le(left, right, le),
        n < left.len() && n < right.len() && left[n] != right[n] ==> lex_le(left, right, le) == le(
            left[n],
            right[n],
        ),
    decreases n,
{
    if n > 0 {
        assert(left[0] == right[0]);
        assert forall|i: int| 0 <= i < n - 1 implies #[trigger] left.drop_first()[i]
            == right.drop_first()[i] by {
            assert(left[i + 1] == right[i + 1]);
        }
        sequences_differ_first(left.drop_first(), right.drop_first(), n - 1, le);
    }
}

/// Sorting puts every item before those that may not stand before it, and neither loses nor
/// adds an item.
pub proof fn sorting_orders_and_keeps<T>(items: Seq<T>, le: spec_fn(T, T) -> bool, i: int, j: int)
    requires
        can_sort(le),
        0 <= i < j < items.len(),
    ensures
        stable_sorted(items, le).len() == items.len(),
        stable_sorted(items, le).to_multiset() == items.to_multiset(),
        le(stable_sorted(items, le)[i], stable_sorted(items, le)[j]),
{
    stable_sorted_is_sorted(items, le);
}

/// Items that may each stand before the other keep the order that they had: those that tie
/// with an item stand in the sorted list as they stood in the list.
pub proof fn sorting_keeps_ties<T>(items: Seq<T>, le: spec_fn(T, T) -> bool, item: T)
    requires
        can_sort(le),
    ensures
        stable_sorted(items, le).filter(|other: T| le(item, other) && le(other, item))
            == items.filter(|other: T| le(item, other) && le(other, item)),
    decreases items.len(),
{
    let ties = |other: T| le(item, other) && le(other, item);
    reveal(Seq::filter);
    if items.len() > 0 {
        let rest = stable_sorted(items.drop_last(), le);
        let last = items.last();
        let at = insertion_point(rest, last, le) as int;
        sorting_keeps_ties(items.drop_last(), le, item);
        stable_sorted_is_sorted(items.drop_last(), le);
        insertion_point_bounds(rest, last, le);
        insertion_point_splits(rest, last, le);
        let before = rest.take(at);
        let after = rest.skip(at);
        assert(rest =~= before + after);
        assert(rest.insert(at, last) =~= before.push(last) + after);
        Seq::filter_distributes_over_add(before, after, ties);
        Seq::filter_distributes_over_add(before.push(last), after, ties);
        assert(before.push(last).drop_last() =~= before);
        if ties(last) {
            assert forall|i: int| 0 <= i < after.len() implies !ties(#[trigger] after[i]) by {
                assert(after[i] == rest[at + i]);
                assert(!le(rest[at + i], last));
                if ties(after[i]) {
                    assert(le(after[i], item) && le(item, last));
                }
            }
            none_left(after, ties);
            assert(before.filter(ties) + Seq::<T>::empty() =~= before.filter(ties));
            assert(before.filter(ties).push(last) + Seq::<T>::empty() =~= before.filter(ties).push(
                last,
            ));
        }
    }
}

proof fn none_left<T>(items: Seq<T>, keep: spec_fn(T) -> bool)
    requires
        forall|i: int| 0 <= i < items.len() ==> !keep(#[trigger] items[i]),
    ensures
        items.filter(keep) == Seq::<T>::empty(),
    decreases items.len(),
{
    reveal(Seq::filter);
    if items.len() > 0 {
        assert(!keep(items[items.len() - 1]));
        assert forall|i: int| 0 <= i < items.drop_last().len() implies !keep(
            #[trigger] items.drop_last()[i],
        ) by {
            assert(items.drop_last()[i] == items[i]);
        }
        none_left(items.drop_last(), keep);
    }
}

} // verus!
