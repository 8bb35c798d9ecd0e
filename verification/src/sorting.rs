//! Lists in order.
use vstd::prelude::*;
use vstd::seq_lib::to_multiset_insert;

verus! {

/// Things that have a place in an order.
pub trait Placed: DeepView + Sized {
    /// `a` stands before `b`.
    spec fn precedes(a: Self::V, b: Self::V) -> bool;

    /// Whether this stands before the other.
    fn before(&self, other: &Self) -> (yes: bool)
        ensures
            yes == Self::precedes(self.deep_view(), other.deep_view()),
    ;

    /// No two things stand before each other, and where one stands not before a second and that
    /// not before a third, it stands not before the third.
    proof fn order(a: Self::V, b: Self::V, c: Self::V)
        ensures
            Self::precedes(a, b) ==> !Self::precedes(b, a),
            !Self::precedes(a, b) && !Self::precedes(b, c) ==> !Self::precedes(a, c),
    ;
}

/// Nothing in the list stands before what comes earlier in it.
pub open spec fn in_order<T: Placed>(list: Seq<T::V>) -> bool {
    forall|i: int, j: int|
        0 <= i < j < list.len() ==> !T::precedes(#[trigger] list[j], #[trigger] list[i])
}

/// Puts one more thing in its place.
fn place<T: Placed>(list: &mut Vec<T>, item: T)
    requires
        in_order::<T>(old(list).deep_view()),
    ensures
        in_order::<T>(final(list).deep_view()),
        final(list).deep_view().to_multiset() == old(list).deep_view().to_multiset().insert(
            item.deep_view(),
        ),
{
    let ghost before = list.deep_view();
    let ghost x = item.deep_view();
    let mut at: usize = list.len();
    while at > 0 && item.before(&list[at - 1])
        invariant
            at <= list@.len(),
            before == list.deep_view(),
            x == item.deep_view(),
            forall|j: int| at <= j < before.len() ==> T::precedes(x, #[trigger] before[j]),
        decreases at,
    {
        at = at - 1;
        assert(before[at as int] == list@[at as int].deep_view());
    }
    proof {
        if at > 0 {
            assert(before[at - 1] == list@[at - 1].deep_view());
        }
        assert forall|i: int| 0 <= i < at implies !T::precedes(x, #[trigger] before[i]) by {
            T::order(x, before[at - 1], before[i]);
        }
        assert forall|j: int| at <= j < before.len() implies !T::precedes(
            #[trigger] before[j],
            x,
        ) by {
            T::order(x, before[j], x);
        }
    }
    list.insert(at, item);
    proof {
        let after = list.deep_view();
        assert(after =~= before.insert(at as int, x));
        to_multiset_insert(before, at as int, x);
        assert forall|i: int, j: int| 0 <= i < j < after.len() implies !T::precedes(
            #[trigger] after[j],
            #[trigger] after[i],
        ) by {
            let a = if i < at {
                i
            } else {
                i - 1
            };
            let b = if j < at {
                j
            } else {
                j - 1
            };
            if i != at {
                assert(after[i] == before[a]);
            }
            if j != at {
                assert(after[j] == before[b]);
            }
        }
    }
}

/// Puts a list in order.
pub fn put_in_order<T: Placed>(list: Vec<T>) -> (ordered: Vec<T>)
    ensures
        in_order::<T>(ordered.deep_view()),
        ordered.deep_view().to_multiset() == list.deep_view().to_multiset(),
{
    let ghost all = list.deep_view();
    let mut rest = list;
    let mut ordered: Vec<T> = Vec::new();
    assert(ordered.deep_view() =~= Seq::<T::V>::empty());
    assert(all =~= rest.deep_view());
    proof {
        broadcast use vstd::seq_lib::group_to_multiset_ensures;

        assert(ordered.deep_view().to_multiset().add(all.to_multiset()) =~= all.to_multiset());
    }
    while rest.len() > 0
        invariant
            in_order::<T>(ordered.deep_view()),
            ordered.deep_view().to_multiset().add(rest.deep_view().to_multiset())
                == all.to_multiset(),
        decreases rest@.len(),
    {
        broadcast use vstd::seq_lib::group_to_multiset_ensures;

        let ghost before = rest.deep_view();
        let ghost sorted = ordered.deep_view();
        let ghost last = rest@.last();
        match rest.pop() {
            Some(item) => {
                assert(rest.deep_view() =~= before.drop_last());
                assert(before =~= before.drop_last().push(item.deep_view()));
                place(&mut ordered, item);
                assert(ordered.deep_view().to_multiset().add(rest.deep_view().to_multiset())
                    =~= sorted.to_multiset().add(before.to_multiset()));
            },
            None => {},
        }
    }
    proof {
        broadcast use vstd::seq_lib::group_to_multiset_ensures;

        assert(rest.deep_view() =~= Seq::<T::V>::empty());
        assert(ordered.deep_view().to_multiset().add(rest.deep_view().to_multiset())
            =~= ordered.deep_view().to_multiset());
    }
    ordered
}

} // verus!
