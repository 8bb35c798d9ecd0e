//! Sequences made item by item, where one item that has no value leaves the whole without one.
use vstd::prelude::*;

verus! {

/// What `f` makes of each item, if it makes something of every one.
pub open spec fn each<A, B>(s: Seq<A>, f: spec_fn(A) -> Option<B>) -> Option<Seq<B>>
    decreases s.len(),
{
    if s.len() == 0 {
        Some(Seq::empty())
    } else {
        match (each(s.drop_last(), f), f(s.last())) {
            (Some(head), Some(value)) => Some(head.push(value)),
            _ => None,
        }
    }
}

/// The lists that `f` makes of the items, one after the other, if it makes one of every item.
pub open spec fn flat<A, B>(s: Seq<A>, f: spec_fn(A) -> Option<Seq<B>>) -> Option<Seq<B>>
    decreases s.len(),
{
    if s.len() == 0 {
        Some(Seq::empty())
    } else {
        match (flat(s.drop_last(), f), f(s.last())) {
            (Some(head), Some(values)) => Some(head + values),
            _ => None,
        }
    }
}

/// One item more.
pub proof fn each_step<A, B>(s: Seq<A>, f: spec_fn(A) -> Option<B>, i: int)
    requires
        0 <= i < s.len(),
    ensures
        each(s.take(i + 1), f) == match (each(s.take(i), f), f(s[i])) {
            (Some(head), Some(value)) => Some(head.push(value)),
            _ => None,
        },
        each(s.take(i + 1), f) is None ==> each(s, f) is None,
    decreases s.len(),
{
    assert(s.take(i + 1).drop_last() =~= s.take(i));
    if i + 1 < s.len() {
        each_step(s.drop_last(), f, i);
        assert(s.drop_last().take(i + 1) =~= s.take(i + 1));
    } else {
        assert(s.take(i + 1) =~= s);
    }
}

/// One item more.
pub proof fn flat_step<A, B>(s: Seq<A>, f: spec_fn(A) -> Option<Seq<B>>, i: int)
    requires
        0 <= i < s.len(),
    ensures
        flat(s.take(i + 1), f) == match (flat(s.take(i), f), f(s[i])) {
            (Some(head), Some(values)) => Some(head + values),
            _ => None,
        },
        flat(s.take(i + 1), f) is None ==> flat(s, f) is None,
    decreases s.len(),
{
    assert(s.take(i + 1).drop_last() =~= s.take(i));
    if i + 1 < s.len() {
        flat_step(s.drop_last(), f, i);
        assert(s.drop_last().take(i + 1) =~= s.take(i + 1));
    } else {
        assert(s.take(i + 1) =~= s);
    }
}

/// Each value is what `f` makes of the item in its place, and there is no list of them exactly
/// where `f` makes nothing of some item.
pub proof fn each_in_place<A, B>(s: Seq<A>, f: spec_fn(A) -> Option<B>)
    ensures
        each(s, f) matches Some(made) ==> made.len() == s.len() && forall|i: int|
            0 <= i < s.len() ==> f(#[trigger] s[i]) == Some(made[i]),
        each(s, f) is None ==> exists|i: int| 0 <= i < s.len() && f(#[trigger] s[i]) is None,
    decreases s.len(),
{
    if s.len() > 0 {
        let head = s.drop_last();
        each_in_place(head, f);
        assert(forall|i: int| 0 <= i < head.len() ==> head[i] == #[trigger] s[i]);
        if let Some(made) = each(s, f) {
            let before = each(head, f)->0;
            assert forall|i: int| 0 <= i < s.len() implies f(#[trigger] s[i]) == Some(made[i]) by {
                if i < head.len() {
                    assert(f(head[i]) == Some(before[i]));
                }
            }
        } else if each(head, f) is None {
            let i = choose|i: int| 0 <= i < head.len() && f(#[trigger] head[i]) is None;
            assert(f(s[i]) is None);
        } else {
            assert(f(s[s.len() - 1]) is None);
        }
    }
}

/// Of two lists one after the other, what `f` makes of the first stands before what it makes of
/// the second, and there is nothing where it fails for one of them.
pub proof fn lists_are_read_in_turn<A, B>(one: Seq<A>, other: Seq<A>, f: spec_fn(A) -> Option<Seq<B>>)
    ensures
        flat(Seq::empty(), f) == Some(Seq::<B>::empty()),
        flat(one + other, f) == match (flat(one, f), flat(other, f)) {
            (Some(first), Some(second)) => Some(first + second),
            _ => None,
        },
        one.len() == 1 ==> flat(one, f) == f(one[0]),
    decreases other.len(),
{
    let all = one + other;
    if one.len() == 1 {
        assert(one.drop_last() =~= Seq::empty());
        if let Some(values) = f(one[0]) {
            assert(Seq::<B>::empty() + values =~= values);
        }
    }
    if other.len() > 0 {
        let head = other.drop_last();
        assert(all.drop_last() =~= one + head);
        lists_are_read_in_turn(one, head, f);
        if flat(one, f) is Some && flat(head, f) is Some && f(other.last()) is Some {
            let first = flat(one, f)->0;
            let second = flat(head, f)->0;
            let third = f(other.last())->0;
            assert(first + second + third =~= first + (second + third));
        }
    } else {
        assert(all =~= one);
        if let Some(first) = flat(one, f) {
            assert(first + Seq::<B>::empty() =~= first);
        }
    }
}

} // verus!
