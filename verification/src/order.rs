//! Changes in dependency order: by their place in the history.

use vstd::prelude::*;

verus! {

/// Something that has a place in a history.
pub trait Sequenced: Sized {
    /// Its place.
    spec fn place(&self) -> u64;

    /// Its place.
    fn get_place(&self) -> (place: u64)
        ensures
            place == self.place(),
    ;
}

/// Nothing comes before something with a lower place.
pub open spec fn in_order<T: Sequenced>(s: Seq<T>) -> bool {
    forall|i: int, j: int| 0 <= i <= j < s.len() ==> s[i].place() <= s[j].place()
}

/// `s` with `x` put behind everything whose place is not higher, as far as that stands
/// in front of all else.
pub open spec fn inserted<T: Sequenced>(s: Seq<T>, x: T) -> Seq<T>
    decreases s.len(),
{
    if s.len() == 0 || s.last().place() <= x.place() {
        s.push(x)
    } else {
        inserted(s.drop_last(), x).push(s.last())
    }
}

/// What insertion does is to put the new element in at one position.
proof fn lemma_inserted_at<T: Sequenced>(s: Seq<T>, x: T, k: int)
    requires
        0 <= k <= s.len(),
        k > 0 ==> s[k - 1].place() <= x.place(),
        forall|j: int| k <= j < s.len() ==> (#[trigger] s[j]).place() > x.place(),
    ensures
        inserted(s, x) == s.insert(k, x),
    decreases s.len(),
{
    if s.len() == 0 || s.last().place() <= x.place() {
        if k < s.len() {
            assert(s[s.len() - 1].place() > x.place());
        }
        assert(s.insert(k, x) =~= s.push(x));
    } else {
        assert(k < s.len());
        let rest = s.drop_last();
        lemma_inserted_at(rest, x, k);
        assert(s.insert(k, x) =~= rest.insert(k, x).push(s.last()));
    }
}

/// Insertion keeps the order, adds one element and loses none.
pub proof fn lemma_inserted<T: Sequenced>(s: Seq<T>, x: T)
    ensures
        inserted(s, x).len() == s.len() + 1,
        in_order(s) ==> in_order(inserted(s, x)),
        forall|y: T| #[trigger] inserted(s, x).contains(y) <==> s.contains(y) || y == x,
    decreases s.len(),
{
    let r = inserted(s, x);
    if s.len() == 0 || s.last().place() <= x.place() {
        assert(r == s.push(x));
        assert forall|y: T| #[trigger] r.contains(y) <==> s.contains(y) || y == x by {
            if s.contains(y) {
                let i = choose|i: int| 0 <= i < s.len() && s[i] == y;
                assert(r[i] == y);
            }
            if y == x {
                assert(r[s.len() as int] == y);
            }
        }
    } else {
        let rest = s.drop_last();
        let ri = inserted(rest, x);
        lemma_inserted(rest, x);
        assert(r == ri.push(s.last()));
        assert forall|y: T| #[trigger] r.contains(y) <==> s.contains(y) || y == x by {
            if r.contains(y) {
                let i = choose|i: int| 0 <= i < r.len() && r[i] == y;
                if i < ri.len() {
                    assert(ri[i] == y);
                    assert(ri.contains(y));
                    if rest.contains(y) {
                        let k = choose|k: int| 0 <= k < rest.len() && rest[k] == y;
                        assert(s[k] == y);
                    }
                } else {
                    assert(s[s.len() - 1] == y);
                }
            }
            if s.contains(y) || y == x {
                if y == x || rest.contains(y) {
                    assert(ri.contains(y));
                    let k = choose|k: int| 0 <= k < ri.len() && ri[k] == y;
                    assert(r[k] == y);
                } else {
                    let k = choose|k: int| 0 <= k < s.len() && s[k] == y;
                    if k < rest.len() {
                        assert(rest[k] == y);
                        assert(rest.contains(y));
                    }
                    assert(r[ri.len() as int] == y);
                }
            }
        }
        if in_order(s) {
            assert(in_order(rest));
            assert forall|i: int, j: int| 0 <= i <= j < r.len() implies r[i].place()
                <= r[j].place() by {
                if j == ri.len() && i < ri.len() {
                    assert(ri.contains(ri[i]));
                    if ri[i] != x {
                        assert(rest.contains(ri[i]));
                        let k = choose|k: int| 0 <= k < rest.len() && rest[k] == ri[i];
                        assert(s[k].place() <= s[s.len() - 1].place());
                    }
                }
            }
        }
    }
}

/// `s` in order; what has the same place keeps its order.
pub open spec fn sorted<T: Sequenced>(s: Seq<T>) -> Seq<T>
    decreases s.len(),
{
    if s.len() == 0 {
        Seq::empty()
    } else {
        inserted(sorted(s.drop_last()), s.last())
    }
}

/// Sorting gives the same elements in order.
pub proof fn lemma_sorted<T: Sequenced>(s: Seq<T>)
    ensures
        in_order(sorted(s)),
        sorted(s).len() == s.len(),
        forall|y: T| #[trigger] sorted(s).contains(y) <==> s.contains(y),
    decreases s.len(),
{
    if s.len() > 0 {
        let rest = s.drop_last();
        lemma_sorted(rest);
        lemma_inserted(sorted(rest), s.last());
        assert forall|y: T| #[trigger] sorted(s).contains(y) <==> s.contains(y) by {
            if s.contains(y) {
                let k = choose|k: int| 0 <= k < s.len() && s[k] == y;
                if k < rest.len() {
                    assert(rest[k] == y);
                    assert(rest.contains(y));
                    assert(sorted(rest).contains(y));
                }
            }
            if sorted(s).contains(y) {
                if sorted(rest).contains(y) {
                    assert(rest.contains(y));
                    let k = choose|k: int| 0 <= k < rest.len() && rest[k] == y;
                    assert(s[k] == y);
                } else {
                    assert(s[s.len() - 1] == y);
                }
            }
        }
    }
}

/// Of those that have one place, insertion puts the new element behind the others and moves
/// none of them.
proof fn lemma_inserted_among_equals<T: Sequenced>(s: Seq<T>, x: T, place: u64)
    ensures
        inserted(s, x).filter(|y: T| y.place() == place) == s.filter(
            |y: T| y.place() == place,
        ) + (if x.place() == place {
            seq![x]
        } else {
            Seq::empty()
        }),
    decreases s.len(),
{
    reveal(Seq::filter);
    let here = |y: T| y.place() == place;
    let old = s.filter(here);
    let new = inserted(s, x).filter(here);
    if s.len() == 0 || s.last().place() <= x.place() {
        assert(s.push(x).drop_last() =~= s);
        assert(new =~= old + (if x.place() == place {
            seq![x]
        } else {
            Seq::empty()
        }));
    } else {
        let rest = s.drop_last();
        lemma_inserted_among_equals(rest, x, place);
        let r = inserted(rest, x);
        assert(r.push(s.last()).drop_last() =~= r);
        assert(new =~= old + (if x.place() == place {
            seq![x]
        } else {
            Seq::empty()
        }));
    }
}

/// Sorting gives what there was, in ascending places; of those that have one place none is lost,
/// none is added and none changes its order.
pub proof fn law_sorting_is_stable<T: Sequenced>(s: Seq<T>, place: u64)
    ensures
        sorted(s).filter(|y: T| y.place() == place) == s.filter(|y: T| y.place() == place),
        forall|i: int, j: int|
            0 <= i <= j < s.len() ==> (#[trigger] sorted(s)[i]).place() <= (
            #[trigger] sorted(s)[j]).place(),
        sorted(s).len() == s.len(),
    decreases s.len(),
{
    lemma_sorted(s);
    reveal(Seq::filter);
    if s.len() > 0 {
        law_sorting_is_stable(s.drop_last(), place);
        lemma_inserted_among_equals(sorted(s.drop_last()), s.last(), place);
        assert(s.filter(|y: T| y.place() == place) =~= s.drop_last().filter(
            |y: T| y.place() == place,
        ) + (if s.last().place() == place {
            seq![s.last()]
        } else {
            Seq::empty()
        }));
    }
}

/// Put `x` in `list` at its place, behind those of the same place.
pub fn insert_in_order<T: Sequenced>(list: &mut Vec<T>, x: T)
    ensures
        final(list)@ == inserted(old(list)@, x),
{
    let place: u64 = x.get_place();
    let mut k: usize = list.len();
    while k > 0 && list[k - 1].get_place() > place
        invariant
            k <= list@.len(),
            place == x.place(),
            forall|j: int| k <= j < list@.len() ==> (#[trigger] list@[j]).place() > place,
        decreases k,
    {
        k = k - 1;
    }
    proof {
        lemma_inserted_at(list@, x, k as int);
    }
    list.insert(k, x);
}

} // verus!
