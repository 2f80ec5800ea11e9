//! What is known of selections from lists, for the laws that are stated with them.

use vstd::prelude::*;

verus! {

/// A selection from a list is that from all but its last item, and the last item where it is
/// selected.
pub(crate) proof fn selects_last<T>(s: Seq<T>, p: spec_fn(T) -> bool)
    ensures
        s.len() == 0 ==> s.filter(p) == Seq::<T>::empty(),
        s.len() > 0 ==> s.filter(p) == (if p(s.last()) {
            s.drop_last().filter(p).push(s.last())
        } else {
            s.drop_last().filter(p)
        }),
{
    reveal(Seq::filter);
    assert(s.len() == 0 ==> s.filter(p) =~= Seq::<T>::empty());
}

/// A selection holds the items that are selected, and nothing else.
pub(crate) proof fn selects_just<T>(s: Seq<T>, p: spec_fn(T) -> bool)
    ensures
        forall|x: T| #[trigger] s.filter(p).contains(x) <==> s.contains(x) && p(x),
    decreases s.len(),
{
    selects_last(s, p);
    if s.len() > 0 {
        let front = s.drop_last();
        selects_just(front, p);
        assert forall|x: T| #[trigger] s.filter(p).contains(x) <==> s.contains(x) && p(x) by {
            assert(s =~= front.push(s.last()));
            if s.filter(p).contains(x) {
                let i = s.filter(p).index_of(x);
                if i < front.filter(p).len() {
                    assert(front.filter(p)[i] == x);
                    assert(front.filter(p).contains(x));
                    assert(s[front.index_of(x)] == x);
                } else {
                    assert(s[s.len() - 1] == x);
                }
            }
            if s.contains(x) && p(x) {
                let i = s.index_of(x);
                if i < front.len() {
                    assert(front[i] == x);
                    assert(front.filter(p).contains(x));
                    let k = front.filter(p).index_of(x);
                    assert(s.filter(p)[k] == x);
                } else {
                    assert(s.filter(p)[s.filter(p).len() - 1] == x);
                }
            }
        }
    } else {
        assert forall|x: T| #[trigger] s.filter(p).contains(x) <==> s.contains(x) && p(x) by {}
    }
}

/// Where every item is selected the selection is the list, and where none is it is empty.
pub(crate) proof fn selects_all_or_none<T>(s: Seq<T>, p: spec_fn(T) -> bool)
    ensures
        (forall|i: int| 0 <= i < s.len() ==> p(#[trigger] s[i])) ==> s.filter(p) == s,
        (forall|i: int| 0 <= i < s.len() ==> !p(#[trigger] s[i])) ==> s.filter(p).len() == 0,
    decreases s.len(),
{
    selects_last(s, p);
    if s.len() > 0 {
        let front = s.drop_last();
        selects_all_or_none(front, p);
        assert(front.push(s.last()) =~= s);
        assert(s[s.len() - 1] == s.last());
        if forall|i: int| 0 <= i < s.len() ==> p(#[trigger] s[i]) {
            assert forall|i: int| 0 <= i < front.len() implies p(#[trigger] front[i]) by {
                assert(s[i] == front[i]);
            }
        }
        if forall|i: int| 0 <= i < s.len() ==> !p(#[trigger] s[i]) {
            assert forall|i: int| 0 <= i < front.len() implies !p(#[trigger] front[i]) by {
                assert(s[i] == front[i]);
            }
        }
    } else {
        assert(s.filter(p) =~= s);
    }
}

} // verus!
