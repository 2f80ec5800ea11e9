//! Lists in the order in which they are shown.

use vstd::prelude::*;

use crate::lists::selects_last;
use crate::clock::Instant;
use crate::principal::Id;

verus! {

/// The first rank is the higher of the two.
pub open spec fn above(a: (int, int), b: (int, int)) -> bool {
    a.0 > b.0 || (a.0 == b.0 && a.1 > b.1)
}

/// What a list is ordered by.
pub trait Ranked: Sized {
    spec fn rank(self) -> (int, int);

    fn outranks(&self, other: &Self) -> (r: bool)
        ensures
            r == above((*self).rank(), (*other).rank()),
    ;
}

impl<T: Ranked> Ranked for (Id, T) {
    /// What comes with somebody ranks as it does by itself.
    open spec fn rank(self) -> (int, int) {
        self.1.rank()
    }

    fn outranks(&self, other: &(Id, T)) -> (r: bool) {
        self.1.outranks(&other.1)
    }
}

/// A list with one more item: behind those that rank as high, and before those it outranks
/// that stand at the end.
pub open spec fn placed<T: Ranked>(s: Seq<T>, x: T) -> Seq<T>
    decreases s.len(),
{
    if s.len() > 0 && above(x.rank(), s.last().rank()) {
        placed(s.drop_last(), x).push(s.last())
    } else {
        s.push(x)
    }
}

/// The items of a list, those of the highest rank first; those of one rank stay in their order.
pub open spec fn highest_first<T: Ranked>(s: Seq<T>) -> Seq<T>
    decreases s.len(),
{
    if s.len() == 0 {
        Seq::empty()
    } else {
        placed(highest_first(s.drop_last()), s.last())
    }
}

proof fn placed_is_inserted<T: Ranked>(s: Seq<T>, x: T, at: int)
    requires
        0 <= at <= s.len(),
        forall|k: int| at <= k < s.len() ==> above(x.rank(), (#[trigger] s[k]).rank()),
        at > 0 ==> !above(x.rank(), s[at - 1].rank()),
    ensures
        placed(s, x) == s.insert(at, x),
    decreases s.len(),
{
    if s.len() > 0 && above(x.rank(), s.last().rank()) {
        let front = s.drop_last();
        assert(at < s.len());
        assert forall|k: int| at <= k < front.len() implies above(
            x.rank(),
            (#[trigger] front[k]).rank(),
        ) by {
            assert(front[k] == s[k]);
        }
        placed_is_inserted(front, x, at);
        assert(front.insert(at, x).push(s.last()) =~= s.insert(at, x));
    } else {
        assert(at == s.len()) by {
            if at < s.len() {
                assert(above(x.rank(), s[s.len() - 1].rank()));
            }
        }
        assert(s.push(x) =~= s.insert(at, x));
    }
}

/// Orders a list.
pub fn rank_list<T: Ranked>(rows: Vec<T>) -> (r: Vec<T>)
    ensures
        r@ == highest_first(rows@),
        r@.len() == rows@.len(),
{
    let n: usize = rows.len();
    let mut rest = rows;
    let mut out: Vec<T> = Vec::new();
    let mut i: usize = 0;
    assert(rows@.take(0) == Seq::<T>::empty());
    while i < n
        invariant
            n == rows@.len(),
            i <= n,
            rest@ == rows@.skip(i as int),
            out@ == highest_first(rows@.take(i as int)),
        decreases n - i,
    {
        let row = rest.remove(0);
        assert(row == rows@[i as int]);
        assert(rest@ =~= rows@.skip(i as int + 1));
        assert(rows@.take(i as int + 1).drop_last() == rows@.take(i as int));
        let mut at: usize = out.len();
        while at > 0 && row.outranks(&out[at - 1])
            invariant
                at <= out@.len(),
                forall|k: int| at <= k < out@.len() ==> above(row.rank(), (#[trigger] out@[k]).rank()),
            decreases at,
        {
            at = at - 1;
        }
        proof {
            placed_is_inserted(out@, row, at as int);
        }
        out.insert(at, row);
        i = i + 1;
    }
    assert(rows@.take(n as int) == rows@);
    proof {
        ordered_lists_are_whole(rows@);
    }
    out
}

/// Something with the time that it is listed by.
pub struct Dated<T> {
    pub at: Instant,
    pub item: T,
}

impl<T> Ranked for Dated<T> {
    /// The newer ranks higher.
    open spec fn rank(self) -> (int, int) {
        (self.at as int, 0)
    }

    fn outranks(&self, other: &Dated<T>) -> (r: bool) {
        self.at > other.at
    }
}

/// The items of a list, the newest first.
pub open spec fn newest_first<T>(rows: Seq<Dated<T>>) -> Seq<T> {
    highest_first(rows).map_values(|d: Dated<T>| d.item)
}

/// Lists items, the newest first.
pub fn by_time<T>(rows: Vec<Dated<T>>) -> (r: Vec<T>)
    ensures
        r@ == newest_first(rows@),
        r@.len() == rows@.len(),
{
    let mut rest = rank_list(rows);
    let ghost all = rest@;
    let mut out: Vec<T> = Vec::new();
    while rest.len() > 0
        invariant
            out@.len() <= all.len(),
            rest@ == all.skip(out@.len() as int),
            forall|k: int| 0 <= k < out@.len() ==> #[trigger] out@[k] == all[k].item,
        decreases rest@.len(),
    {
        let d = rest.remove(0);
        assert(d == all[out@.len() as int]);
        out.push(d.item);
        assert(rest@ =~= all.skip(out@.len() as int));
    }
    assert(out@ =~= newest_first(rows@));
    out
}

/// Something with the number that it is listed by; where that is a time, the time counts.
pub struct Numbered<T> {
    pub number: i128,
    pub item: T,
}

impl<T> Ranked for Numbered<T> {
    /// The lower ranks higher.
    open spec fn rank(self) -> (int, int) {
        (-(self.number as int), 0)
    }

    fn outranks(&self, other: &Numbered<T>) -> (r: bool) {
        self.number < other.number
    }
}

/// The items of a list, the one of the lowest number first.
pub open spec fn lowest_first<T>(rows: Seq<Numbered<T>>) -> Seq<T> {
    highest_first(rows).map_values(|d: Numbered<T>| d.item)
}

/// Lists items, the one of the lowest number first.
pub fn by_number<T>(rows: Vec<Numbered<T>>) -> (r: Vec<T>)
    ensures
        r@ == lowest_first(rows@),
        r@.len() == rows@.len(),
{
    let mut rest = rank_list(rows);
    let ghost all = rest@;
    let mut out: Vec<T> = Vec::new();
    while rest.len() > 0
        invariant
            out@.len() <= all.len(),
            rest@ == all.skip(out@.len() as int),
            forall|k: int| 0 <= k < out@.len() ==> #[trigger] out@[k] == all[k].item,
        decreases rest@.len(),
    {
        let d = rest.remove(0);
        assert(d == all[out@.len() as int]);
        out.push(d.item);
        assert(rest@ =~= all.skip(out@.len() as int));
    }
    assert(out@ =~= lowest_first(rows@));
    out
}

/// No item of an ordered list stands behind one that it outranks.
pub open spec fn is_ranked<T: Ranked>(s: Seq<T>) -> bool {
    forall|i: int, j: int|
        0 <= i < j < s.len() ==> !above((#[trigger] s[j]).rank(), (#[trigger] s[i]).rank())
}

proof fn placed_keeps_order<T: Ranked>(s: Seq<T>, x: T)
    requires
        is_ranked(s),
    ensures
        is_ranked(placed(s, x)),
        placed(s, x).to_multiset() == s.to_multiset().insert(x),
        forall|k: int|
            0 <= k < placed(s, x).len() ==> (#[trigger] placed(s, x)[k] == x || s.contains(
                placed(s, x)[k],
            )),
    decreases s.len(),
{
    broadcast use vstd::seq_lib::group_to_multiset_ensures;

    if s.len() > 0 && above(x.rank(), s.last().rank()) {
        let front = s.drop_last();
        let all = placed(s, x);
        let before = placed(front, x);
        assert forall|i: int, j: int| 0 <= i < j < front.len() implies !above(
            (#[trigger] front[j]).rank(),
            (#[trigger] front[i]).rank(),
        ) by {
            assert(front[i] == s[i] && front[j] == s[j]);
        }
        placed_keeps_order(front, x);
        assert(front.push(s.last()) =~= s);
        assert forall|k: int| 0 <= k < all.len() implies (#[trigger] all[k] == x || s.contains(
            all[k],
        )) by {
            if k < before.len() {
                assert(all[k] == before[k]);
                if before[k] != x {
                    let m = choose|m: int| 0 <= m < front.len() && front[m] == before[k];
                    assert(s[m] == before[k]);
                }
            } else {
                assert(s[s.len() - 1] == all[k]);
            }
        }
        assert forall|i: int, j: int| 0 <= i < j < all.len() implies !above(
            (#[trigger] all[j]).rank(),
            (#[trigger] all[i]).rank(),
        ) by {
            assert(all[i] == before[i]);
            if j < before.len() {
                assert(all[j] == before[j]);
            } else if before[i] != x {
                let m = choose|m: int| 0 <= m < front.len() && front[m] == before[i];
                assert(s[m] == before[i]);
                assert(s[s.len() - 1] == all[j]);
            }
        }
        assert(s.to_multiset() == front.to_multiset().insert(s.last()));
        assert(all.to_multiset() == before.to_multiset().insert(s.last()));
        assert(all.to_multiset() =~= s.to_multiset().insert(x));
    } else {
        let all = s.push(x);
        assert forall|i: int, j: int| 0 <= i < j < all.len() implies !above(
            (#[trigger] all[j]).rank(),
            (#[trigger] all[i]).rank(),
        ) by {
            assert(all[i] == s[i]);
            if j < s.len() {
                assert(all[j] == s[j]);
            } else if i < s.len() - 1 {
                assert(!above(s[s.len() - 1].rank(), s[i].rank()));
            }
        }
        assert forall|k: int| 0 <= k < all.len() implies (#[trigger] all[k] == x || s.contains(
            all[k],
        )) by {
            if k < s.len() {
                assert(s[k] == all[k]);
            }
        }
    }
}

/// Ordering a list loses and adds nothing, and nothing in it then stands behind what it
/// outranks.
pub proof fn ordered_lists_are_whole<T: Ranked>(s: Seq<T>)
    ensures
        is_ranked(highest_first(s)),
        highest_first(s).to_multiset() == s.to_multiset(),
        highest_first(s).len() == s.len(),
    decreases s.len(),
{
    broadcast use vstd::seq_lib::group_to_multiset_ensures;

    if s.len() > 0 {
        let front = s.drop_last();
        ordered_lists_are_whole(front);
        placed_keeps_order(highest_first(front), s.last());
        assert(front.push(s.last()) =~= s);
    }
    assert(highest_first(s).to_multiset() =~= s.to_multiset());
    assert(highest_first(s).to_multiset().len() == s.to_multiset().len());
}

/// An ordered list holds the very items of the list that was ordered.
pub proof fn ordered_lists_hold_the_same<T: Ranked>(s: Seq<T>, x: T)
    ensures
        highest_first(s).contains(x) <==> s.contains(x),
{
    broadcast use vstd::seq_lib::group_to_multiset_ensures;

    ordered_lists_are_whole(s);
    assert(highest_first(s).contains(x) <==> highest_first(s).to_multiset().count(x) > 0);
    assert(s.contains(x) <==> s.to_multiset().count(x) > 0);
}

/// In an ordered list what stands first ranks as high as what stands behind it, or higher.
pub proof fn ordered_lists_descend<T: Ranked>(s: Seq<T>, i: int, j: int)
    requires
        0 <= i < j < s.len(),
    ensures
        ({
            let a = highest_first(s)[i].rank();
            let b = highest_first(s)[j].rank();
            a.0 > b.0 || (a.0 == b.0 && a.1 >= b.1)
        }),
{
    ordered_lists_are_whole(s);
    assert(!above(highest_first(s)[j].rank(), highest_first(s)[i].rank()));
}

proof fn placed_behind_its_equals<T: Ranked>(s: Seq<T>, x: T, rank: (int, int))
    ensures
        placed(s, x).filter(|y: T| y.rank() == rank) == (if x.rank() == rank {
            s.filter(|y: T| y.rank() == rank).push(x)
        } else {
            s.filter(|y: T| y.rank() == rank)
        }),
    decreases s.len(),
{
    let p = |y: T| y.rank() == rank;
    selects_last(placed(s, x), p);
    if s.len() > 0 && above(x.rank(), s.last().rank()) {
        let front = s.drop_last();
        placed_behind_its_equals(front, x, rank);
        selects_last(s, p);
        assert(placed(s, x).drop_last() =~= placed(front, x));
        assert(placed(s, x).last() == s.last());
    } else {
        assert(placed(s, x).drop_last() =~= s);
        assert(placed(s, x).last() == x);
    }
}

/// Ordering a list leaves those of one rank in the order in which they came.
pub proof fn equals_keep_their_order<T: Ranked>(s: Seq<T>, rank: (int, int))
    ensures
        highest_first(s).filter(|y: T| y.rank() == rank) == s.filter(|y: T| y.rank() == rank),
    decreases s.len(),
{
    let p = |y: T| y.rank() == rank;
    selects_last(s, p);
    if s.len() > 0 {
        equals_keep_their_order(s.drop_last(), rank);
        placed_behind_its_equals(highest_first(s.drop_last()), s.last(), rank);
    } else {
        selects_last(highest_first(s), p);
    }
}

/// A list of dated items is shown the newest first: as long as it was, each item as it was,
/// none before one with a later time, and those of one time in the order in which they came.
pub proof fn newer_items_come_first<T>(rows: Seq<Dated<T>>, t: Instant)
    ensures
        newest_first(rows).len() == rows.len(),
        highest_first(rows).to_multiset() == rows.to_multiset(),
        forall|k: int|
            0 <= k < rows.len() ==> #[trigger] newest_first(rows)[k] == highest_first(rows)[k].item,
        forall|i: int, j: int|
            0 <= i < j < rows.len() ==> (#[trigger] highest_first(rows)[i]).at >= (
            #[trigger] highest_first(rows)[j]).at,
        highest_first(rows).filter(|d: Dated<T>| d.at == t) == rows.filter(
            |d: Dated<T>| d.at == t,
        ),
{
    let order = highest_first(rows);
    ordered_lists_are_whole(rows);
    assert forall|i: int, j: int| 0 <= i < j < rows.len() implies (#[trigger] order[i]).at >= (
    #[trigger] order[j]).at by {
        ordered_lists_descend(rows, i, j);
    }
    equals_keep_their_order(rows, (t as int, 0));
    assert((|d: Dated<T>| d.at == t) =~= (|d: Dated<T>| d.rank() == (t as int, 0int)));
}

/// A list of numbered items is shown the lowest number first: as long as it was, each item as
/// it was, none before one with a lower number, and those of one number in the order in which
/// they came.
pub proof fn lower_numbers_come_first<T>(rows: Seq<Numbered<T>>, t: i128)
    ensures
        lowest_first(rows).len() == rows.len(),
        highest_first(rows).to_multiset() == rows.to_multiset(),
        forall|k: int|
            0 <= k < rows.len() ==> #[trigger] lowest_first(rows)[k] == highest_first(rows)[k].item,
        forall|i: int, j: int|
            0 <= i < j < rows.len() ==> (#[trigger] highest_first(rows)[i]).number <= (
            #[trigger] highest_first(rows)[j]).number,
        highest_first(rows).filter(|d: Numbered<T>| d.number == t) == rows.filter(
            |d: Numbered<T>| d.number == t,
        ),
{
    let order = highest_first(rows);
    ordered_lists_are_whole(rows);
    assert forall|i: int, j: int| 0 <= i < j < rows.len() implies (#[trigger] order[i]).number <= (
    #[trigger] order[j]).number by {
        ordered_lists_descend(rows, i, j);
    }
    equals_keep_their_order(rows, (-(t as int), 0));
    assert((|d: Numbered<T>| d.number == t) =~= (|d: Numbered<T>| d.rank() == (-(t as int), 0int)));
}

} // verus!
