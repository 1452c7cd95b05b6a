//! Lists of declared rectangles: looking a size up, and counting copies.

use vstd::prelude::*;
use crate::types::Rectangle;

verus! {

/// Whether the rectangle has the size `w` by `h`.
pub open spec fn has_size(r: Rectangle, w: int, h: int) -> bool {
    r.width == w && r.height == h
}

/// Whether some rectangle of the list has the size `w` by `h`.
pub open spec fn spec_declared(rects: Seq<Rectangle>, w: int, h: int) -> bool {
    exists|i: int| 0 <= i < rects.len() && has_size(#[trigger] rects[i], w, h)
}

/// Whether no two rectangles of the list have the same size.
pub open spec fn spec_distinct(rects: Seq<Rectangle>) -> bool {
    forall|i: int, j: int|
        0 <= i < j < rects.len() ==> !has_size(
            #[trigger] rects[i],
            (#[trigger] rects[j]).width as int,
            rects[j].height as int,
        )
}

/// The number of copies that the list asks for in all.
pub open spec fn spec_total(rects: Seq<Rectangle>) -> int
    decreases rects.len(),
{
    if rects.len() == 0 {
        0
    } else {
        spec_total(rects.drop_last()) + rects.last().quantity
    }
}

/// The index of the first rectangle of the size `w` by `h`, or the length of
/// the list where there is none.
pub open spec fn spec_index_of(rects: Seq<Rectangle>, w: int, h: int) -> int
    decreases rects.len(),
{
    if rects.len() == 0 {
        0
    } else {
        let before = spec_index_of(rects.drop_last(), w, h);
        if before < rects.len() - 1 || has_size(rects.last(), w, h) {
            before
        } else {
            rects.len() as int
        }
    }
}

/// [`spec_index_of`] gives the first index of that size and no other.
pub proof fn lemma_index_of(rects: Seq<Rectangle>, w: int, h: int)
    ensures
        0 <= spec_index_of(rects, w, h) <= rects.len(),
        spec_index_of(rects, w, h) < rects.len() ==> has_size(
            rects[spec_index_of(rects, w, h)],
            w,
            h,
        ),
        forall|j: int| 0 <= j < spec_index_of(rects, w, h) ==> !has_size(#[trigger] rects[j], w, h),
        spec_index_of(rects, w, h) < rects.len() <==> spec_declared(rects, w, h),
    decreases rects.len(),
{
    if rects.len() > 0 {
        lemma_index_of(rects.drop_last(), w, h);
        let k = spec_index_of(rects, w, h);
        assert forall|j: int| 0 <= j < k implies !has_size(#[trigger] rects[j], w, h) by {
            if j < rects.len() - 1 {
                assert(rects[j] == rects.drop_last()[j]);
            }
        }
        if k < rects.len() - 1 {
            assert(rects[k] == rects.drop_last()[k]);
        }
    }
}

/// The index of the first rectangle of the size `w` by `h`, or the length of
/// the list where there is none.
pub fn index_of_size(rects: &Vec<Rectangle>, w: i32, h: i32) -> (k: usize)
    ensures
        k == spec_index_of(rects@, w as int, h as int),
        k <= rects@.len(),
        k < rects@.len() <==> spec_declared(rects@, w as int, h as int),
        k < rects@.len() ==> has_size(rects@[k as int], w as int, h as int),
{
    let mut i: usize = 0;
    while i < rects.len()
        invariant
            i <= rects@.len(),
            forall|j: int| 0 <= j < i ==> !has_size(#[trigger] rects@[j], w as int, h as int),
        decreases rects@.len() - i,
    {
        if rects[i].width == w && rects[i].height == h {
            proof {
                lemma_index_of(rects@, w as int, h as int);
            }
            return i;
        }
        i += 1;
    }
    proof {
        lemma_index_of(rects@, w as int, h as int);
    }
    i
}

/// The total grows by what one rectangle gains.
pub proof fn lemma_total_update(rects: Seq<Rectangle>, i: int, r: Rectangle)
    requires
        0 <= i < rects.len(),
    ensures
        spec_total(rects.update(i, r)) == spec_total(rects) - rects[i].quantity + r.quantity,
    decreases rects.len(),
{
    if i == rects.len() - 1 {
        assert(rects.update(i, r).drop_last() == rects.drop_last());
    } else {
        assert(rects.update(i, r).drop_last() == rects.drop_last().update(i, r));
        lemma_total_update(rects.drop_last(), i, r);
    }
}

/// The total of a list with one rectangle more.
pub proof fn lemma_total_push(rects: Seq<Rectangle>, r: Rectangle)
    ensures
        spec_total(rects.push(r)) == spec_total(rects) + r.quantity,
{
    assert(rects.push(r).drop_last() == rects);
}

/// Where every rectangle asks for a copy at least, the total is no less than
/// the number of rectangles and than the copies of any one.
pub proof fn lemma_total_bounds(rects: Seq<Rectangle>)
    requires
        forall|i: int| 0 <= i < rects.len() ==> (#[trigger] rects[i]).quantity >= 1,
    ensures
        spec_total(rects) >= rects.len(),
        forall|i: int| 0 <= i < rects.len() ==> (#[trigger] rects[i]).quantity <= spec_total(rects),
    decreases rects.len(),
{
    if rects.len() > 0 {
        let front = rects.drop_last();
        assert forall|i: int| 0 <= i < front.len() implies (#[trigger] front[i]).quantity >= 1 by {
            assert(front[i] == rects[i]);
        }
        lemma_total_bounds(front);
        assert forall|i: int| 0 <= i < rects.len() implies (#[trigger] rects[i]).quantity
            <= spec_total(rects) by {
            if i < rects.len() - 1 {
                assert(front[i] == rects[i]);
            }
        }
    }
}

/// Where no rectangle asks for a negative number of copies, the total of a
/// beginning of the list is no more than that of the list.
pub proof fn lemma_total_take(rects: Seq<Rectangle>, k: int)
    requires
        0 <= k <= rects.len(),
        forall|i: int| 0 <= i < rects.len() ==> (#[trigger] rects[i]).quantity >= 0,
    ensures
        0 <= spec_total(rects.take(k)) <= spec_total(rects),
    decreases rects.len() - k,
{
    if k == rects.len() {
        assert(rects.take(k) == rects);
        lemma_total_nonnegative(rects);
    } else {
        assert(rects.take(k + 1).drop_last() == rects.take(k));
        assert(rects.take(k + 1).last() == rects[k]);
        lemma_total_take(rects, k + 1);
        lemma_total_nonnegative_take(rects, k);
    }
}

/// Where no rectangle asks for a negative number of copies, the total is
/// not negative.
pub proof fn lemma_total_nonnegative(rects: Seq<Rectangle>)
    requires
        forall|i: int| 0 <= i < rects.len() ==> (#[trigger] rects[i]).quantity >= 0,
    ensures
        0 <= spec_total(rects),
    decreases rects.len(),
{
    if rects.len() > 0 {
        let front = rects.drop_last();
        assert forall|i: int| 0 <= i < front.len() implies (#[trigger] front[i]).quantity >= 0 by {
            assert(front[i] == rects[i]);
        }
        lemma_total_nonnegative(front);
    }
}

/// The same of a beginning of the list.
pub proof fn lemma_total_nonnegative_take(rects: Seq<Rectangle>, k: int)
    requires
        0 <= k <= rects.len(),
        forall|i: int| 0 <= i < rects.len() ==> (#[trigger] rects[i]).quantity >= 0,
    ensures
        0 <= spec_total(rects.take(k)),
{
    let front = rects.take(k);
    assert forall|i: int| 0 <= i < front.len() implies (#[trigger] front[i]).quantity >= 0 by {
        assert(front[i] == rects[i]);
    }
    lemma_total_nonnegative(front);
}

/// The number of copies that the list asks for in all, unless it is more
/// than `i32::MAX`.
pub fn total_of(rects: &Vec<Rectangle>) -> (total: Option<i32>)
    requires
        forall|i: int| 0 <= i < rects@.len() ==> (#[trigger] rects@[i]).quantity >= 0,
    ensures
        match total {
            Some(t) => t == spec_total(rects@),
            None => spec_total(rects@) > i32::MAX,
        },
{
    let mut sum: i64 = 0;
    let mut i: usize = 0;
    while i < rects.len()
        invariant
            i <= rects@.len(),
            sum == spec_total(rects@.take(i as int)),
            0 <= sum <= i32::MAX,
            forall|i: int| 0 <= i < rects@.len() ==> (#[trigger] rects@[i]).quantity >= 0,
        decreases rects@.len() - i,
    {
        proof {
            assert(rects@.take(i + 1).drop_last() == rects@.take(i as int));
            assert(rects@.take(i + 1).last() == rects@[i as int]);
        }
        sum = sum + rects[i].quantity as i64;
        if sum > i32::MAX as i64 {
            proof {
                lemma_total_take(rects@, i + 1);
            }
            return None;
        }
        i += 1;
    }
    proof {
        assert(rects@.take(i as int) == rects@);
    }
    Some(sum as i32)
}

/// Whether no two rectangles of the list have the same size.
pub fn all_distinct(rects: &Vec<Rectangle>) -> (ok: bool)
    ensures
        ok == spec_distinct(rects@),
{
    let mut j: usize = 0;
    while j < rects.len()
        invariant
            j <= rects@.len(),
            forall|a: int, b: int|
                0 <= a < b < j ==> !has_size(
                    #[trigger] rects@[a],
                    (#[trigger] rects@[b]).width as int,
                    rects@[b].height as int,
                ),
        decreases rects@.len() - j,
    {
        let k: usize = index_of_size(rects, rects[j].width, rects[j].height);
        proof {
            lemma_index_of(rects@, rects@[j as int].width as int, rects@[j as int].height as int);
        }
        if k != j {
            assert(has_size(rects@[k as int], rects@[j as int].width as int, rects@[j as int].height as int));
            return false;
        }
        j += 1;
    }
    true
}

} // verus!
