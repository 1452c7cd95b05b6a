//! Completing a request: new rectangle types and more copies are drawn at
//! random until the targets for types and copies are met.

use vstd::prelude::*;
use rand::Rng;
use crate::rects::{
    has_size, index_of_size, lemma_index_of, lemma_total_bounds, lemma_total_push,
    lemma_total_update, spec_declared, spec_distinct, spec_index_of, spec_total, total_of,
};
use crate::request::{lemma_parse_wf, lemma_read_lines_wf, spec_parse, spec_read_lines, spec_targets, Request};
use crate::text::spec_lines;
use crate::types::{JsonInput, ParseOutput, Rectangle};

verus! {

/// The generator of `rand` that belongs to the running thread.
#[verifier::external_type_specification]
#[verifier::external_body]
pub struct ExThreadRng(rand::rngs::ThreadRng);

/// `rand::rng`: a handle to the thread's generator. Nothing is claimed of
/// it. It fails only where the system has no randomness to seed it with.
#[verifier::external_body]
fn thread_generator() -> (rng: rand::rngs::ThreadRng) {
    rand::rng()
}

/// `Rng::random_range` on an inclusive range of `i32`: some number of the
/// range. The range must not be empty. Which number comes is left open.
#[verifier::external_body]
fn random_between(rng: &mut rand::rngs::ThreadRng, low: i32, high: i32) -> (r: i32)
    requires
        low <= high,
    ensures
        low <= r <= high,
{
    rng.random_range(low..=high)
}

/// Every function that maps the numbers `0..=n` into `0..n` sends two of
/// them to the same place.
pub proof fn lemma_pigeonhole(f: spec_fn(int) -> int, n: int)
    requires
        n >= 0,
        forall|c: int| 0 <= c <= n ==> 0 <= #[trigger] f(c) < n,
    ensures
        exists|c: int, d: int| 0 <= c < d <= n && #[trigger] f(c) == #[trigger] f(d),
    decreases n,
{
    if n == 0 {
        let at_zero = f(0);
        assert(0 <= at_zero < n);
    } else if exists|c: int| 0 <= c < n && #[trigger] f(c) == f(n) {
        let c = choose|c: int| 0 <= c < n && #[trigger] f(c) == f(n);
        assert(0 <= c < n <= n && f(c) == f(n));
    } else {
        let v = f(n);
        let g = |c: int|
            if f(c) == n - 1 {
                v
            } else {
                f(c)
            };
        assert forall|c: int| 0 <= c <= n - 1 implies 0 <= #[trigger] g(c) < n - 1 by {
            assert(f(c) != f(n));
            assert(0 <= f(c) < n);
        }
        lemma_pigeonhole(g, n - 1);
        let (c, d) = choose|c: int, d: int| 0 <= c < d <= n - 1 && #[trigger] g(c) == #[trigger] g(d);
        assert(f(c) != f(n));
        assert(f(d) != f(n));
        assert(f(c) == f(d));
    }
}

/// Why a request cannot be completed.
#[derive(Debug, Clone, Copy, PartialEq, Eq)]
pub enum AutofillError {
    /// The request is not well-formed.
    Malformed,
    /// More types are declared than the target asks for.
    TooManyTypes,
    /// Fewer sizes are left within the bin's width and the declared heights
    /// than types are missing.
    TooFewSizes,
    /// More copies are declared than the target asks for.
    TooManyCopies,
    /// Fewer copies are missing than types, and each new type takes one.
    TooFewCopies,
    /// Copies are missing and there is no rectangle to give them to.
    NothingToFill,
}

/// Attempts at a new size that are made at random before the first free size
/// is taken instead.
pub const ATTEMPTS: u32 = 64;

impl Request {
    /// The number of heights from the least declared to the greatest.
    pub open spec fn spec_heights(&self) -> int {
        if self.max_height >= self.min_height {
            self.max_height - self.min_height + 1
        } else {
            0
        }
    }

    /// The number of sizes that a new type can have: a width from one to the
    /// bin's, a height within the declared ones.
    pub open spec fn spec_sizes(&self) -> int {
        self.width * self.spec_heights()
    }

    /// The types that autofill has to add; negative where too many are
    /// declared.
    pub open spec fn spec_missing_types(&self) -> int {
        if self.autofill && self.types != -1 {
            self.types - self.rects.len()
        } else {
            0
        }
    }

    /// The copies that autofill has to add; negative where too many are
    /// declared.
    pub open spec fn spec_missing_copies(&self) -> int {
        if self.autofill && self.quantity != -1 {
            self.quantity - spec_total(self.rects)
        } else {
            0
        }
    }

    /// Whether `(w, h)` is a size that a new type can have.
    pub open spec fn spec_in_range(&self, w: int, h: int) -> bool {
        1 <= w <= self.width && self.min_height <= h <= self.max_height
    }
}

/// Why the request cannot be completed, if it cannot.
pub open spec fn spec_refusal(r: Request) -> Option<AutofillError> {
    if !r.wf() {
        Some(AutofillError::Malformed)
    } else if r.spec_missing_types() < 0 {
        Some(AutofillError::TooManyTypes)
    } else if r.spec_missing_types() > r.spec_sizes() - r.rects.len() {
        Some(AutofillError::TooFewSizes)
    } else if r.spec_missing_copies() < 0 {
        Some(AutofillError::TooManyCopies)
    } else if r.autofill && r.quantity != -1 && r.spec_missing_copies() < r.spec_missing_types() {
        Some(AutofillError::TooFewCopies)
    } else if r.spec_missing_copies() > r.spec_missing_types() && r.rects.len()
        + r.spec_missing_types() == 0 {
        Some(AutofillError::NothingToFill)
    } else {
        None
    }
}

/// Whether `list` completes the request.
///
/// The declared rectangles come first, in their order and with no fewer
/// copies than declared. The new types follow; each has a size that was not
/// declared, within the range, and a copy at least. No size occurs twice.
/// A target that is set is met exactly; where none is set, nothing is added
/// on its account. Without autofill the list is the declared one.
pub open spec fn spec_completes(r: Request, list: Seq<Rectangle>) -> bool {
    &&& spec_distinct(list)
    &&& list.len() == r.rects.len() + r.spec_missing_types()
    &&& forall|i: int|
        0 <= i < r.rects.len() ==> has_size(
            #[trigger] list[i],
            r.rects[i].width as int,
            r.rects[i].height as int,
        ) && list[i].quantity >= r.rects[i].quantity
    &&& forall|i: int|
        r.rects.len() <= i < list.len() ==> r.spec_in_range(
            (#[trigger] list[i]).width as int,
            list[i].height as int,
        ) && list[i].quantity >= 1
    &&& if r.autofill && r.quantity != -1 {
        spec_total(list) == r.quantity
    } else {
        spec_total(list) == spec_total(r.rects) + r.spec_missing_types()
    }
    &&& !r.autofill ==> list == r.rects
}

/// The size with the number `c` among those in range: they are numbered
/// from the least width and height on, the heights of one width in a row.
pub open spec fn spec_size_at(r: Request, c: int) -> (int, int) {
    (1 + c / r.spec_heights(), r.min_height + c % r.spec_heights())
}

/// Declares the size `(w, h)` with one copy unless it is declared already,
/// and says whether it did.
pub fn offer_size(list: &mut Vec<Rectangle>, w: i32, h: i32) -> (added: bool)
    ensures
        added == !spec_declared(old(list)@, w as int, h as int),
        added ==> final(list)@ == old(list)@.push(Rectangle { width: w, height: h, quantity: 1 }),
        !added ==> final(list)@ == old(list)@,
{
    if index_of_size(list, w, h) < list.len() {
        false
    } else {
        list.push(Rectangle { width: w, height: h, quantity: 1 });
        true
    }
}

/// Gives the rectangle at `index` `more` copies.
pub fn add_copies(list: &mut Vec<Rectangle>, index: usize, more: i32)
    requires
        index < old(list)@.len(),
        old(list)@[index as int].quantity + more <= i32::MAX,
        old(list)@[index as int].quantity + more >= i32::MIN,
    ensures
        final(list)@ == old(list)@.update(
            index as int,
            Rectangle {
                width: old(list)@[index as int].width,
                height: old(list)@[index as int].height,
                quantity: (old(list)@[index as int].quantity + more) as i32,
            },
        ),
        spec_total(final(list)@) == spec_total(old(list)@) + more,
{
    let r: Rectangle = list[index];
    let grown = Rectangle { width: r.width, height: r.height, quantity: r.quantity + more };
    proof {
        lemma_total_update(list@, index as int, grown);
    }
    list.set(index, grown);
}

/// The first size in range, by its number, that is not declared.
pub fn first_free(r: &ParseOutput, list: &Vec<Rectangle>) -> (size: (i32, i32))
    requires
        r@.wf(),
        list@.len() < r@.spec_sizes(),
        list@.len() <= i32::MAX,
        forall|i: int|
            0 <= i < list@.len() ==> r@.spec_in_range(
                (#[trigger] list@[i]).width as int,
                list@[i].height as int,
            ),
    ensures
        r@.spec_in_range(size.0 as int, size.1 as int),
        !spec_declared(list@, size.0 as int, size.1 as int),
        exists|c: int|
            0 <= c <= list@.len() && spec_size_at(r@, c) == (size.0 as int, size.1 as int)
                && forall|d: int|
                0 <= d < c ==> spec_declared(
                    list@,
                    (#[trigger] spec_size_at(r@, d)).0,
                    spec_size_at(r@, d).1,
                ),
{
    let heights: i64 = r.max_height as i64 - r.min_height as i64 + 1;
    let n: i64 = list.len() as i64;
    assert(heights >= 1) by (nonlinear_arith)
        requires
            r@.spec_sizes() > 0,
            r@.spec_sizes() == r@.width * r@.spec_heights(),
            r@.width > 0,
            heights == r@.max_height - r@.min_height + 1,
            r@.spec_heights() == if r@.max_height >= r@.min_height {
                heights as int
            } else {
                0
            },
    ;
    let mut c: i64 = 0;
    while c <= n
        invariant
            0 <= c <= n + 1,
            n == list@.len(),
            n < r@.spec_sizes(),
            n <= i32::MAX,
            r@.wf(),
            heights >= 1,
            heights == r@.spec_heights(),
            heights == r@.max_height - r@.min_height + 1,
            r@.spec_sizes() == r@.width * heights,
            forall|d: int|
                0 <= d < c ==> spec_declared(
                    list@,
                    (#[trigger] spec_size_at(r@, d)).0,
                    spec_size_at(r@, d).1,
                ),
        decreases n + 1 - c,
    {
        let row: i64 = c / heights;
        let col: i64 = c % heights;
        assert(0 <= row < r@.width && 0 <= col < heights) by (nonlinear_arith)
            requires
                0 <= c,
                c < r@.width * heights,
                heights >= 1,
                row == c / heights,
                col == c % heights,
        ;
        let w: i32 = (1 + row) as i32;
        let h: i32 = (r.min_height as i64 + col) as i32;
        if index_of_size(list, w, h) == list.len() {
            assert(spec_size_at(r@, c as int) == (w as int, h as int));
            return (w, h);
        }
        c += 1;
    }
    proof {
        lemma_sizes_run_out(r@, list@);
    }
    (1, r.min_height)
}

/// One of the sizes numbered up to the length of the list is not declared:
/// they are one more than the list has rectangles, and no two are the same.
pub proof fn lemma_sizes_run_out(r: Request, list: Seq<Rectangle>)
    requires
        r.spec_heights() >= 1,
    ensures
        exists|d: int|
            0 <= d <= list.len() && !spec_declared(
                list,
                (#[trigger] spec_size_at(r, d)).0,
                spec_size_at(r, d).1,
            ),
{
    let n = list.len() as int;
    if forall|d: int|
        0 <= d <= n ==> spec_declared(list, (#[trigger] spec_size_at(r, d)).0, spec_size_at(r, d).1) {
        let f = |c: int| spec_index_of(list, spec_size_at(r, c).0, spec_size_at(r, c).1);
        assert forall|c: int| 0 <= c <= n implies 0 <= #[trigger] f(c) < n by {
            let s = spec_size_at(r, c);
            assert(spec_declared(list, s.0, s.1));
            lemma_index_of(list, s.0, s.1);
        }
        lemma_pigeonhole(f, n);
        let (c, d) = choose|c: int, d: int| 0 <= c < d <= n && #[trigger] f(c) == #[trigger] f(d);
        let sc = spec_size_at(r, c);
        let sd = spec_size_at(r, d);
        assert(spec_declared(list, sc.0, sc.1));
        assert(spec_declared(list, sd.0, sd.1));
        lemma_index_of(list, sc.0, sc.1);
        lemma_index_of(list, sd.0, sd.1);
        assert(sc == sd);
        let hs = r.spec_heights();
        assert(c == d) by (nonlinear_arith)
            requires
                hs >= 1,
                c / hs == d / hs,
                c % hs == d % hs,
        ;
    }
}

fn add_type(rng: &mut rand::rngs::ThreadRng, r: &ParseOutput, list: &mut Vec<Rectangle>)
    requires
        r@.wf(),
        old(list)@.len() < r@.spec_sizes(),
        old(list)@.len() <= i32::MAX,
        forall|i: int|
            0 <= i < old(list)@.len() ==> r@.spec_in_range(
                (#[trigger] old(list)@[i]).width as int,
                old(list)@[i].height as int,
            ),
    ensures
        final(list)@.len() == old(list)@.len() + 1,
        final(list)@.drop_last() == old(list)@,
        final(list)@.last().quantity == 1,
        r@.spec_in_range(final(list)@.last().width as int, final(list)@.last().height as int),
        !spec_declared(
            old(list)@,
            final(list)@.last().width as int,
            final(list)@.last().height as int,
        ),
{
    assert(r@.spec_heights() >= 1) by (nonlinear_arith)
        requires
            r@.spec_sizes() > 0,
            r@.spec_sizes() == r@.width * r@.spec_heights(),
            r@.width > 0,
            r@.spec_heights() >= 0,
    ;
    let mut tries: u32 = 0;
    while tries < ATTEMPTS
        invariant
            r@.wf(),
            r@.spec_heights() >= 1,
            list@ == old(list)@,
        decreases ATTEMPTS - tries,
    {
        let w: i32 = random_between(rng, 1, r.width);
        let h: i32 = random_between(rng, r.min_height, r.max_height);
        if offer_size(list, w, h) {
            assert(list@.drop_last() == old(list)@);
            return ;
        }
        tries += 1;
    }
    let size: (i32, i32) = first_free(r, list);
    let added: bool = offer_size(list, size.0, size.1);
    assert(list@.drop_last() == old(list)@);
}

fn copy_of(rects: &Vec<Rectangle>) -> (out: Vec<Rectangle>)
    ensures
        out@ == rects@,
{
    let mut out: Vec<Rectangle> = Vec::new();
    let mut i: usize = 0;
    while i < rects.len()
        invariant
            i <= rects@.len(),
            out@ == rects@.take(i as int),
        decreases rects@.len() - i,
    {
        out.push(rects[i]);
        i += 1;
    }
    proof {
        assert(rects@.take(i as int) == rects@);
    }
    out
}

/// Completes a request into the input of the packing algorithm.
///
/// Without autofill the declared rectangles are handed on as they are. With
/// it, new types of one copy each are drawn until the target for types is
/// met, then copies are dealt out among all types until the target for
/// copies is met. A size is drawn up to [`ATTEMPTS`] times; where every draw
/// gave a declared size, the first free size is taken. A target that cannot
/// be met is refused, and nothing else is: which sizes are drawn and which
/// types gain copies is left to chance, that the targets are met is not.
pub fn create_input(input: &ParseOutput) -> (out: Result<JsonInput, AutofillError>)
    ensures
        match out {
            Err(e) => spec_refusal(input@) == Some(e),
            Ok(j) => {
                &&& spec_refusal(input@) is None
                &&& spec_completes(input@, j.rectangle_list@)
                &&& j.width_of_bin == input.width
                &&& j.autofill_option == input.autofill
                &&& j.number_of_types_of_rectangles == j.rectangle_list@.len()
                &&& j.number_of_rectangles == spec_total(j.rectangle_list@)
            },
        },
{
    if !input.is_valid() {
        return Err(AutofillError::Malformed);
    }
    let ghost r = input@;
    proof {
        lemma_total_bounds(r.rects);
    }
    let declared: i64 = input.rects.len() as i64;
    let copies: i64 = match total_of(&input.rects) {
        Some(t) => t as i64,
        None => {
            return Err(AutofillError::Malformed);
        },
    };
    let missing_types: i64 = if input.autofill && input.types != -1 {
        input.types as i64 - declared
    } else {
        0
    };
    if missing_types < 0 {
        return Err(AutofillError::TooManyTypes);
    }
    let heights: i64 = if input.max_height >= input.min_height {
        input.max_height as i64 - input.min_height as i64 + 1
    } else {
        0
    };
    assert(0 <= input.width * heights <= 0x7FFF_FFFF * 0x1_0000_0000) by (nonlinear_arith)
        requires
            0 < input.width <= 0x7FFF_FFFF,
            0 <= heights <= 0x1_0000_0000,
    ;
    let sizes: i64 = input.width as i64 * heights;
    if missing_types > sizes - declared {
        return Err(AutofillError::TooFewSizes);
    }
    let missing_copies: i64 = if input.autofill && input.quantity != -1 {
        input.quantity as i64 - copies
    } else {
        0
    };
    if missing_copies < 0 {
        return Err(AutofillError::TooManyCopies);
    }
    if input.autofill && input.quantity != -1 && missing_copies < missing_types {
        return Err(AutofillError::TooFewCopies);
    }
    if missing_copies > missing_types && declared + missing_types == 0 {
        return Err(AutofillError::NothingToFill);
    }
    let mut list: Vec<Rectangle> = copy_of(&input.rects);
    let mut total: i64 = copies;
    if missing_types > 0 || missing_copies > 0 {
        let mut rng = thread_generator();
        let mut added: i64 = 0;
        while added < missing_types
            invariant
                r == input@,
                r.wf(),
                0 <= added <= missing_types,
                missing_types == r.spec_missing_types(),
                declared == r.rects.len(),
                declared + missing_types <= r.spec_sizes(),
                declared + missing_types <= i32::MAX,
                list@.len() == declared + added,
                list@.take(declared as int) == r.rects,
                spec_distinct(list@),
                total == spec_total(list@),
                total == spec_total(r.rects) + added,
                forall|i: int|
                    0 <= i < list@.len() ==> r.spec_in_range(
                        (#[trigger] list@[i]).width as int,
                        list@[i].height as int,
                    ),
                forall|i: int| declared <= i < list@.len() ==> (#[trigger] list@[i]).quantity == 1,
            decreases missing_types - added,
        {
            let ghost before = list@;
            add_type(&mut rng, input, &mut list);
            proof {
                let fresh = list@.last();
                assert(list@ == before.push(fresh));
                lemma_total_push(before, fresh);
                assert(list@.take(declared as int) == before.take(declared as int));
                assert forall|i: int, j: int| 0 <= i < j < list@.len() implies !has_size(
                    #[trigger] list@[i],
                    (#[trigger] list@[j]).width as int,
                    list@[j].height as int,
                ) by {
                    if j == list@.len() - 1 {
                        assert(list@[i] == before[i]);
                    } else {
                        assert(list@[i] == before[i] && list@[j] == before[j]);
                    }
                }
            }
            total += 1;
            added += 1;
        }
        let ghost typed = list@;
        let mut remaining: i64 = if input.autofill && input.quantity != -1 {
            missing_copies - missing_types
        } else {
            0
        };
        proof {
            assert forall|i: int| 0 <= i < typed.len() implies (#[trigger] typed[i]).quantity
                >= 1 by {
                if i < declared {
                    assert(typed[i] == typed.take(declared as int)[i]);
                }
            }
        }
        while remaining > 0
            invariant
                r == input@,
                r.wf(),
                0 <= remaining,
                list@.len() == typed.len(),
                list@.len() > 0 || remaining == 0,
                list@.len() <= i32::MAX,
                total == spec_total(list@),
                remaining > 0 ==> total + remaining <= i32::MAX,
                0 <= total <= 2 * i32::MAX,
                !(input.autofill && input.quantity != -1) ==> remaining == 0,
                input.autofill && input.quantity != -1 ==> total + remaining == input.quantity,
                !(input.autofill && input.quantity != -1) ==> total == spec_total(typed),
                forall|i: int|
                    0 <= i < list@.len() ==> has_size(
                        #[trigger] list@[i],
                        typed[i].width as int,
                        typed[i].height as int,
                    ) && list@[i].quantity >= typed[i].quantity && list@[i].quantity >= 1,
            decreases remaining,
        {
            let index: usize = random_between(&mut rng, 0, (list.len() - 1) as i32) as usize;
            let more: i32 = random_between(&mut rng, 1, remaining as i32);
            proof {
                lemma_total_bounds(list@);
            }
            add_copies(&mut list, index, more);
            total += more as i64;
            remaining -= more as i64;
        }
        proof {
            assert forall|i: int| 0 <= i < r.rects.len() implies has_size(
                #[trigger] list@[i],
                r.rects[i].width as int,
                r.rects[i].height as int,
            ) && list@[i].quantity >= r.rects[i].quantity by {
                assert(typed[i] == typed.take(declared as int)[i]);
            }
            assert forall|i: int, j: int| 0 <= i < j < list@.len() implies !has_size(
                #[trigger] list@[i],
                (#[trigger] list@[j]).width as int,
                list@[j].height as int,
            ) by {
                assert(has_size(list@[i], typed[i].width as int, typed[i].height as int));
                assert(has_size(list@[j], typed[j].width as int, typed[j].height as int));
            }
        }
    }
    Ok(
        JsonInput {
            width_of_bin: input.width,
            number_of_rectangles: total as usize,
            number_of_types_of_rectangles: list.len(),
            autofill_option: input.autofill,
            rectangle_list: list,
        },
    )
}

/// A request that was read is completed unless too few sizes are left for
/// the types that are missing: reading finds every other reason to refuse.
pub proof fn lemma_parsed_is_completed(
    w: Seq<char>,
    n: Seq<char>,
    k: Seq<char>,
    autofill: bool,
    text: Seq<char>,
)
    ensures
        spec_parse(w, n, k, autofill, text) matches Ok(r) ==> spec_refusal(r) is None
            || spec_refusal(r) == Some(AutofillError::TooFewSizes),
{
    lemma_parse_wf(w, n, k, autofill, text);
    match spec_targets(w, n, k) {
        Ok((width, quantity, types)) => {
            lemma_read_lines_wf(spec_lines(text), width as int);
        },
        Err(_) => {},
    }
}

} // verus!
