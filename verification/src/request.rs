//! Reading a rectangle request: the three form fields and the text with one
//! rectangle per line, as `X Y Q`: width, height and number of copies.
//!
//! Every fault is collected; a request comes out only where there is none.

use vstd::prelude::*;
use crate::rects::{
    all_distinct, total_of, has_size, index_of_size, lemma_index_of, lemma_total_bounds, lemma_total_push,
    lemma_total_update, spec_distinct, spec_index_of, spec_total,
};
use crate::text::{chars_of, lines, number, spec_lines, spec_number, spec_texts, spec_words, words};
use crate::types::{ParseOutput, Rectangle};

verus! {

/// One of the three numbers on a line.
#[derive(Debug, Clone, Copy, PartialEq, Eq)]
pub enum Field {
    X,
    Y,
    Q,
}

/// A fault in a request. Lines are counted from one.
#[derive(Debug, Clone, Copy, PartialEq, Eq)]
#[allow(inconsistent_fields)]
pub enum ParseError {
    /// No bin width was entered.
    WidthMissing,
    /// The bin width is no whole number.
    WidthNotInteger,
    /// The bin width is not positive.
    WidthNotPositive,
    /// The number of rectangles is no whole number.
    QuantityNotInteger,
    /// The number of rectangles is negative.
    QuantityNegative,
    /// The number of types is no whole number.
    TypesNotInteger,
    /// The number of types is negative.
    TypesNegative,
    /// The line does not hold three words.
    FieldCount { line: usize, found: usize },
    /// A word of the line is no whole number.
    NotAnInteger { line: usize, field: Field },
    /// One of the three numbers is not positive.
    NotPositive { line: usize },
    /// The rectangle is wider than the bin.
    TooWide { line: usize, width: i32, limit: i32 },
    /// With this line more copies are asked for than can be counted.
    TooManyCopies { line: usize },
    /// Without autofill: the copies found are not as many as entered.
    QuantityMismatch { found: i32, expected: i32 },
    /// Without autofill: the types found are not as many as entered.
    TypesMismatch { found: usize, expected: i32 },
    /// With autofill: more types were found than entered.
    TooManyTypes { found: usize, expected: i32 },
    /// With autofill: more types are missing than copies.
    TypesExceedCopies { copies: i32, types: i32 },
    /// With autofill: more copies were found than entered.
    TooManyRectangles { found: i32, expected: i32 },
    /// With autofill: copies are missing, and no type is declared or asked
    /// for that could take them.
    NoTypeForCopies { copies: i32 },
}

/// The mathematical content of a [`ParseOutput`].
pub struct Request {
    pub width: int,
    pub quantity: int,
    pub types: int,
    pub autofill: bool,
    pub rects: Seq<Rectangle>,
    pub input_types: int,
    pub min_height: int,
    pub max_height: int,
}

impl View for ParseOutput {
    type V = Request;

    open spec fn view(&self) -> Request {
        Request {
            width: self.width as int,
            quantity: self.quantity as int,
            types: self.types as int,
            autofill: self.autofill,
            rects: self.rects@,
            input_types: self.input_types as int,
            min_height: self.min_height as int,
            max_height: self.max_height as int,
        }
    }
}

impl Request {
    /// What holds of every request that was read: the bin has a width;
    /// targets are counts or unset; no size is declared twice; every
    /// rectangle fits the bin across, has a height within the two bounds,
    /// and asks for a copy at least; the copies can be counted.
    pub open spec fn wf(&self) -> bool {
        &&& 0 < self.width <= i32::MAX
        &&& -1 <= self.quantity <= i32::MAX
        &&& -1 <= self.types <= i32::MAX
        &&& self.input_types == self.rects.len()
        &&& i32::MIN <= self.min_height <= i32::MAX
        &&& i32::MIN <= self.max_height <= i32::MAX
        &&& spec_distinct(self.rects)
        &&& spec_total(self.rects) <= i32::MAX
        &&& forall|i: int|
            0 <= i < self.rects.len() ==> {
                let r = #[trigger] self.rects[i];
                &&& 1 <= r.width <= self.width
                &&& 1 <= r.height
                &&& self.min_height <= r.height <= self.max_height
                &&& 1 <= r.quantity
            }
    }
}

/// What has been gathered from the lines read so far.
pub struct Tally {
    /// The rectangles declared, each size once.
    pub rects: Seq<Rectangle>,
    /// The faults found.
    pub errors: Seq<ParseError>,
    /// The copies asked for on all lines of three positive numbers.
    pub total: int,
    /// The least height on those lines.
    pub min_height: int,
    /// The greatest height on those lines.
    pub max_height: int,
}

impl Tally {
    /// Before the first line.
    pub open spec fn start() -> Tally {
        Tally {
            rects: Seq::empty(),
            errors: Seq::empty(),
            total: 0,
            min_height: i32::MAX as int,
            max_height: i32::MIN as int,
        }
    }

    /// The tally with one fault more.
    pub open spec fn fault(self, e: ParseError) -> Tally {
        Tally { errors: self.errors.push(e), ..self }
    }

    /// What holds after any number of lines.
    pub open spec fn wf(&self, width: int) -> bool {
        &&& 0 <= self.total <= i32::MAX
        &&& spec_total(self.rects) <= self.total
        &&& self.errors.len() == 0 ==> spec_total(self.rects) == self.total
        &&& i32::MIN <= self.min_height <= i32::MAX
        &&& i32::MIN <= self.max_height <= i32::MAX
        &&& spec_distinct(self.rects)
        &&& forall|i: int|
            0 <= i < self.rects.len() ==> {
                let r = #[trigger] self.rects[i];
                &&& 1 <= r.width <= width
                &&& 1 <= r.height
                &&& self.min_height <= r.height <= self.max_height
                &&& 1 <= r.quantity
            }
    }
}

/// The list after `r` was declared: its copies are added to the rectangle of
/// its size, or it is put at the end where there is none yet.
pub open spec fn spec_declare(rects: Seq<Rectangle>, r: Rectangle) -> Seq<Rectangle> {
    let k = spec_index_of(rects, r.width as int, r.height as int);
    if k < rects.len() {
        rects.update(
            k,
            Rectangle {
                width: r.width,
                height: r.height,
                quantity: (rects[k].quantity + r.quantity) as i32,
            },
        )
    } else {
        rects.push(r)
    }
}

/// The tally after three positive numbers were read from line `line`.
pub open spec fn spec_count(t: Tally, line: int, x: i32, y: i32, q: i32, width: int) -> Tally {
    if t.total + q > i32::MAX {
        t.fault(ParseError::TooManyCopies { line: line as usize })
    } else {
        let counted = Tally {
            total: t.total + q,
            min_height: if y < t.min_height {
                y as int
            } else {
                t.min_height
            },
            max_height: if y > t.max_height {
                y as int
            } else {
                t.max_height
            },
            ..t
        };
        if x > width {
            counted.fault(
                ParseError::TooWide { line: line as usize, width: x, limit: width as i32 },
            )
        } else {
            Tally {
                rects: spec_declare(t.rects, Rectangle { width: x, height: y, quantity: q }),
                ..counted
            }
        }
    }
}

/// The tally after line number `line` was read. A line without words is
/// passed over; any other must hold three positive whole numbers.
pub open spec fn spec_read_line(t: Tally, line: int, text: Seq<char>, width: int) -> Tally {
    let w = spec_words(text);
    if w.len() == 0 {
        t
    } else if w.len() != 3 {
        t.fault(ParseError::FieldCount { line: line as usize, found: w.len() as usize })
    } else {
        match (spec_number(w[0]), spec_number(w[1]), spec_number(w[2])) {
            (None, _, _) => t.fault(
                ParseError::NotAnInteger { line: line as usize, field: Field::X },
            ),
            (Some(_), None, _) => t.fault(
                ParseError::NotAnInteger { line: line as usize, field: Field::Y },
            ),
            (Some(_), Some(_), None) => t.fault(
                ParseError::NotAnInteger { line: line as usize, field: Field::Q },
            ),
            (Some(x), Some(y), Some(q)) => if x <= 0 || y <= 0 || q <= 0 {
                t.fault(ParseError::NotPositive { line: line as usize })
            } else {
                spec_count(t, line, x, y, q, width)
            },
        }
    }
}

/// The tally after all of the lines were read, first to last.
pub open spec fn spec_read_lines(lines: Seq<Seq<char>>, width: int) -> Tally
    decreases lines.len(),
{
    if lines.len() == 0 {
        Tally::start()
    } else {
        spec_read_line(
            spec_read_lines(lines.drop_last(), width),
            lines.len() as int,
            lines.last(),
            width,
        )
    }
}

/// The bin width and the two targets as entered, `-1` for a target left
/// empty; or the faults in them. A missing, malformed or non-positive width
/// and a negative target end the reading at once.
pub open spec fn spec_targets(w: Seq<char>, n: Seq<char>, k: Seq<char>) -> Result<
    (i32, i32, i32),
    Seq<ParseError>,
> {
    if w.len() == 0 {
        Err(seq![ParseError::WidthMissing])
    } else if spec_number(w) is None {
        Err(seq![ParseError::WidthNotInteger])
    } else if spec_number(w)->0 <= 0 {
        Err(seq![ParseError::WidthNotPositive])
    } else if n.len() > 0 && spec_number(n) is Some && spec_number(n)->0 < 0 {
        Err(seq![ParseError::QuantityNegative])
    } else {
        let n_bad = n.len() > 0 && spec_number(n) is None;
        let first: Seq<ParseError> = if n_bad {
            seq![ParseError::QuantityNotInteger]
        } else {
            Seq::empty()
        };
        if k.len() > 0 && spec_number(k) is Some && spec_number(k)->0 < 0 {
            Err(first.push(ParseError::TypesNegative))
        } else if k.len() > 0 && spec_number(k) is None {
            Err(first.push(ParseError::TypesNotInteger))
        } else if n_bad {
            Err(first)
        } else {
            Ok(
                (
                    spec_number(w)->0,
                    if n.len() > 0 {
                        spec_number(n)->0
                    } else {
                        -1i32
                    },
                    if k.len() > 0 {
                        spec_number(k)->0
                    } else {
                        -1i32
                    },
                ),
            )
        }
    }
}

/// The faults found in the lines, `e0`, together with those of the targets
/// against the `count` types and `total` copies that the lines declare.
///
/// Without autofill a target that is set must be met as it stands. With
/// autofill no more types may be declared than asked for, and no more copies;
/// where both targets are set, no more types may be missing than copies,
/// since every new type takes a copy; and where copies are missing, there
/// must be a type, declared or asked for, to take them.
pub open spec fn spec_faults(
    e0: Seq<ParseError>,
    count: int,
    total: int,
    n: int,
    k: int,
    autofill: bool,
) -> Seq<ParseError> {
    if !autofill {
        let e1 = if n != -1 && n != total {
            e0.push(ParseError::QuantityMismatch { found: total as i32, expected: n as i32 })
        } else {
            e0
        };
        if k != -1 && k != count {
            e1.push(ParseError::TypesMismatch { found: count as usize, expected: k as i32 })
        } else {
            e1
        }
    } else {
        let e1 = if k != -1 && count > k {
            e0.push(ParseError::TooManyTypes { found: count as usize, expected: k as i32 })
        } else {
            e0
        };
        let e2 = if n != -1 && k != -1 && n - total >= 0 && k - count > n - total {
            e1.push(
                ParseError::TypesExceedCopies {
                    copies: (n - total) as i32,
                    types: (k - count) as i32,
                },
            )
        } else {
            e1
        };
        let e3 = if n != -1 && n - total < 0 {
            e2.push(ParseError::TooManyRectangles { found: total as i32, expected: n as i32 })
        } else {
            e2
        };
        if n != -1 && n - total > 0 && count == 0 && k <= 0 {
            e3.push(ParseError::NoTypeForCopies { copies: (n - total) as i32 })
        } else {
            e3
        }
    }
}

/// What reading the form gives: the request, or every fault found.
pub open spec fn spec_parse(
    w: Seq<char>,
    n: Seq<char>,
    k: Seq<char>,
    autofill: bool,
    text: Seq<char>,
) -> Result<Request, Seq<ParseError>> {
    match spec_targets(w, n, k) {
        Err(e) => Err(e),
        Ok((width, quantity, types)) => {
            let t = spec_read_lines(spec_lines(text), width as int);
            let faults = spec_faults(
                t.errors,
                t.rects.len() as int,
                t.total,
                quantity as int,
                types as int,
                autofill,
            );
            if faults.len() > 0 {
                Err(faults)
            } else {
                Ok(
                    Request {
                        width: width as int,
                        quantity: quantity as int,
                        types: types as int,
                        autofill,
                        rects: t.rects,
                        input_types: t.rects.len() as int,
                        min_height: t.min_height,
                        max_height: t.max_height,
                    },
                )
            }
        },
    }
}

/// Counting three positive numbers keeps a tally well-formed.
pub proof fn lemma_count_wf(t: Tally, line: int, x: i32, y: i32, q: i32, width: int)
    requires
        t.wf(width),
        x >= 1,
        y >= 1,
        q >= 1,
    ensures
        spec_count(t, line, x, y, q, width).wf(width),
{
    let out = spec_count(t, line, x, y, q, width);
    if t.total + q <= i32::MAX && x <= width {
        let r = Rectangle { width: x, height: y, quantity: q };
        let k = spec_index_of(t.rects, x as int, y as int);
        lemma_index_of(t.rects, x as int, y as int);
        lemma_total_bounds(t.rects);
        if k < t.rects.len() {
            let merged = Rectangle {
                width: x,
                height: y,
                quantity: (t.rects[k].quantity + q) as i32,
            };
            lemma_total_update(t.rects, k, merged);
            assert(out.rects == t.rects.update(k, merged));
            assert forall|i: int, j: int| 0 <= i < j < out.rects.len() implies !has_size(
                #[trigger] out.rects[i],
                (#[trigger] out.rects[j]).width as int,
                out.rects[j].height as int,
            ) by {
                assert(has_size(out.rects[i], t.rects[i].width as int, t.rects[i].height as int));
                assert(has_size(out.rects[j], t.rects[j].width as int, t.rects[j].height as int));
            }
        } else {
            lemma_total_push(t.rects, r);
            assert(out.rects == t.rects.push(r));
        }
    }
}

/// Reading a line keeps a tally well-formed.
pub proof fn lemma_read_line_wf(t: Tally, line: int, text: Seq<char>, width: int)
    requires
        t.wf(width),
    ensures
        spec_read_line(t, line, text, width).wf(width),
{
    let w = spec_words(text);
    if w.len() == 3 {
        match (spec_number(w[0]), spec_number(w[1]), spec_number(w[2])) {
            (Some(x), Some(y), Some(q)) => {
                if x > 0 && y > 0 && q > 0 {
                    lemma_count_wf(t, line, x, y, q, width);
                }
            },
            _ => {},
        }
    }
}

/// The tally of any lines is well-formed.
pub proof fn lemma_read_lines_wf(lines: Seq<Seq<char>>, width: int)
    ensures
        spec_read_lines(lines, width).wf(width),
    decreases lines.len(),
{
    if lines.len() > 0 {
        lemma_read_lines_wf(lines.drop_last(), width);
        lemma_read_line_wf(
            spec_read_lines(lines.drop_last(), width),
            lines.len() as int,
            lines.last(),
            width,
        );
    }
}

/// Every request that is read is well-formed.
pub proof fn lemma_parse_wf(
    w: Seq<char>,
    n: Seq<char>,
    k: Seq<char>,
    autofill: bool,
    text: Seq<char>,
)
    ensures
        spec_parse(w, n, k, autofill, text) matches Ok(r) ==> r.wf(),
{
    match spec_targets(w, n, k) {
        Ok((width, quantity, types)) => {
            lemma_read_lines_wf(spec_lines(text), width as int);
        },
        Err(_) => {},
    }
}

struct Progress {
    rects: Vec<Rectangle>,
    errors: Vec<ParseError>,
    total: i32,
    min_height: i32,
    max_height: i32,
}

impl View for Progress {
    type V = Tally;

    closed spec fn view(&self) -> Tally {
        Tally {
            rects: self.rects@,
            errors: self.errors@,
            total: self.total as int,
            min_height: self.min_height as int,
            max_height: self.max_height as int,
        }
    }
}

fn fault(p: Progress, e: ParseError) -> (out: Progress)
    ensures
        out@ == p@.fault(e),
{
    let mut p = p;
    p.errors.push(e);
    p
}

fn count(p: Progress, line: usize, x: i32, y: i32, q: i32, width: i32) -> (out: Progress)
    requires
        p@.wf(width as int),
        x >= 1,
        y >= 1,
        q >= 1,
    ensures
        out@ == spec_count(p@, line as int, x, y, q, width as int),
{
    if p.total as i64 + q as i64 > i32::MAX as i64 {
        return fault(p, ParseError::TooManyCopies { line });
    }
    let mut p = p;
    let ghost before = p@;
    p.total = p.total + q;
    if y < p.min_height {
        p.min_height = y;
    }
    if y > p.max_height {
        p.max_height = y;
    }
    if x > width {
        return fault(p, ParseError::TooWide { line, width: x, limit: width });
    }
    let k: usize = index_of_size(&p.rects, x, y);
    if k < p.rects.len() {
        proof {
            lemma_total_bounds(before.rects);
        }
        let merged = Rectangle { width: x, height: y, quantity: p.rects[k].quantity + q };
        p.rects.set(k, merged);
    } else {
        p.rects.push(Rectangle { width: x, height: y, quantity: q });
    }
    p
}

fn read_line(p: Progress, line: usize, text: &Vec<char>, width: i32) -> (out: Progress)
    requires
        p@.wf(width as int),
    ensures
        out@ == spec_read_line(p@, line as int, text@, width as int),
        out@.wf(width as int),
{
    proof {
        lemma_read_line_wf(p@, line as int, text@, width as int);
    }
    let w: Vec<Vec<char>> = words(text);
    proof {
        if w@.len() == 3 {
            assert(spec_texts(w@)[0] == w@[0]@);
            assert(spec_texts(w@)[1] == w@[1]@);
            assert(spec_texts(w@)[2] == w@[2]@);
        }
    }
    if w.len() == 0 {
        return p;
    }
    if w.len() != 3 {
        return fault(p, ParseError::FieldCount { line, found: w.len() });
    }
    let x: i32 = match number(&w[0]) {
        Some(x) => x,
        None => {
            return fault(p, ParseError::NotAnInteger { line, field: Field::X });
        },
    };
    let y: i32 = match number(&w[1]) {
        Some(y) => y,
        None => {
            return fault(p, ParseError::NotAnInteger { line, field: Field::Y });
        },
    };
    let q: i32 = match number(&w[2]) {
        Some(q) => q,
        None => {
            return fault(p, ParseError::NotAnInteger { line, field: Field::Q });
        },
    };
    if x <= 0 || y <= 0 || q <= 0 {
        return fault(p, ParseError::NotPositive { line });
    }
    count(p, line, x, y, q, width)
}

fn read_targets(w: &str, n: &str, k: &str) -> (out: Result<(i32, i32, i32), Vec<ParseError>>)
    ensures
        match out {
            Ok(v) => spec_targets(w@, n@, k@) == Ok::<(i32, i32, i32), Seq<ParseError>>(v),
            Err(e) => spec_targets(w@, n@, k@) == Err::<(i32, i32, i32), Seq<ParseError>>(e@),
        },
{
    let mut errors: Vec<ParseError> = Vec::new();
    let wc: Vec<char> = chars_of(w);
    if wc.len() == 0 {
        errors.push(ParseError::WidthMissing);
        return Err(errors);
    }
    let width: i32 = match number(&wc) {
        Some(v) => v,
        None => {
            errors.push(ParseError::WidthNotInteger);
            return Err(errors);
        },
    };
    if width <= 0 {
        errors.push(ParseError::WidthNotPositive);
        return Err(errors);
    }
    let mut quantity: i32 = -1;
    let nc: Vec<char> = chars_of(n);
    if nc.len() > 0 {
        match number(&nc) {
            Some(v) => {
                if v < 0 {
                    errors.push(ParseError::QuantityNegative);
                    return Err(errors);
                }
                quantity = v;
            },
            None => {
                errors.push(ParseError::QuantityNotInteger);
            },
        }
    }
    let mut types: i32 = -1;
    let kc: Vec<char> = chars_of(k);
    if kc.len() > 0 {
        match number(&kc) {
            Some(v) => {
                if v < 0 {
                    errors.push(ParseError::TypesNegative);
                    return Err(errors);
                }
                types = v;
            },
            None => {
                errors.push(ParseError::TypesNotInteger);
            },
        }
    }
    if errors.len() > 0 {
        return Err(errors);
    }
    Ok((width, quantity, types))
}

fn check_targets(
    found: Vec<ParseError>,
    count: usize,
    total: i32,
    n: i32,
    k: i32,
    autofill: bool,
) -> (out: Vec<ParseError>)
    requires
        count <= i32::MAX,
        0 <= total,
        -1 <= n,
        -1 <= k,
    ensures
        out@ == spec_faults(found@, count as int, total as int, n as int, k as int, autofill),
{
    let mut errors: Vec<ParseError> = found;
    if !autofill {
        if n != -1 && n != total {
            errors.push(ParseError::QuantityMismatch { found: total, expected: n });
        }
        if k != -1 && k as usize != count {
            errors.push(ParseError::TypesMismatch { found: count, expected: k });
        }
    } else {
        if k != -1 && count > k as usize {
            errors.push(ParseError::TooManyTypes { found: count, expected: k });
        }
        let missing: i64 = n as i64 - total as i64;
        let slots: i64 = k as i64 - count as i64;
        if n != -1 && k != -1 && missing >= 0 && slots > missing {
            errors.push(
                ParseError::TypesExceedCopies { copies: missing as i32, types: slots as i32 },
            );
        }
        if n != -1 && missing < 0 {
            errors.push(ParseError::TooManyRectangles { found: total, expected: n });
        }
        if n != -1 && missing > 0 && count == 0 && k <= 0 {
            errors.push(ParseError::NoTypeForCopies { copies: missing as i32 });
        }
    }
    errors
}

/// Reads a request from the three form fields and the rectangle text.
///
/// The result is the request where no fault was found, and else every fault,
/// in the order of the text and with those of the targets last.
pub fn parse_request(w: &str, n: &str, k: &str, autofill: bool, text: &str) -> (out: Result<
    ParseOutput,
    Vec<ParseError>,
>)
    ensures
        match out {
            Ok(r) => spec_parse(w@, n@, k@, autofill, text@) == Ok::<Request, Seq<ParseError>>(r@)
                && r@.wf(),
            Err(e) => spec_parse(w@, n@, k@, autofill, text@) == Err::<Request, Seq<ParseError>>(
                e@,
            ) && e@.len() > 0,
        },
{
    let (width, quantity, types) = match read_targets(w, n, k) {
        Ok(v) => v,
        Err(e) => {
            return Err(e);
        },
    };
    let all: Vec<Vec<char>> = lines(&chars_of(text));
    let mut p = Progress {
        rects: Vec::new(),
        errors: Vec::new(),
        total: 0,
        min_height: i32::MAX,
        max_height: i32::MIN,
    };
    let mut i: usize = 0;
    while i < all.len()
        invariant
            i <= all@.len(),
            p@ == spec_read_lines(spec_texts(all@).take(i as int), width as int),
            p@.wf(width as int),
        decreases all@.len() - i,
    {
        proof {
            assert(spec_texts(all@).take(i + 1).drop_last() == spec_texts(all@).take(i as int));
            assert(spec_texts(all@).take(i + 1).last() == all@[i as int]@);
        }
        p = read_line(p, i + 1, &all[i], width);
        i += 1;
    }
    proof {
        assert(spec_texts(all@).take(i as int) == spec_texts(all@));
        lemma_total_bounds(p@.rects);
        lemma_parse_wf(w@, n@, k@, autofill, text@);
    }
    let count: usize = p.rects.len();
    let faults: Vec<ParseError> = check_targets(p.errors, count, p.total, quantity, types, autofill);
    if faults.len() > 0 {
        Err(faults)
    } else {
        Ok(
            ParseOutput {
                width,
                quantity,
                types,
                autofill,
                rects: p.rects,
                input_types: count as i32,
                min_height: p.min_height,
                max_height: p.max_height,
            },
        )
    }
}

impl ParseOutput {
    /// Whether the request is well-formed, as [`Request::wf`] says.
    pub fn is_valid(&self) -> (ok: bool)
        ensures
            ok == self@.wf(),
    {
        if self.width <= 0 || self.quantity < -1 || self.types < -1 {
            return false;
        }
        if self.input_types < 0 || self.input_types as usize != self.rects.len() {
            return false;
        }
        let mut i: usize = 0;
        while i < self.rects.len()
            invariant
                i <= self.rects@.len(),
                forall|j: int|
                    0 <= j < i ==> {
                        let r = #[trigger] self.rects@[j];
                        &&& 1 <= r.width <= self.width
                        &&& 1 <= r.height
                        &&& self.min_height <= r.height <= self.max_height
                        &&& 1 <= r.quantity
                    },
            decreases self.rects@.len() - i,
        {
            let r: Rectangle = self.rects[i];
            if r.width < 1 || r.width > self.width || r.height < 1 || r.height < self.min_height
                || r.height > self.max_height || r.quantity < 1 {
                return false;
            }
            i += 1;
        }
        if !all_distinct(&self.rects) {
            return false;
        }
        total_of(&self.rects).is_some()
    }
}

} // verus!
