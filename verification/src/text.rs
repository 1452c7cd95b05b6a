//! Reading text: lines, the words on a line, and decimal numbers.

use vstd::prelude::*;

verus! {

/// Whether `c` is white space: the characters that Unicode gives the
/// property `White_Space`.
pub open spec fn is_space(c: char) -> bool {
    let u = c as u32;
    ||| 0x09 <= u <= 0x0D
    ||| u == 0x20
    ||| u == 0x85
    ||| u == 0xA0
    ||| u == 0x1680
    ||| 0x2000 <= u <= 0x200A
    ||| u == 0x2028
    ||| u == 0x2029
    ||| u == 0x202F
    ||| u == 0x205F
    ||| u == 0x3000
}

/// Executable form of [`is_space`].
pub fn space(c: char) -> (yes: bool)
    ensures
        yes == is_space(c),
{
    let u: u32 = c as u32;
    (0x09 <= u && u <= 0x0D) || u == 0x20 || u == 0x85 || u == 0xA0 || u == 0x1680 || (0x2000 <= u
        && u <= 0x200A) || u == 0x2028 || u == 0x2029 || u == 0x202F || u == 0x205F || u == 0x3000
}

/// The characters of a string, in order.
pub fn chars_of(s: &str) -> (v: Vec<char>)
    ensures
        v@ == s@,
{
    broadcast use vstd::string::axiom_spec_iter;

    let mut v: Vec<char> = Vec::new();
    for c in it: s.chars()
        invariant
            it.seq() == s@,
            v@ == s@.take(it.index() as int),
    {
        v.push(c);
    }
    assert(v@ == s@.take(s@.len() as int));
    v
}

/// The view of a list of words or lines: each one as its characters.
pub open spec fn spec_texts(v: Seq<Vec<char>>) -> Seq<Seq<char>> {
    v.map_values(|t: Vec<char>| t@)
}

/// A text read up to its end: the lines that a line feed has closed, and the
/// characters of the line that is still open.
pub open spec fn spec_scan_lines(s: Seq<char>) -> (Seq<Seq<char>>, Seq<char>)
    decreases s.len(),
{
    if s.len() == 0 {
        (Seq::empty(), Seq::empty())
    } else {
        let (closed, open) = spec_scan_lines(s.drop_last());
        if s.last() == '\n' {
            (closed.push(open), Seq::empty())
        } else {
            (closed, open.push(s.last()))
        }
    }
}

/// The lines of a text: what stands between its line feeds, so one line
/// more than there are line feeds.
pub open spec fn spec_lines(s: Seq<char>) -> Seq<Seq<char>> {
    let (closed, open) = spec_scan_lines(s);
    closed.push(open)
}

/// A line read up to its end: the words that white space has closed, and the
/// characters of the word that is still open.
pub open spec fn spec_scan_words(s: Seq<char>) -> (Seq<Seq<char>>, Seq<char>)
    decreases s.len(),
{
    if s.len() == 0 {
        (Seq::empty(), Seq::empty())
    } else {
        let (closed, open) = spec_scan_words(s.drop_last());
        if !is_space(s.last()) {
            (closed, open.push(s.last()))
        } else if open.len() > 0 {
            (closed.push(open), Seq::empty())
        } else {
            (closed, open)
        }
    }
}

/// The words of a line: its longest runs of characters that are not white
/// space.
pub open spec fn spec_words(s: Seq<char>) -> Seq<Seq<char>> {
    let (closed, open) = spec_scan_words(s);
    if open.len() > 0 {
        closed.push(open)
    } else {
        closed
    }
}

/// Executable form of [`spec_lines`].
pub fn lines(text: &Vec<char>) -> (out: Vec<Vec<char>>)
    ensures
        spec_texts(out@) == spec_lines(text@),
{
    let mut closed: Vec<Vec<char>> = Vec::new();
    let mut open: Vec<char> = Vec::new();
    let mut i: usize = 0;
    while i < text.len()
        invariant
            i <= text@.len(),
            (spec_texts(closed@), open@) == spec_scan_lines(text@.take(i as int)),
        decreases text@.len() - i,
    {
        let c: char = text[i];
        proof {
            assert(text@.take(i + 1).drop_last() == text@.take(i as int));
        }
        if c == '\n' {
            proof {
                assert(spec_texts(closed@.push(open)) == spec_texts(closed@).push(open@));
            }
            closed.push(open);
            open = Vec::new();
        } else {
            open.push(c);
        }
        i += 1;
    }
    proof {
        assert(text@.take(i as int) == text@);
        assert(spec_texts(closed@.push(open)) == spec_texts(closed@).push(open@));
    }
    closed.push(open);
    closed
}

/// Executable form of [`spec_words`].
pub fn words(line: &Vec<char>) -> (out: Vec<Vec<char>>)
    ensures
        spec_texts(out@) == spec_words(line@),
{
    let mut closed: Vec<Vec<char>> = Vec::new();
    let mut open: Vec<char> = Vec::new();
    let mut i: usize = 0;
    while i < line.len()
        invariant
            i <= line@.len(),
            (spec_texts(closed@), open@) == spec_scan_words(line@.take(i as int)),
        decreases line@.len() - i,
    {
        let c: char = line[i];
        proof {
            assert(line@.take(i + 1).drop_last() == line@.take(i as int));
        }
        if !space(c) {
            open.push(c);
        } else if open.len() > 0 {
            proof {
                assert(spec_texts(closed@.push(open)) == spec_texts(closed@).push(open@));
            }
            closed.push(open);
            open = Vec::new();
        }
        i += 1;
    }
    proof {
        assert(line@.take(i as int) == line@);
        assert(spec_texts(closed@.push(open)) == spec_texts(closed@).push(open@));
    }
    if open.len() > 0 {
        closed.push(open);
    }
    closed
}

/// Whether `c` is one of the digits `0` to `9`.
pub open spec fn is_digit(c: char) -> bool {
    '0' <= c <= '9'
}

/// The number that a run of digits denotes; none for the empty run and for
/// one that holds anything but digits.
pub open spec fn spec_digits(s: Seq<char>) -> Option<int>
    decreases s.len(),
{
    if s.len() == 0 || !is_digit(s.last()) {
        None
    } else if s.len() == 1 {
        Some(s.last() as u32 - '0' as u32)
    } else {
        match spec_digits(s.drop_last()) {
            Some(v) => Some(v * 10 + (s.last() as u32 - '0' as u32)),
            None => None,
        }
    }
}

/// The number that a word denotes: digits, after one sign `+` or `-` or
/// none, that give a value which fits in 32 bits.
pub open spec fn spec_number(s: Seq<char>) -> Option<i32> {
    let signed = s.len() > 0 && (s[0] == '-' || s[0] == '+');
    let digits = if signed {
        s.drop_first()
    } else {
        s
    };
    match spec_digits(digits) {
        Some(v) => {
            let n = if signed && s[0] == '-' {
                -v
            } else {
                v
            };
            if i32::MIN <= n <= i32::MAX {
                Some(n as i32)
            } else {
                None
            }
        },
        None => None,
    }
}

/// A run of digits denotes no less than any of its beginnings.
pub proof fn lemma_digits_grow(s: Seq<char>, k: int)
    requires
        1 <= k <= s.len(),
        spec_digits(s) is Some,
    ensures
        spec_digits(s.take(k)) matches Some(u) && 0 <= u <= spec_digits(s)->0,
    decreases s.len(),
{
    if k == s.len() {
        assert(s.take(k) == s);
        lemma_digits_nonnegative(s);
    } else {
        assert(s.drop_last().take(k) == s.take(k));
        lemma_digits_grow(s.drop_last(), k);
    }
}

/// A run of digits denotes no negative number.
pub proof fn lemma_digits_nonnegative(s: Seq<char>)
    ensures
        spec_digits(s) matches Some(v) ==> v >= 0,
    decreases s.len(),
{
    if s.len() > 1 {
        lemma_digits_nonnegative(s.drop_last());
    }
}

/// Where a beginning of a run holds something other than digits, the run
/// denotes nothing.
pub proof fn lemma_digits_fail(s: Seq<char>, k: int)
    requires
        1 <= k <= s.len(),
        spec_digits(s.take(k)) is None,
    ensures
        spec_digits(s) is None,
    decreases s.len(),
{
    if k == s.len() {
        assert(s.take(k) == s);
    } else {
        assert(s.drop_last().take(k) == s.take(k));
        lemma_digits_fail(s.drop_last(), k);
    }
}

/// Executable form of [`spec_number`].
pub fn number(word: &Vec<char>) -> (out: Option<i32>)
    ensures
        out == spec_number(word@),
{
    let n: usize = word.len();
    if n == 0 {
        return None;
    }
    let negative: bool = word[0] == '-';
    let start: usize = if word[0] == '-' || word[0] == '+' {
        1
    } else {
        0
    };
    let ghost digits: Seq<char> = if start == 1 {
        word@.drop_first()
    } else {
        word@
    };
    proof {
        assert(word@.skip(0) == word@);
    }
    if start == n {
        return None;
    }
    let mut acc: i64 = 0;
    let mut i: usize = start;
    while i < n
        invariant
            start <= i <= n,
            n == word@.len(),
            n > 0,
            digits == if word@[0] == '-' || word@[0] == '+' {
                word@.drop_first()
            } else {
                word@
            },
            digits == word@.skip(start as int),
            negative == (word@[0] == '-'),
            0 <= acc <= 0x8000_0000,
            i > start ==> spec_digits(digits.take(i - start)) == Some(acc as int),
            i == start ==> acc == 0,
        decreases n - i,
    {
        let c: char = word[i];
        proof {
            assert(digits.take(i + 1 - start).drop_last() == digits.take(i - start));
            assert(digits.take(i + 1 - start).last() == c);
        }
        if !('0' <= c && c <= '9') {
            proof {
                lemma_digits_fail(digits, i + 1 - start);
            }
            return None;
        }
        let d: i64 = (c as u32 - '0' as u32) as i64;
        acc = acc * 10 + d;
        if acc > 0x8000_0000 {
            proof {
                if spec_digits(digits) is Some {
                    lemma_digits_grow(digits, i + 1 - start);
                }
            }
            return None;
        }
        i += 1;
    }
    proof {
        assert(digits.take(n - start) == digits);
    }
    if negative {
        Some((-acc) as i32)
    } else if acc > 0x7FFF_FFFF {
        None
    } else {
        Some(acc as i32)
    }
}

/// Where the cursor stands in a text: the number of its line, counted from
/// one and no more than there are lines, and the number of lines.
pub fn line_position(text: &str, cursor_line: usize) -> (at: (usize, usize))
    ensures
        at.1 == spec_lines(text@).len(),
        at.0 == if cursor_line < at.1 {
            cursor_line + 1
        } else {
            at.1 as int
        },
{
    let all: Vec<Vec<char>> = lines(&chars_of(text));
    let total: usize = all.len();
    assert(spec_texts(all@).len() == all@.len());
    assert(spec_lines(text@).len() >= 1);
    if cursor_line < total {
        (cursor_line + 1, total)
    } else {
        (total, total)
    }
}

} // verus!
