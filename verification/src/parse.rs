//! Reading formula text back into ranges.
//!
//! The grammar is that of a series reference: `=` followed by one reference,
//! or by a parenthesized, comma-separated list of references. A reference is
//! a sheet name, `!`, an absolute cell and, optionally, `:` and a second
//! absolute cell.

use vstd::prelude::*;
use crate::reference::{
    Range, RangeRef, BANG, CLOSE_PAREN, COLON, COMMA, DOLLAR, EQUALS, MAX_COLS, MAX_ROWS,
    OPEN_PAREN, QUOTE, is_plain_byte,
};

verus! {

/// The kinds of byte that make up the tokens of a reference.
#[derive(Clone, Copy, Debug, PartialEq, Eq, Structural)]
pub enum ByteClass {
    /// `A` to `Z`.
    Upper,
    /// `0` to `9`.
    Digit,
    /// What a sheet name may hold without quotes.
    Plain,
}

/// Whether `b` belongs to `class`.
pub open spec fn in_class(class: ByteClass, b: u8) -> bool {
    match class {
        ByteClass::Upper => 65 <= b <= 90,
        ByteClass::Digit => 48 <= b <= 57,
        ByteClass::Plain => is_plain_byte(b),
    }
}

/// The end of the longest run of bytes of `class` that starts at `i`.
pub open spec fn run_end(s: Seq<u8>, i: int, class: ByteClass) -> int
    decreases s.len() - i,
{
    if 0 <= i < s.len() && in_class(class, s[i]) {
        run_end(s, i + 1, class)
    } else {
        i
    }
}

/// The number that `t` writes in base `base`, the digit of a byte being its
/// distance from `zero`.
pub open spec fn token_value(t: Seq<u8>, base: nat, zero: nat) -> nat
    decreases t.len(),
{
    if t.len() == 0 {
        0
    } else {
        token_value(t.drop_last(), base, zero) * base + (t.last() - zero) as nat
    }
}

/// The zero-based column written in letters at `i`, and where it ends.
pub open spec fn parse_column(s: Seq<u8>, i: int) -> Option<(nat, int)> {
    let j = run_end(s, i, ByteClass::Upper);
    let v = token_value(s.subrange(i, j), 26, 64);
    if j > i && v <= MAX_COLS {
        Some(((v - 1) as nat, j))
    } else {
        None
    }
}

/// The zero-based row written in digits at `i`, without a leading zero, and
/// where it ends.
pub open spec fn parse_row(s: Seq<u8>, i: int) -> Option<(nat, int)> {
    let j = run_end(s, i, ByteClass::Digit);
    let v = token_value(s.subrange(i, j), 10, 48);
    if j > i && s[i] != 48 && v <= MAX_ROWS {
        Some(((v - 1) as nat, j))
    } else {
        None
    }
}

/// The absolute cell `$A$1` at `i`: its row, its column, and where it ends.
pub open spec fn parse_cell(s: Seq<u8>, i: int) -> Option<(nat, nat, int)> {
    if !(0 <= i < s.len() && s[i] == DOLLAR) {
        None
    } else {
        match parse_column(s, i + 1) {
            None => None,
            Some((col, j)) => if !(j < s.len() && s[j] == DOLLAR) {
                None
            } else {
                match parse_row(s, j + 1) {
                    None => None,
                    Some((row, k)) => Some((row, col, k)),
                }
            },
        }
    }
}

/// The rest of a quoted sheet name from `i` on, after `acc` was read: up to
/// the closing quote, a doubled quote standing for one.
pub open spec fn parse_quoted(s: Seq<u8>, i: int, acc: Seq<u8>) -> Option<(Seq<u8>, int)>
    decreases s.len() - i,
{
    if i < 0 || i >= s.len() {
        None
    } else if s[i] != QUOTE {
        parse_quoted(s, i + 1, acc.push(s[i]))
    } else if i + 1 < s.len() && s[i + 1] == QUOTE {
        parse_quoted(s, i + 2, acc.push(QUOTE))
    } else {
        Some((acc, i + 1))
    }
}

/// The sheet name at `i`, quoted or plain, and where it ends.
pub open spec fn parse_sheet(s: Seq<u8>, i: int) -> Option<(Seq<u8>, int)> {
    if 0 <= i < s.len() && s[i] == QUOTE {
        parse_quoted(s, i + 1, Seq::empty())
    } else {
        let j = run_end(s, i, ByteClass::Plain);
        if j > i {
            Some((s.subrange(i, j), j))
        } else {
            None
        }
    }
}

/// The reference at `i` and where it ends. A reference of one cell is the
/// range whose two corners are that cell.
pub open spec fn parse_ref(s: Seq<u8>, i: int) -> Option<(Range, int)> {
    match parse_sheet(s, i) {
        None => None,
        Some((sheet, j)) => if !(0 <= j < s.len() && s[j] == BANG) {
            None
        } else {
            match parse_cell(s, j + 1) {
                None => None,
                Some((r1, c1, k)) => if 0 <= k < s.len() && s[k] == COLON {
                    match parse_cell(s, k + 1) {
                        None => None,
                        Some((r2, c2, m)) => Some(
                            (
                                Range {
                                    sheet,
                                    first_row: r1,
                                    first_col: c1,
                                    last_row: r2,
                                    last_col: c2,
                                },
                                m,
                            ),
                        ),
                    }
                } else {
                    Some(
                        (
                            Range {
                                sheet,
                                first_row: r1,
                                first_col: c1,
                                last_row: r1,
                                last_col: c1,
                            },
                            k,
                        ),
                    )
                },
            }
        },
    }
}

/// The references of a parenthesized list from `i` on, after `acc` was read,
/// up to the closing parenthesis that ends the text.
pub open spec fn parse_union(s: Seq<u8>, i: int, acc: Seq<Range>) -> Option<Seq<Range>>
    decreases s.len() - i,
{
    match parse_ref(s, i) {
        None => None,
        Some((r, j)) => if i <= j < s.len() && s[j] == COMMA {
            parse_union(s, j + 1, acc.push(r))
        } else if j + 1 == s.len() && s[j] == CLOSE_PAREN {
            Some(acc.push(r))
        } else {
            None
        },
    }
}

/// The ranges that a formula names, in the order written, or `None` where
/// the text is no formula of this grammar.
pub open spec fn parse_formula(s: Seq<u8>) -> Option<Seq<Range>> {
    if s.len() < 1 || s[0] != EQUALS {
        None
    } else if s.len() >= 2 && s[1] == OPEN_PAREN {
        parse_union(s, 2, Seq::empty())
    } else {
        match parse_ref(s, 1) {
            None => None,
            Some((r, j)) => if j == s.len() {
                Some(seq![r])
            } else {
                None
            },
        }
    }
}

/// The views of a list of ranges.
pub open spec fn range_views(v: Seq<RangeRef>) -> Seq<Range> {
    v.map_values(|r: RangeRef| r@)
}

/// A run that starts inside another ends where that one ends.
pub proof fn lemma_run_end_step(s: Seq<u8>, i: int, k: int, class: ByteClass)
    requires
        0 <= i <= k <= s.len(),
        forall|m: int| i <= m < k ==> in_class(class, #[trigger] s[m]),
    ensures
        run_end(s, i, class) == run_end(s, k, class),
    decreases k - i,
{
    if i < k {
        lemma_run_end_step(s, i + 1, k, class);
    }
}

/// A longer token of valid digits writes no smaller number than its prefix.
pub proof fn lemma_token_value_grows(t: Seq<u8>, n: int, base: nat, zero: nat)
    requires
        0 <= n <= t.len(),
        base >= 1,
        forall|k: int| 0 <= k < t.len() ==> zero <= #[trigger] t[k],
    ensures
        token_value(t.subrange(0, n), base, zero) <= token_value(t, base, zero),
    decreases t.len() - n,
{
    if n == t.len() {
        assert(t.subrange(0, n) == t);
    } else {
        lemma_token_value_grows(t, n + 1, base, zero);
        let u = t.subrange(0, n + 1);
        assert(u.drop_last() == t.subrange(0, n));
        let a = token_value(t.subrange(0, n), base, zero);
        assert(a * base >= a) by (nonlinear_arith)
            requires
                base >= 1,
                a >= 0,
        ;
    }
}

/// A token whose first digit is not zero writes a number that is not zero.
pub proof fn lemma_token_value_first(t: Seq<u8>, n: int, base: nat, zero: nat)
    requires
        0 <= n <= t.len(),
        base >= 1,
        forall|k: int| 0 <= k < t.len() ==> zero <= #[trigger] t[k],
        n >= 1 ==> token_value(t.subrange(0, 1), base, zero) >= 1,
    ensures
        n >= 1 ==> token_value(t.subrange(0, n), base, zero) >= 1,
    decreases n,
{
    if n >= 2 {
        lemma_token_value_first(t, n - 1, base, zero);
        let u = t.subrange(0, n);
        assert(u.drop_last() == t.subrange(0, n - 1));
        let a = token_value(t.subrange(0, n - 1), base, zero);
        assert(a * base >= 1) by (nonlinear_arith)
            requires
                base >= 1,
                a >= 1,
        ;
    }
}

/// Whether `b` belongs to `class`.
pub fn class_holds(class: ByteClass, b: u8) -> (r: bool)
    ensures
        r == in_class(class, b),
{
    match class {
        ByteClass::Upper => 65 <= b && b <= 90,
        ByteClass::Digit => 48 <= b && b <= 57,
        ByteClass::Plain => (48 <= b && b <= 57) || (65 <= b && b <= 90) || (97 <= b && b
            <= 122) || b == 95 || b == 46,
    }
}

/// The end of the longest run of bytes of `class` that starts at `i`.
pub fn scan_run(s: &[u8], i: usize, class: ByteClass) -> (j: usize)
    ensures
        j == run_end(s@, i as int, class),
        j >= i,
        i <= s@.len() ==> j <= s@.len(),
        forall|k: int| i <= k < j ==> in_class(class, #[trigger] s@[k]),
{
    let mut j: usize = i;
    while j < s.len() && class_holds(class, s[j])
        invariant
            i <= j,
            i <= s@.len() ==> j <= s@.len(),
            run_end(s@, j as int, class) == run_end(s@, i as int, class),
            forall|k: int| i <= k < j ==> in_class(class, #[trigger] s@[k]),
        decreases s@.len() - j,
    {
        j += 1;
    }
    j
}

/// The number written by the bytes of `s` from `i` to `j`, where it is at
/// most `limit`.
#[verifier::rlimit(50)]
fn read_token(s: &[u8], i: usize, j: usize, base: u32, zero: u8, limit: u32) -> (r: Option<u32>)
    requires
        i < j <= s@.len(),
        1 <= base <= 26,
        limit <= 0x00ff_ffff,
        forall|k: int| i <= k < j ==> zero <= #[trigger] s@[k] <= zero + base,
        zero < s@[i as int],
    ensures
        r is Some <==> token_value(s@.subrange(i as int, j as int), base as nat, zero as nat)
            <= limit,
        r is Some ==> r->0 == token_value(
            s@.subrange(i as int, j as int),
            base as nat,
            zero as nat,
        ),
        r is Some ==> r->0 >= 1,
{
    let ghost t = s@.subrange(i as int, j as int);
    let mut v: u32 = 0;
    let mut k: usize = i;
    proof {
        assert(t.subrange(0, 1).drop_last() == Seq::<u8>::empty());
        assert(token_value(t.subrange(0, 1).drop_last(), base as nat, zero as nat) == 0);
        assert(t.subrange(0, 1).last() == s@[i as int]);
        assert(token_value(t.subrange(0, 1), base as nat, zero as nat) >= 1);
    }
    while k < j
        invariant
            i <= k <= j <= s@.len(),
            1 <= base <= 26,
            limit <= 0x00ff_ffff,
            t == s@.subrange(i as int, j as int),
            forall|m: int| 0 <= m < t.len() ==> zero <= #[trigger] t[m] <= zero + base,
            token_value(t.subrange(0, 1), base as nat, zero as nat) >= 1,
            v == token_value(t.subrange(0, k - i), base as nat, zero as nat),
            v <= limit,
        decreases j - k,
    {
        proof {
            assert(t[k - i] == s@[k as int]);
            assert(t.subrange(0, k - i + 1).drop_last() == t.subrange(0, k - i));
            assert(t.subrange(0, k - i + 1).last() == s@[k as int]);
            assert(v * base <= 0x00ff_ffff * 26) by (nonlinear_arith)
                requires
                    v <= 0x00ff_ffff,
                    base <= 26,
            ;
        }
        let d: u32 = (s[k] - zero) as u32;
        let w: u32 = v * base + d;
        if w > limit {
            proof {
                lemma_token_value_grows(t, k - i + 1, base as nat, zero as nat);
            }
            return None;
        }
        v = w;
        k += 1;
    }
    proof {
        assert(t.subrange(0, k - i) == t);
        lemma_token_value_first(t, t.len() as int, base as nat, zero as nat);
    }
    Some(v)
}

/// The zero-based column written in letters at `i`, and where it ends.
fn read_column(s: &[u8], i: usize) -> (r: Option<(u16, usize)>)
    ensures
        match r {
            Some((col, j)) => parse_column(s@, i as int) == Some((col as nat, j as int)) && i < j
                <= s@.len(),
            None => parse_column(s@, i as int) is None,
        },
{
    let j = scan_run(s, i, ByteClass::Upper);
    if j <= i || i >= s.len() {
        return None;
    }
    match read_token(s, i, j, 26, 64, MAX_COLS) {
        Some(v) => Some(((v - 1) as u16, j)),
        None => None,
    }
}

/// The zero-based row written in digits at `i`, and where it ends.
fn read_row(s: &[u8], i: usize) -> (r: Option<(u32, usize)>)
    ensures
        match r {
            Some((row, j)) => parse_row(s@, i as int) == Some((row as nat, j as int)) && i < j
                <= s@.len(),
            None => parse_row(s@, i as int) is None,
        },
{
    let j = scan_run(s, i, ByteClass::Digit);
    if j <= i || i >= s.len() {
        return None;
    }
    if s[i] == 48 {
        return None;
    }
    match read_token(s, i, j, 10, 48, MAX_ROWS) {
        Some(v) => Some((v - 1, j)),
        None => None,
    }
}

/// The absolute cell at `i`: its row, its column, and where it ends.
fn read_cell(s: &[u8], i: usize) -> (r: Option<(u32, u16, usize)>)
    ensures
        match r {
            Some((row, col, j)) => parse_cell(s@, i as int) == Some(
                (row as nat, col as nat, j as int),
            ) && i < j <= s@.len(),
            None => parse_cell(s@, i as int) is None,
        },
{
    if i >= s.len() || s[i] != DOLLAR {
        return None;
    }
    match read_column(s, i + 1) {
        None => None,
        Some((col, j)) => {
            if j >= s.len() || s[j] != DOLLAR {
                return None;
            }
            match read_row(s, j + 1) {
                None => None,
                Some((row, k)) => Some((row, col, k)),
            }
        },
    }
}

/// The rest of a quoted sheet name from `start` on, and where it ends.
fn read_quoted(s: &[u8], start: usize) -> (r: Option<(Vec<u8>, usize)>)
    ensures
        match r {
            Some((name, j)) => parse_quoted(s@, start as int, Seq::empty()) == Some(
                (name@, j as int),
            ) && start < j <= s@.len(),
            None => parse_quoted(s@, start as int, Seq::empty()) is None,
        },
{
    let mut acc: Vec<u8> = Vec::new();
    let mut i: usize = start;
    while i < s.len()
        invariant
            start <= i,
            parse_quoted(s@, i as int, acc@) == parse_quoted(s@, start as int, Seq::empty()),
        decreases s@.len() - i,
    {
        if s[i] != QUOTE {
            acc.push(s[i]);
            i += 1;
        } else if i + 1 < s.len() && s[i + 1] == QUOTE {
            acc.push(QUOTE);
            i += 2;
        } else {
            return Some((acc, i + 1));
        }
    }
    None
}

/// The sheet name at `i`, quoted or plain, and where it ends.
fn read_sheet(s: &[u8], i: usize) -> (r: Option<(Vec<u8>, usize)>)
    ensures
        match r {
            Some((name, j)) => parse_sheet(s@, i as int) == Some((name@, j as int)) && i < j
                <= s@.len(),
            None => parse_sheet(s@, i as int) is None,
        },
{
    if i < s.len() && s[i] == QUOTE {
        return read_quoted(s, i + 1);
    }
    let j = scan_run(s, i, ByteClass::Plain);
    if j <= i {
        return None;
    }
    proof {
        if i > s@.len() {
            assert(run_end(s@, i as int, ByteClass::Plain) == i);
        }
    }
    let mut name: Vec<u8> = Vec::new();
    let mut k: usize = i;
    while k < j
        invariant
            i <= k <= j <= s@.len(),
            name@ == s@.subrange(i as int, k as int),
        decreases j - k,
    {
        name.push(s[k]);
        assert(s@.subrange(i as int, k + 1) == s@.subrange(i as int, k as int).push(s@[k as int]));
        k += 1;
    }
    Some((name, j))
}

/// The reference at `i` and where it ends.
#[verifier::rlimit(50)]
pub fn read_ref(s: &[u8], i: usize) -> (r: Option<(RangeRef, usize)>)
    ensures
        match r {
            Some((range, j)) => parse_ref(s@, i as int) == Some((range@, j as int)) && i < j
                <= s@.len(),
            None => parse_ref(s@, i as int) is None,
        },
{
    let (sheet, j) = match read_sheet(s, i) {
        None => { return None; },
        Some(found) => found,
    };
    if j >= s.len() || s[j] != BANG {
        return None;
    }
    let (r1, c1, k) = match read_cell(s, j + 1) {
        None => { return None; },
        Some(found) => found,
    };
    if k < s.len() && s[k] == COLON {
        match read_cell(s, k + 1) {
            None => None,
            Some((r2, c2, m)) => Some(
                (
                    RangeRef {
                        sheet,
                        first_row: r1,
                        first_col: c1,
                        last_row: r2,
                        last_col: c2,
                    },
                    m,
                ),
            ),
        }
    } else {
        Some(
            (RangeRef { sheet, first_row: r1, first_col: c1, last_row: r1, last_col: c1 }, k),
        )
    }
}

/// Reads a formula: the ranges that it names, in the order written, or
/// `None` where the text is no formula of this grammar.
#[verifier::rlimit(50)]
pub fn read_formula(s: &[u8]) -> (r: Option<Vec<RangeRef>>)
    ensures
        match r {
            Some(ranges) => parse_formula(s@) == Some(range_views(ranges@)),
            None => parse_formula(s@) is None,
        },
{
    if s.len() < 1 || s[0] != EQUALS {
        return None;
    }
    let mut ranges: Vec<RangeRef> = Vec::new();
    if s.len() >= 2 && s[1] == OPEN_PAREN {
        let mut i: usize = 2;
        assert(range_views(ranges@) == Seq::<Range>::empty());
        loop
            invariant
                i <= s@.len(),
                parse_union(s@, i as int, range_views(ranges@)) == parse_union(
                    s@,
                    2,
                    Seq::empty(),
                ),
                parse_formula(s@) == parse_union(s@, 2, Seq::empty()),
            decreases s@.len() - i,
        {
            let (range, j) = match read_ref(s, i) {
                None => { return None; },
                Some(found) => found,
            };
            let ghost before = range_views(ranges@);
            ranges.push(range);
            assert(range_views(ranges@) == before.push(range@));
            if j < s.len() && s[j] == COMMA {
                i = j + 1;
            } else if j < s.len() && j + 1 == s.len() && s[j] == CLOSE_PAREN {
                return Some(ranges);
            } else {
                return None;
            }
        }
    } else {
        match read_ref(s, 1) {
            None => None,
            Some((range, j)) => {
                if j == s.len() {
                    ranges.push(range);
                    assert(range_views(ranges@) == seq![range@]);
                    Some(ranges)
                } else {
                    None
                }
            },
        }
    }
}

} // verus!
