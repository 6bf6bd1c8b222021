//! Formatting a range and reading the text back yields the range.

use vstd::prelude::*;
use crate::bytes::decimal;
use crate::parse::{
    ByteClass, in_class, lemma_run_end_step, parse_cell, parse_column, parse_formula,
    parse_quoted, parse_ref, parse_row, parse_sheet, run_end, token_value,
};
use crate::reference::{
    categories_formula, cell_abs, column_name, doubled_quotes, is_plain_byte, needs_quotes,
    sheet_text, values_formula, Range, BANG, COLON, EQUALS, MAX_COLS, MAX_ROWS, OPEN_PAREN,
    QUOTE,
};

verus! {

/// The letters of a column are upper case, and read in base 26 they give
/// the column's number counted from one.
pub proof fn lemma_column_name(col: nat)
    ensures
        column_name(col).len() >= 1,
        forall|k: int|
            0 <= k < column_name(col).len() ==> 65 <= #[trigger] column_name(col)[k] <= 90,
        token_value(column_name(col), 26, 64) == col + 1,
    decreases col,
{
    if col < 26 {
        assert(column_name(col).drop_last() == Seq::<u8>::empty());
        assert(token_value(column_name(col).drop_last(), 26, 64) == 0);
    } else {
        let head = (col / 26 - 1) as nat;
        lemma_column_name(head);
        assert(column_name(col).drop_last() == column_name(head));
    }
}

/// A decimal numeral holds digits only, has no leading zero unless it is
/// `0`, and read in base 10 it gives the number.
pub proof fn lemma_decimal(n: nat)
    ensures
        decimal(n).len() >= 1,
        forall|k: int| 0 <= k < decimal(n).len() ==> 48 <= #[trigger] decimal(n)[k] <= 57,
        token_value(decimal(n), 10, 48) == n,
        n >= 1 ==> decimal(n)[0] != 48,
    decreases n,
{
    if n < 10 {
        assert(decimal(n).drop_last() == Seq::<u8>::empty());
        assert(token_value(decimal(n).drop_last(), 10, 48) == 0);
    } else {
        lemma_decimal(n / 10);
        assert(decimal(n).drop_last() == decimal(n / 10));
    }
}

/// A token of one class that is followed by the end of the text, or by a
/// byte of another class, is a whole run.
pub proof fn lemma_run_over(s: Seq<u8>, i: int, t: Seq<u8>, class: ByteClass)
    requires
        0 <= i,
        i + t.len() <= s.len(),
        s.subrange(i, i + t.len()) == t,
        forall|k: int| 0 <= k < t.len() ==> in_class(class, #[trigger] t[k]),
        i + t.len() < s.len() ==> !in_class(class, s[i + t.len()]),
    ensures
        run_end(s, i, class) == i + t.len(),
{
    assert forall|m: int| i <= m < i + t.len() implies in_class(class, #[trigger] s[m]) by {
        assert(s[m] == t[m - i]);
    }
    lemma_run_end_step(s, i, i + t.len(), class);
}

/// The text of an absolute cell, followed by anything but a digit, reads
/// back as that cell.
#[verifier::rlimit(50)]
pub proof fn lemma_parse_cell(s: Seq<u8>, i: int, row: nat, col: nat)
    requires
        row < MAX_ROWS,
        col < MAX_COLS,
        0 <= i,
        i + cell_abs(row, col).len() <= s.len(),
        s.subrange(i, i + cell_abs(row, col).len()) == cell_abs(row, col),
        i + cell_abs(row, col).len() < s.len() ==> !in_class(
            ByteClass::Digit,
            s[i + cell_abs(row, col).len()],
        ),
    ensures
        parse_cell(s, i) == Some((row, col, i + cell_abs(row, col).len())),
{
    let text = cell_abs(row, col);
    let letters = column_name(col);
    let digits = decimal(row + 1);
    lemma_column_name(col);
    lemma_decimal(row + 1);
    let j = i + 1 + letters.len();
    let end = j + 1 + digits.len();
    assert(text.len() == end - i);
    assert forall|k: int| 0 <= k < text.len() implies s[i + k] == text[k] by {
        assert(s.subrange(i, i + text.len())[k] == s[i + k]);
    }
    assert(s[i] == text[0]);
    assert(s[j] == text[j - i]);
    assert(s.subrange(i + 1, j) =~= letters) by {
        assert forall|k: int| 0 <= k < letters.len() implies s[i + 1 + k] == letters[k] by {
            assert(text[1 + k] == letters[k]);
        }
    }
    lemma_run_over(s, i + 1, letters, ByteClass::Upper);
    assert(parse_column(s, i + 1) == Some((col, j)));
    assert(s.subrange(j + 1, end) =~= digits) by {
        assert forall|k: int| 0 <= k < digits.len() implies s[j + 1 + k] == digits[k] by {
            assert(text[j + 1 - i + k] == digits[k]);
        }
    }
    lemma_run_over(s, j + 1, digits, ByteClass::Digit);
    assert(s[j + 1] == digits[0]) by {
        assert(s.subrange(j + 1, end)[0] == s[j + 1]);
    }
    assert(parse_row(s, j + 1) == Some((row, end)));
}

/// The doubled text of a name, followed by one closing quote, reads back as
/// the name.
#[verifier::rlimit(50)]
pub proof fn lemma_parse_quoted(s: Seq<u8>, p: int, name: Seq<u8>, acc: Seq<u8>)
    requires
        0 <= p,
        p + doubled_quotes(name).len() + 1 < s.len(),
        s.subrange(p, p + doubled_quotes(name).len()) == doubled_quotes(name),
        s[p + doubled_quotes(name).len()] == QUOTE,
        s[p + doubled_quotes(name).len() + 1] != QUOTE,
    ensures
        parse_quoted(s, p, acc) == Some((acc + name, p + doubled_quotes(name).len() + 1)),
    decreases name.len(),
{
    let text = doubled_quotes(name);
    if name.len() == 0 {
        assert(acc + name == acc);
    } else {
        let rest = name.drop_first();
        let tail = doubled_quotes(rest);
        assert forall|k: int| 0 <= k < text.len() implies s[p + k] == text[k] by {
            assert(s.subrange(p, p + text.len())[k] == s[p + k]);
        }
        if name[0] == QUOTE {
            assert(text == seq![QUOTE, QUOTE] + tail);
            assert(s[p] == text[0]);
            assert(s[p + 1] == text[1]);
            assert(s.subrange(p + 2, p + 2 + tail.len()) =~= tail) by {
                assert forall|k: int| 0 <= k < tail.len() implies s[p + 2 + k] == tail[k] by {
                    assert(text[2 + k] == tail[k]);
                }
            }
            lemma_parse_quoted(s, p + 2, rest, acc.push(QUOTE));
            assert(acc.push(QUOTE) + rest == acc + name);
        } else {
            assert(text == seq![name[0]] + tail);
            assert(s[p] == text[0]);
            assert(s.subrange(p + 1, p + 1 + tail.len()) =~= tail) by {
                assert forall|k: int| 0 <= k < tail.len() implies s[p + 1 + k] == tail[k] by {
                    assert(text[1 + k] == tail[k]);
                }
            }
            lemma_parse_quoted(s, p + 1, rest, acc.push(name[0]));
            assert(acc.push(name[0]) + rest == acc + name);
        }
    }
}

/// The text of a sheet name, followed by `!`, reads back as the name.
#[verifier::rlimit(50)]
pub proof fn lemma_parse_sheet(s: Seq<u8>, i: int, name: Seq<u8>)
    requires
        0 <= i,
        i + sheet_text(name).len() < s.len(),
        s.subrange(i, i + sheet_text(name).len()) == sheet_text(name),
        s[i + sheet_text(name).len()] == BANG,
    ensures
        sheet_text(name).len() >= 1,
        parse_sheet(s, i) == Some((name, i + sheet_text(name).len())),
        s[i] != OPEN_PAREN,
{
    let text = sheet_text(name);
    assert forall|k: int| 0 <= k < text.len() implies s[i + k] == text[k] by {
        assert(s.subrange(i, i + text.len())[k] == s[i + k]);
    }
    if needs_quotes(name) {
        let inner = doubled_quotes(name);
        assert(text.len() == inner.len() + 2);
        assert(s[i] == text[0]);
        assert(s[i + 1 + inner.len()] == text[1 + inner.len() as int]);
        assert(s.subrange(i + 1, i + 1 + inner.len()) =~= inner) by {
            assert forall|k: int| 0 <= k < inner.len() implies s[i + 1 + k] == inner[k] by {
                assert(text[1 + k] == inner[k]);
            }
        }
        lemma_parse_quoted(s, i + 1, name, Seq::empty());
        assert(Seq::<u8>::empty() + name == name);
    } else {
        assert(is_plain_byte(name[0]));
        assert(s[i] == text[0]);
        lemma_run_over(s, i, name, ByteClass::Plain);
    }
}

/// Round trip of a values formula: for every range on the sheet, the
/// formula written for it reads back as exactly that range.
#[verifier::rlimit(50)]
pub proof fn lemma_values_round_trip(r: Range)
    requires
        r.in_bounds(),
    ensures
        parse_formula(values_formula(r)) == Some(seq![r]),
{
    let s = values_formula(r);
    let name = sheet_text(r.sheet);
    let first = cell_abs(r.first_row, r.first_col);
    let last = cell_abs(r.last_row, r.last_col);
    lemma_column_name(r.first_col);
    lemma_decimal(r.first_row + 1);
    lemma_column_name(r.last_col);
    lemma_decimal(r.last_row + 1);
    let j: int = 1 + name.len() as int;
    let k: int = j + 1 + first.len() as int;
    let m: int = k + 1 + last.len() as int;
    assert(s =~= seq![EQUALS] + name + seq![BANG] + first + seq![COLON] + last);
    assert(s.len() == m);
    assert(s.subrange(1, j) =~= name);
    assert(s[j] == BANG);
    lemma_parse_sheet(s, 1, r.sheet);
    assert(s.subrange(j + 1, k) =~= first);
    assert(s[k] == COLON);
    lemma_parse_cell(s, j + 1, r.first_row, r.first_col);
    assert(s.subrange(k + 1, m) =~= last);
    lemma_parse_cell(s, k + 1, r.last_row, r.last_col);
    assert(parse_ref(s, 1) == Some((r, m)));
}

/// Round trip of a categories formula: for every range on the sheet, the
/// formula written for it reads back as exactly that range, in the one-cell
/// form as in the two-corner form.
#[verifier::rlimit(50)]
pub proof fn lemma_categories_round_trip(r: Range)
    requires
        r.in_bounds(),
    ensures
        parse_formula(categories_formula(r)) == Some(seq![r]),
{
    if r.is_single_cell() {
        let s = categories_formula(r);
        let name = sheet_text(r.sheet);
        let first = cell_abs(r.first_row, r.first_col);
        lemma_column_name(r.first_col);
        lemma_decimal(r.first_row + 1);
        let j: int = 1 + name.len() as int;
        let k: int = j + 1 + first.len() as int;
        assert(s =~= seq![EQUALS] + name + seq![BANG] + first);
        assert(s.len() == k);
        assert(s.subrange(1, j) =~= name);
        assert(s[j] == BANG);
        lemma_parse_sheet(s, 1, r.sheet);
        assert(s.subrange(j + 1, k) =~= first);
        lemma_parse_cell(s, j + 1, r.first_row, r.first_col);
        assert(parse_ref(s, 1) == Some((r, k)));
    } else {
        lemma_values_round_trip(r);
    }
}

} // verus!
