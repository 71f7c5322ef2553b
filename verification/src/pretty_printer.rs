use vstd::prelude::*;

use std::io::Write;
use unicode_segmentation::UnicodeSegmentation;

use crate::CityWeather;

verus! {

// ---------------------------------------------------------------------------
// Errors
// ---------------------------------------------------------------------------
/// The renderer's only failure mode: the caller handed it a table whose rows
/// differ in length, or column widths too small for a cell that must fit in
/// them.  Both mean the planner and the renderer fell out of step, so the
/// render aborts instead of emitting malformed borders.
#[derive(Clone, Copy, Debug, PartialEq, Eq, Structural)]
pub enum TableError {
    ContractViolation,
}

// ---------------------------------------------------------------------------
// Display-width calculator
// ---------------------------------------------------------------------------
/// The number of extended grapheme clusters in a string, per the Unicode
/// text-segmentation algorithm.  This is the display-width approximation the
/// whole table layout is built on: a multi-codepoint cluster counts as one
/// unit, and no character is weighted wider than one column.
pub uninterp spec fn grapheme_count(s: Seq<char>) -> nat;

/// Relies on unicode_segmentation::UnicodeSegmentation::graphemes (with
/// extended clusters) to count the grapheme clusters of a string.  The
/// clusters depend on the characters alone; they partition the string, and
/// each holds at least one character, so there are at most as many clusters
/// as characters, none for the empty string, and at least one otherwise.
#[verifier::external_body]
fn grapheme_width(s: &str) -> (r: usize)
    ensures
        r == grapheme_count(s@),
        r <= s@.len(),
        s@.len() == 0 ==> r == 0,
        s@.len() > 0 ==> r >= 1,
{
    UnicodeSegmentation::graphemes(s, true).count()
}

/// The narrowest column a cell fits in: its grapheme count plus one padding
/// unit on each side.
pub open spec fn min_record_size(s: Seq<char>) -> nat {
    grapheme_count(s) + 2
}

/// A cell short enough that its minimum column still fits in a `usize`.
pub open spec fn cell_fits(s: Seq<char>) -> bool {
    s.len() + 2 <= usize::MAX
}

pub fn calc_min_record_size(record: &str) -> (r: usize)
    requires
        cell_fits(record@),
    ensures
        r == min_record_size(record@),
        record@.len() > 0 ==> r >= 3,
{
    let w = grapheme_width(record);
    w + 2
}

// ---------------------------------------------------------------------------
// Column-width planner
// ---------------------------------------------------------------------------
pub open spec fn width_max(a: nat, b: nat) -> nat {
    if a >= b {
        a
    } else {
        b
    }
}

/// The width planned for a column: the largest minimum record size among its
/// cells, and zero for a column with no cells.
pub open spec fn column_width_of(column: Seq<String>) -> nat
    decreases column.len(),
{
    if column.len() == 0 {
        0
    } else {
        width_max(column_width_of(column.drop_last()), min_record_size(column.last()@))
    }
}

/// The planned width covers every cell of the column: no cell needs more than
/// the column offers (the planner/renderer consistency invariant).
pub proof fn lemma_column_width_covers(column: Seq<String>, i: int)
    requires
        0 <= i < column.len(),
    ensures
        column_width_of(column) >= min_record_size(column[i]@),
    decreases column.len(),
{
    if i < column.len() - 1 {
        lemma_column_width_covers(column.drop_last(), i);
    }
}

pub fn calc_column_width(column: &Vec<String>) -> (r: usize)
    requires
        forall|i: int| 0 <= i < column@.len() ==> cell_fits((#[trigger] column@[i])@),
    ensures
        r == column_width_of(column@),
        forall|i: int| 0 <= i < column@.len() ==> r >= min_record_size((#[trigger] column@[i])@),
        column@.len() > 0 && (forall|i: int|
            0 <= i < column@.len() ==> (#[trigger] column@[i])@.len() > 0) ==> r >= 3,
{
    let mut biggest: usize = 0;
    let mut i: usize = 0;
    while i < column.len()
        invariant
            i <= column@.len(),
            forall|k: int| 0 <= k < column@.len() ==> cell_fits((#[trigger] column@[k])@),
            biggest == column_width_of(column@.take(i as int)),
            forall|j: int|
                0 <= j < i ==> biggest >= min_record_size((#[trigger] column@[j])@),
            forall|j: int| 0 <= j < i && (#[trigger] column@[j])@.len() > 0 ==> biggest >= 3,
        decreases column@.len() - i,
    {
        let record_width = calc_min_record_size(column[i].as_str());
        if record_width > biggest {
            biggest = record_width;
        }
        proof {
            assert(column@.take(i + 1).drop_last() =~= column@.take(i as int));
            assert(column@.take(i + 1).last() == column@[i as int]);
        }
        i += 1;
    }
    proof {
        assert(column@.take(column@.len() as int) =~= column@);
    }
    biggest
}

/// The number of columns a table occupies: the length of its longest row.
pub open spec fn columns_number_of(records: Seq<Vec<String>>) -> nat
    decreases records.len(),
{
    if records.len() == 0 {
        0
    } else {
        width_max(columns_number_of(records.drop_last()), records.last()@.len())
    }
}

pub fn calc_columns_number(records: &Vec<Vec<String>>) -> (r: usize)
    ensures
        r == columns_number_of(records@),
        forall|i: int| 0 <= i < records@.len() ==> r >= (#[trigger] records@[i])@.len(),
{
    let mut num: usize = 0;
    let mut i: usize = 0;
    while i < records.len()
        invariant
            i <= records@.len(),
            num == columns_number_of(records@.take(i as int)),
            forall|j: int| 0 <= j < i ==> num >= (#[trigger] records@[j])@.len(),
        decreases records@.len() - i,
    {
        let row_len = records[i].len();
        if row_len > num {
            num = row_len;
        }
        proof {
            assert(records@.take(i + 1).drop_last() =~= records@.take(i as int));
            assert(records@.take(i + 1).last() == records@[i as int]);
        }
        i += 1;
    }
    proof {
        assert(records@.take(records@.len() as int) =~= records@);
    }
    num
}

// ---------------------------------------------------------------------------
// Table renderer: line models
// ---------------------------------------------------------------------------
pub open spec fn repeat_char(c: char, n: nat) -> Seq<char> {
    Seq::new(n, |i: int| c)
}

pub open spec fn delimiter_cells(widths: Seq<usize>) -> Seq<char>
    decreases widths.len(),
{
    if widths.len() == 0 {
        Seq::empty()
    } else {
        delimiter_cells(widths.drop_last()) + repeat_char('-', widths.last() as nat) + seq!['+']
    }
}

/// A delimiter line: `+`, then for each column its width in `-`, then `+`.
/// With no columns it degenerates to the single `+`.
pub open spec fn delimiter_line(widths: Seq<usize>) -> Seq<char> {
    seq!['+'] + delimiter_cells(widths)
}

/// The space the centering rule grants left of a cell beyond the fixed one-unit
/// padding; the right side absorbs the remainder when the slack is odd.
pub open spec fn left_extra(width: int, len: int) -> int {
    (width - 2 - len) / 2
}

pub open spec fn right_extra(width: int, len: int) -> int {
    (width - 2 - len) - left_extra(width, len)
}

/// One cell centered within its column: the minimum one-space padding each
/// side, the extra slack split by the centering rule, the text itself verbatim.
pub open spec fn cell_text(width: int, cell: Seq<char>) -> Seq<char>
    recommends
        min_record_size(cell) <= width,
{
    repeat_char(' ', (1 + left_extra(width, grapheme_count(cell) as int)) as nat) + cell
        + repeat_char(' ', (1 + right_extra(width, grapheme_count(cell) as int)) as nat)
}

pub open spec fn content_cells(widths: Seq<usize>, row: Seq<String>) -> Seq<char>
    recommends
        widths.len() == row.len(),
    decreases widths.len(),
{
    if widths.len() == 0 {
        Seq::empty()
    } else {
        content_cells(widths.drop_last(), row.drop_last())
            + cell_text(widths.last() as int, row.last()@) + seq!['|']
    }
}

/// A content line: `|`, then each cell centered in its column followed by `|`.
/// With no columns it degenerates to the single `|`.
pub open spec fn content_line(widths: Seq<usize>, row: Seq<String>) -> Seq<char> {
    seq!['|'] + content_cells(widths, row)
}

// ---------------------------------------------------------------------------
// Table renderer: executable line builders
// ---------------------------------------------------------------------------
fn append_repeated(line: &mut String, piece: char, count: usize)
    requires
        piece == ' ' || piece == '-',
    ensures
        final(line)@ == old(line)@ + repeat_char(piece, count as nat),
{
    let mut j: usize = 0;
    while j < count
        invariant
            j <= count,
            piece == ' ' || piece == '-',
            line@ == old(line)@ + repeat_char(piece, j as nat),
        decreases count - j,
    {
        if piece == ' ' {
            line.append(" ");
        } else {
            line.append("-");
        }
        proof {
            reveal_strlit(" ");
            reveal_strlit("-");
            assert(line@ =~= old(line)@ + repeat_char(piece, (j + 1) as nat));
        }
        j += 1;
    }
    proof {
        assert(line@ =~= old(line)@ + repeat_char(piece, count as nat));
    }
}

pub fn render_delimiter_line(column_widths: &Vec<usize>) -> (r: String)
    ensures
        r@ == delimiter_line(column_widths@),
{
    let mut line = String::new();
    line.append("+");
    proof {
        reveal_strlit("+");
        assert(line@ =~= seq!['+'] + delimiter_cells(column_widths@.take(0)));
    }
    let mut i: usize = 0;
    while i < column_widths.len()
        invariant
            i <= column_widths@.len(),
            line@ == seq!['+'] + delimiter_cells(column_widths@.take(i as int)),
        decreases column_widths@.len() - i,
    {
        let width = column_widths[i];
        append_repeated(&mut line, '-', width);
        line.append("+");
        proof {
            reveal_strlit("+");
            assert(column_widths@.take(i + 1).drop_last() =~= column_widths@.take(i as int));
            assert(column_widths@.take(i + 1).last() == column_widths@[i as int]);
            assert(line@ =~= seq!['+'] + delimiter_cells(column_widths@.take(i + 1)));
        }
        i += 1;
    }
    proof {
        assert(column_widths@.take(column_widths@.len() as int) =~= column_widths@);
    }
    line
}

pub fn render_record_line(column_widths: &Vec<usize>, record: &Vec<String>) -> (r: Result<
    String,
    TableError,
>)
    requires
        column_widths@.len() == record@.len(),
        forall|i: int| 0 <= i < record@.len() ==> cell_fits((#[trigger] record@[i])@),
    ensures
        r is Ok <==> (forall|c: int|
            0 <= c < record@.len() ==> column_widths@[c] >= min_record_size(
                (#[trigger] record@[c])@,
            )),
        r matches Ok(line) ==> line@ == content_line(column_widths@, record@),
{
    let mut line = String::new();
    line.append("|");
    proof {
        reveal_strlit("|");
        assert(line@ =~= seq!['|'] + content_cells(column_widths@.take(0), record@.take(0)));
    }
    let mut i: usize = 0;
    while i < column_widths.len()
        invariant
            i <= column_widths@.len(),
            column_widths@.len() == record@.len(),
            forall|k: int| 0 <= k < record@.len() ==> cell_fits((#[trigger] record@[k])@),
            forall|c: int|
                0 <= c < i ==> column_widths@[c] >= min_record_size((#[trigger] record@[c])@),
            line@ == seq!['|'] + content_cells(column_widths@.take(i as int), record@.take(i as int)),
        decreases column_widths@.len() - i,
    {
        let width = column_widths[i];
        let data = &record[i];
        let data_length = grapheme_width(data.as_str());
        if width < data_length + 2 {
            // The planner promised this column covers the cell; a smaller
            // width means the caller desynchronized the two.
            return Err(TableError::ContractViolation);
        }
        let slack = width - 2 - data_length;
        let extra_padding = slack / 2;
        let padding_right = slack - extra_padding;
        append_repeated(&mut line, ' ', 1 + extra_padding);
        line.append(data.as_str());
        append_repeated(&mut line, ' ', 1 + padding_right);
        line.append("|");
        proof {
            reveal_strlit("|");
            assert(column_widths@.take(i + 1).drop_last() =~= column_widths@.take(i as int));
            assert(record@.take(i + 1).drop_last() =~= record@.take(i as int));
            assert(record@.take(i + 1).last() == record@[i as int]);
            assert(line@ =~= seq!['|'] + content_cells(
                column_widths@.take(i + 1),
                record@.take(i + 1),
            ));
        }
        i += 1;
    }
    proof {
        assert(column_widths@.take(column_widths@.len() as int) =~= column_widths@);
        assert(record@.take(record@.len() as int) =~= record@);
    }
    Ok(line)
}

// ---------------------------------------------------------------------------
// Temperatures as text
// ---------------------------------------------------------------------------
pub open spec fn digit_char(d: int) -> char {
    if d == 0 {
        '0'
    } else if d == 1 {
        '1'
    } else if d == 2 {
        '2'
    } else if d == 3 {
        '3'
    } else if d == 4 {
        '4'
    } else if d == 5 {
        '5'
    } else if d == 6 {
        '6'
    } else if d == 7 {
        '7'
    } else if d == 8 {
        '8'
    } else {
        '9'
    }
}

/// The decimal digits of a non-negative number, most significant first.
pub open spec fn dec_digits(n: nat) -> Seq<char>
    decreases n,
{
    if n < 10 {
        seq![digit_char(n as int)]
    } else {
        dec_digits(n / 10).push(digit_char((n % 10) as int))
    }
}

/// How a temperature reads in a table cell: its decimal value, a space, and
/// the Celsius unit label.
pub open spec fn temp_label(t: int) -> Seq<char> {
    if t < 0 {
        seq!['-'] + dec_digits((-t) as nat) + " \u{b0}C"@
    } else {
        dec_digits(t as nat) + " \u{b0}C"@
    }
}

fn digit_str(d: u32) -> (r: &'static str)
    requires
        d < 10,
    ensures
        r@ == seq![digit_char(d as int)],
{
    let r: &'static str = match d {
        0 => "0",
        1 => "1",
        2 => "2",
        3 => "3",
        4 => "4",
        5 => "5",
        6 => "6",
        7 => "7",
        8 => "8",
        _ => "9",
    };
    proof {
        reveal_strlit("0");
        reveal_strlit("1");
        reveal_strlit("2");
        reveal_strlit("3");
        reveal_strlit("4");
        reveal_strlit("5");
        reveal_strlit("6");
        reveal_strlit("7");
        reveal_strlit("8");
        reveal_strlit("9");
        assert(r@ =~= seq![digit_char(d as int)]);
    }
    r
}

fn u32_to_dec(n: u32) -> (r: String)
    ensures
        r@ == dec_digits(n as nat),
    decreases n,
{
    if n < 10 {
        let mut s = String::new();
        s.append(digit_str(n));
        proof {
            assert(s@ =~= dec_digits(n as nat));
        }
        s
    } else {
        let mut s = u32_to_dec(n / 10);
        s.append(digit_str(n % 10));
        proof {
            assert(s@ =~= dec_digits(n as nat));
        }
        s
    }
}

pub fn temp_to_string(temperature: i16) -> (r: String)
    ensures
        r@ == temp_label(temperature as int),
        r@.len() <= 10,
{
    let mut s = String::new();
    if temperature < 0 {
        s.append("-");
        proof {
            reveal_strlit("-");
        }
    }
    let magnitude: u32 = if temperature < 0 {
        (-(temperature as i32)) as u32
    } else {
        temperature as u32
    };
    let digits = u32_to_dec(magnitude);
    s.append(digits.as_str());
    s.append(" \u{b0}C");
    proof {
        reveal_strlit(" \u{b0}C");
        assert(dec_digits(magnitude as nat).len() <= 6) by {
            lemma_dec_digits_bound(magnitude as nat);
        }
        assert(s@ =~= temp_label(temperature as int));
    }
    s
}

/// A number below one hundred thousand prints in at most six digits.
proof fn lemma_dec_digits_bound(n: nat)
    ensures
        n < 100000 ==> dec_digits(n).len() <= 6,
        n < 10000 ==> dec_digits(n).len() <= 5,
        n < 1000 ==> dec_digits(n).len() <= 4,
        n < 100 ==> dec_digits(n).len() <= 3,
        n < 10 ==> dec_digits(n).len() == 1,
    decreases n,
{
    if n >= 10 {
        lemma_dec_digits_bound(n / 10);
    }
}

// ---------------------------------------------------------------------------
// Laws of the centering rule and of the rendered lines
// ---------------------------------------------------------------------------
/// Centering symmetry: the slack a cell leaves inside its column, beyond the
/// fixed one-unit padding, is split so that when it is even the two sides get
/// the same extra space, and when it is odd the right side gets exactly one
/// more than the left.
pub proof fn lemma_centering_symmetry(width: int, len: int)
    requires
        0 <= len,
        len + 2 <= width,
    ensures
        left_extra(width, len) >= 0,
        left_extra(width, len) + right_extra(width, len) == width - 2 - len,
        (width - 2 - len) % 2 == 0 ==> right_extra(width, len) == left_extra(width, len),
        (width - 2 - len) % 2 == 1 ==> right_extra(width, len) == left_extra(width, len) + 1,
{
    let d = width - 2 - len;
    vstd::arithmetic::div_mod::lemma_fundamental_div_mod(d, 2);
}

/// A centered cell spans exactly its column's width: once every grapheme
/// cluster of the cell is a single character, stripping the bars on either
/// side of column `c` leaves exactly `width[c]` characters.
pub proof fn lemma_cell_text_width(width: int, cell: Seq<char>)
    requires
        min_record_size(cell) <= width,
        grapheme_count(cell) == cell.len(),
    ensures
        cell_text(width, cell).len() == width,
{
    lemma_centering_symmetry(width, grapheme_count(cell) as int);
}

/// The total span of a row of columns: each column's width plus its closing
/// border character.
pub open spec fn widths_span(widths: Seq<usize>) -> nat
    decreases widths.len(),
{
    if widths.len() == 0 {
        0
    } else {
        (widths_span(widths.drop_last()) + widths.last() + 1) as nat
    }
}

/// A delimiter line is one opening `+` plus each column's span.
pub proof fn lemma_delimiter_line_width(widths: Seq<usize>)
    ensures
        delimiter_line(widths).len() == 1 + widths_span(widths),
    decreases widths.len(),
{
    if widths.len() > 0 {
        lemma_delimiter_line_width(widths.drop_last());
    }
}

/// A content line is exactly as long as a delimiter line over the same
/// widths, column for column, provided every grapheme cluster of every cell
/// is a single character and every cell fits its column.
pub proof fn lemma_content_line_width(widths: Seq<usize>, row: Seq<String>)
    requires
        widths.len() == row.len(),
        forall|c: int|
            0 <= c < row.len() ==> min_record_size((#[trigger] row[c])@) <= widths[c],
        forall|c: int|
            0 <= c < row.len() ==> grapheme_count((#[trigger] row[c])@) == row[c]@.len(),
    ensures
        content_line(widths, row).len() == 1 + widths_span(widths),
    decreases widths.len(),
{
    if widths.len() > 0 {
        lemma_content_line_width(widths.drop_last(), row.drop_last());
        lemma_cell_text_width(widths.last() as int, row.last()@);
    }
}

// ---------------------------------------------------------------------------
// Table renderer: whole tables
// ---------------------------------------------------------------------------
/// Every row of the table has as many cells as the header row.
pub open spec fn rectangular(records: Seq<Vec<String>>) -> bool {
    forall|i: int| 0 <= i < records.len() ==> (#[trigger] records[i])@.len() == records[0]@.len()
}

/// Every cell of the table is short enough for the width arithmetic.
pub open spec fn table_fits(records: Seq<Vec<String>>) -> bool {
    forall|i: int, j: int|
        0 <= i < records.len() && 0 <= j < records[i]@.len() ==> cell_fits(
            (#[trigger] records[i]@[j])@,
        )
}

/// Column `c` of the table, read top to bottom.
pub open spec fn column_of(records: Seq<Vec<String>>, c: int) -> Seq<String> {
    Seq::new(records.len(), |r: int| records[r]@[c])
}

/// The width the planner assigns to column `c`.
pub open spec fn planned_width(records: Seq<Vec<String>>, c: int) -> nat {
    column_width_of(column_of(records, c))
}

/// One width per column of the header row.
pub open spec fn planned_widths(records: Seq<Vec<String>>) -> Seq<usize>
    recommends
        records.len() > 0,
{
    Seq::new(records[0]@.len(), |c: int| planned_width(records, c) as usize)
}

/// The planned width of a column covers each of its cells.
pub proof fn lemma_planned_width_covers(records: Seq<Vec<String>>, r: int, c: int)
    requires
        0 <= r < records.len(),
        0 <= c < records[r]@.len(),
    ensures
        planned_width(records, c) >= min_record_size(records[r]@[c]@),
{
    lemma_column_width_covers(column_of(records, c), r);
}

pub open spec fn table_body(widths: Seq<usize>, records: Seq<Vec<String>>) -> Seq<Seq<char>>
    decreases records.len(),
{
    if records.len() == 0 {
        Seq::empty()
    } else {
        table_body(widths, records.drop_last())
            + seq![content_line(widths, records.last()@), delimiter_line(widths)]
    }
}

/// All lines of a rendered table: a delimiter line before every row and one
/// more after the last, so `n` rows give `n + 1` delimiters interleaved with
/// the `n` content lines.
pub open spec fn table_lines(widths: Seq<usize>, records: Seq<Vec<String>>) -> Seq<Seq<char>> {
    seq![delimiter_line(widths)] + table_body(widths, records)
}

/// An `n`-row table renders to `2n + 1` lines: delimiter lines at the even
/// positions — `n + 1` of them — and row `(i - 1) / 2`, centered, at each odd
/// position `i`.
pub proof fn lemma_table_shape(widths: Seq<usize>, records: Seq<Vec<String>>)
    ensures
        table_lines(widths, records).len() == 2 * records.len() + 1,
        forall|i: int|
            0 <= i <= 2 * records.len() && i % 2 == 0 ==> #[trigger] table_lines(
                widths,
                records,
            )[i] == delimiter_line(widths),
        forall|i: int|
            0 <= i < 2 * records.len() && i % 2 == 1 ==> #[trigger] table_lines(
                widths,
                records,
            )[i] == content_line(widths, records[(i - 1) / 2]@),
    decreases records.len(),
{
    if records.len() > 0 {
        lemma_table_shape(widths, records.drop_last());
        let all = table_lines(widths, records);
        let front = table_lines(widths, records.drop_last());
        assert forall|i: int| 0 <= i <= 2 * records.len() && i % 2 == 0 implies #[trigger] all[i]
            == delimiter_line(widths) by {
            if i < 2 * records.len() - 1 {
                assert(all[i] == front[i]);
            }
        }
        assert forall|i: int| 0 <= i < 2 * records.len() && i % 2 == 1 implies #[trigger] all[i]
            == content_line(widths, records[(i - 1) / 2]@) by {
            if i < 2 * records.len() - 1 {
                assert(all[i] == front[i]);
                assert(records.drop_last()[(i - 1) / 2] == records[(i - 1) / 2]);
            } else {
                assert((i - 1) / 2 == records.len() - 1);
            }
        }
    }
}

/// How many of the given lines are the delimiter line for these widths.
pub open spec fn delimiter_count(widths: Seq<usize>, lines: Seq<Seq<char>>) -> nat
    decreases lines.len(),
{
    if lines.len() == 0 {
        0
    } else {
        delimiter_count(widths, lines.drop_last()) + (if lines.last() == delimiter_line(widths) {
            1nat
        } else {
            0nat
        })
    }
}

/// A rendered `n`-row table holds exactly `n + 1` delimiter lines; no content
/// line can be mistaken for one, since a content line opens with `|` and a
/// delimiter line with `+`.
pub proof fn lemma_delimiter_count(widths: Seq<usize>, records: Seq<Vec<String>>)
    ensures
        delimiter_count(widths, table_lines(widths, records)) == records.len() + 1,
    decreases records.len(),
{
    let lines = table_lines(widths, records);
    if records.len() == 0 {
        assert(lines =~= seq![delimiter_line(widths)]);
        assert(lines.drop_last() =~= Seq::<Seq<char>>::empty());
        assert(delimiter_count(widths, Seq::<Seq<char>>::empty()) == 0);
        assert(delimiter_count(widths, lines) == 1);
    } else {
        lemma_delimiter_count(widths, records.drop_last());
        let front = table_lines(widths, records.drop_last());
        let content = content_line(widths, records.last()@);
        assert(content[0] == '|' && delimiter_line(widths)[0] == '+');
        assert(content != delimiter_line(widths));
        assert(lines.last() == delimiter_line(widths));
        assert(lines.drop_last() =~= front + seq![content]);
        assert((front + seq![content]).drop_last() =~= front);
        assert((front + seq![content]).last() == content);
        assert(delimiter_count(widths, lines) == delimiter_count(widths, front + seq![content])
            + 1);
        assert(delimiter_count(widths, front + seq![content]) == delimiter_count(widths, front));
        assert(delimiter_count(widths, lines) == records.len() + 1);
    }
}

pub fn render_table(records: &Vec<Vec<String>>) -> (r: Result<Vec<String>, TableError>)
    requires
        records@.len() > 0,
        table_fits(records@),
    ensures
        r is Ok <==> rectangular(records@),
        r matches Ok(lines) ==> lines@.map_values(|l: String| l@) == table_lines(
            planned_widths(records@),
            records@,
        ),
{
    let columns_num = records[0].len();
    let mut i: usize = 1;
    while i < records.len()
        invariant
            1 <= i <= records@.len(),
            columns_num == records@[0]@.len(),
            forall|j: int| 0 <= j < i ==> (#[trigger] records@[j])@.len() == columns_num,
        decreases records@.len() - i,
    {
        if records[i].len() != columns_num {
            return Err(TableError::ContractViolation);
        }
        i += 1;
    }
    let mut column_widths: Vec<usize> = Vec::new();
    let mut c: usize = 0;
    while c < columns_num
        invariant
            c <= columns_num,
            records@.len() > 0,
            table_fits(records@),
            rectangular(records@),
            columns_num == records@[0]@.len(),
            column_widths@.len() == c,
            forall|k: int|
                0 <= k < c ==> #[trigger] column_widths@[k] == planned_width(records@, k),
            forall|k: int, j: int|
                0 <= k < c && 0 <= j < records@.len() ==> column_widths@[k] >= min_record_size(
                    (#[trigger] records@[j]@[k])@,
                ),
        decreases columns_num - c,
    {
        let mut column: Vec<String> = Vec::new();
        let mut j: usize = 0;
        while j < records.len()
            invariant
                j <= records@.len(),
                c < columns_num,
                rectangular(records@),
                table_fits(records@),
                columns_num == records@[0]@.len(),
                column@.len() == j,
                forall|k: int| 0 <= k < j ==> #[trigger] column@[k] == records@[k]@[c as int],
            decreases records@.len() - j,
        {
            column.push(records[j][c].clone());
            j += 1;
        }
        proof {
            assert(column@ =~= column_of(records@, c as int));
        }
        let width = calc_column_width(&column);
        column_widths.push(width);
        proof {
            assert forall|jj: int| 0 <= jj < records@.len() implies width >= min_record_size(
                records@[jj]@[c as int]@,
            ) by {
                assert(column@[jj] == records@[jj]@[c as int]);
            }
        }
        c += 1;
    }
    proof {
        assert(column_widths@ =~= planned_widths(records@));
    }
    let mut lines: Vec<String> = Vec::new();
    lines.push(render_delimiter_line(&column_widths));
    proof {
        assert(lines@.map_values(|l: String| l@) =~= table_lines(
            column_widths@,
            records@.take(0),
        ));
    }
    let mut r: usize = 0;
    while r < records.len()
        invariant
            r <= records@.len(),
            records@.len() > 0,
            table_fits(records@),
            rectangular(records@),
            column_widths@.len() == records@[0]@.len(),
            forall|k: int, j: int|
                0 <= k < column_widths@.len() && 0 <= j < records@.len() ==> column_widths@[k]
                    >= min_record_size((#[trigger] records@[j]@[k])@),
            lines@.map_values(|l: String| l@) == table_lines(column_widths@, records@.take(r as int)),
        decreases records@.len() - r,
    {
        let row = &records[r];
        proof {
            assert forall|cc: int| 0 <= cc < row@.len() implies column_widths@[cc]
                >= min_record_size((#[trigger] row@[cc])@) by {
                assert(column_widths@[cc] >= min_record_size(records@[r as int]@[cc]@));
            }
            assert forall|cc: int| 0 <= cc < row@.len() implies cell_fits(
                (#[trigger] row@[cc])@,
            ) by {
                assert(cell_fits(records@[r as int]@[cc]@));
            }
        }
        let content = match render_record_line(&column_widths, row) {
            Ok(line) => line,
            Err(_) => {
                proof {
                    assert(false);
                }
                return Err(TableError::ContractViolation);
            },
        };
        let ghost lines_before = lines@;
        lines.push(content);
        let delim = render_delimiter_line(&column_widths);
        lines.push(delim);
        proof {
            assert(records@.take(r + 1).drop_last() =~= records@.take(r as int));
            assert(records@.take(r + 1).last() == records@[r as int]);
            assert(table_body(column_widths@, records@.take(r + 1)) == table_body(
                column_widths@,
                records@.take(r as int),
            ) + seq![content_line(column_widths@, records@[r as int]@), delimiter_line(
                column_widths@,
            )]);
            assert(lines@ =~= lines_before + seq![content, delim]);
            assert(lines@.map_values(|l: String| l@) =~= lines_before.map_values(|l: String| l@)
                + seq![content@, delim@]);
            assert(lines@.map_values(|l: String| l@) =~= table_lines(
                column_widths@,
                records@.take(r + 1),
            ));
        }
        r += 1;
    }
    proof {
        assert(records@.take(records@.len() as int) =~= records@);
    }
    Ok(lines)
}

// ---------------------------------------------------------------------------
// The weather table
// ---------------------------------------------------------------------------
/// Relies on the standard library's `writeln!` into `std::io::Stdout`: writes
/// the line and a newline to standard output, the renderer's output sink.
#[verifier::external_body]
fn emit_line(line: &str) {
    let mut out = std::io::stdout();
    let _ = writeln!(out, "{}", line);
}

pub fn print_table(records: &Vec<Vec<String>>) -> (r: Result<(), TableError>)
    requires
        records@.len() > 0,
        table_fits(records@),
    ensures
        r is Ok <==> rectangular(records@),
{
    let lines = match render_table(records) {
        Ok(lines) => lines,
        Err(e) => return Err(e),
    };
    let mut i: usize = 0;
    while i < lines.len()
        invariant
            i <= lines@.len(),
        decreases lines@.len() - i,
    {
        emit_line(lines[i].as_str());
        i += 1;
    }
    Ok(())
}

/// The two rows of the weather table: the fixed captions, then the city's
/// values with the temperatures already spelled out as Celsius labels.
pub fn weather_records(weather: &CityWeather) -> (r: Vec<Vec<String>>)
    ensures
        r@.len() == 2,
        r@[0]@.len() == 5,
        r@[1]@.len() == 5,
        r@[0]@[0]@ == "City"@,
        r@[0]@[1]@ == "Condition"@,
        r@[0]@[2]@ == "Temperature"@,
        r@[0]@[3]@ == "Min. temp."@,
        r@[0]@[4]@ == "Max. temp."@,
        r@[1]@[0]@ == weather.name@,
        r@[1]@[1]@ == weather.condition@,
        r@[1]@[2]@ == temp_label(weather.temp as int),
        r@[1]@[3]@ == temp_label(weather.temp_min as int),
        r@[1]@[4]@ == temp_label(weather.temp_max as int),
        r@[1]@[2]@.len() <= 10,
        r@[1]@[3]@.len() <= 10,
        r@[1]@[4]@.len() <= 10,
        rectangular(r@),
{
    let mut header: Vec<String> = Vec::new();
    header.push("City".to_owned());
    header.push("Condition".to_owned());
    header.push("Temperature".to_owned());
    header.push("Min. temp.".to_owned());
    header.push("Max. temp.".to_owned());
    let mut row: Vec<String> = Vec::new();
    row.push(weather.name.clone());
    row.push(weather.condition.clone());
    row.push(temp_to_string(weather.temp));
    row.push(temp_to_string(weather.temp_min));
    row.push(temp_to_string(weather.temp_max));
    let mut records: Vec<Vec<String>> = Vec::new();
    records.push(header);
    records.push(row);
    records
}

pub fn print_current_weather(weather: &CityWeather)
    requires
        weather.name@.len() + 2 <= usize::MAX,
        weather.condition@.len() + 2 <= usize::MAX,
{
    let records = weather_records(weather);
    proof {
        reveal_strlit("City");
        reveal_strlit("Condition");
        reveal_strlit("Temperature");
        reveal_strlit("Min. temp.");
        reveal_strlit("Max. temp.");
        assert forall|i: int, j: int|
            0 <= i < records@.len() && 0 <= j < records@[i]@.len() implies cell_fits(
            (#[trigger] records@[i]@[j])@,
        ) by {
            if i == 0 {
                assert(records@[0]@[j]@.len() <= 11);
            } else {
                if j == 0 {
                    assert(records@[1]@[0]@ == weather.name@);
                } else if j == 1 {
                    assert(records@[1]@[1]@ == weather.condition@);
                } else {
                    assert(records@[1]@[j]@.len() <= 10);
                }
            }
        }
    }
    let _ = print_table(&records);
}

} // verus!
