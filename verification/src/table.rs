//! The price table as text: a header, a rule, and one line for each row.

use crate::markup::Markup;
use crate::number::{decimal, render_integer};
use crate::price::{price_row, price_rows, row_for, rows_for, PriceRow};
use crate::text::lines_text;
use vstd::prelude::*;

verus! {

/// The width of a table cell, in characters.
pub const CELL_WIDTH: usize = 5;

/// `k` spaces.
pub open spec fn spaces(k: nat) -> Seq<char> {
    Seq::new(k, |i: int| ' ')
}

/// `s` centered in `width` characters: the spaces that fill the width are
/// shared between both sides, the odd one going to the right. Text as wide
/// as `width` or wider stays as it is.
pub open spec fn centered(s: Seq<char>, width: nat) -> Seq<char> {
    if s.len() >= width {
        s
    } else {
        spaces(((width - s.len()) / 2) as nat) + s + spaces(
            ((width - s.len()) - (width - s.len()) / 2) as nat,
        )
    }
}

/// A table line of three cells between bars, each centered in
/// [`CELL_WIDTH`] characters with a space on either side.
pub open spec fn cells_line(first: Seq<char>, second: Seq<char>, third: Seq<char>) -> Seq<char> {
    seq!['|', ' '] + centered(first, CELL_WIDTH as nat) + seq![' ', '|', ' '] + centered(
        second,
        CELL_WIDTH as nat,
    ) + seq![' ', '|', ' '] + centered(third, CELL_WIDTH as nat) + seq![' ', '|']
}

/// The header line, which names the three columns.
pub open spec fn header_line() -> Seq<char> {
    cells_line(seq!['C', 'a', 'r', 'd'], seq!['B', 'u', 'y'], seq!['S', 'e', 'l', 'l'])
}

/// The rule under the header.
pub open spec fn rule_line() -> Seq<char> {
    seq!['|'] + Seq::new(7, |i: int| '-') + seq!['|'] + Seq::new(7, |i: int| '-') + seq!['|']
        + Seq::new(7, |i: int| '-') + seq!['|']
}

/// The line of one row: the card's value and its two prices.
pub open spec fn row_line(row: PriceRow) -> Seq<char> {
    cells_line(decimal(row.card as int), decimal(row.buy as int), decimal(row.sell as int))
}

/// The lines of the table of `rows`: header, rule, and the rows' lines in
/// the rows' order.
pub open spec fn table_lines(rows: Seq<PriceRow>) -> Seq<Seq<char>> {
    seq![header_line(), rule_line()] + Seq::new(rows.len(), |i: int| row_line(rows[i]))
}

/// The table of `rows` as text.
pub open spec fn table_text(rows: Seq<PriceRow>) -> Seq<char> {
    lines_text(table_lines(rows))
}

/// Writes `k` spaces at the end of `out`.
fn append_spaces(out: &mut String, k: usize)
    ensures
        final(out)@ == old(out)@ + spaces(k as nat),
{
    let mut done: usize = 0;
    assert(out@ =~= old(out)@ + spaces(0));
    while done < k
        invariant
            done <= k,
            out@ == old(out)@ + spaces(done as nat),
        decreases k - done,
    {
        proof {
            reveal_strlit(" ");
        }
        out.append(" ");
        done += 1;
        assert(out@ =~= old(out)@ + spaces(done as nat));
    }
}

/// Centers `text` in `width` characters.
pub fn center(text: &str, width: usize) -> (cell: String)
    ensures
        cell@ == centered(text@, width as nat),
{
    let len = text.unicode_len();
    let mut cell = String::new();
    if len >= width {
        cell.append(text);
        assert(cell@ =~= text@);
    } else {
        let fill = width - len;
        append_spaces(&mut cell, fill / 2);
        cell.append(text);
        append_spaces(&mut cell, fill - fill / 2);
        assert(cell@ =~= centered(text@, width as nat));
    }
    cell
}

/// Writes a table line of three cells.
pub fn render_cells(first: &str, second: &str, third: &str) -> (line: String)
    ensures
        line@ == cells_line(first@, second@, third@),
{
    proof {
        reveal_strlit("| ");
        reveal_strlit(" | ");
        reveal_strlit(" |");
    }
    let mut line = String::new();
    line.append("| ");
    line.append(center(first, CELL_WIDTH).as_str());
    line.append(" | ");
    line.append(center(second, CELL_WIDTH).as_str());
    line.append(" | ");
    line.append(center(third, CELL_WIDTH).as_str());
    line.append(" |");
    assert(line@ =~= cells_line(first@, second@, third@));
    line
}

/// Writes the header line: `| Card  |  Buy  | Sell  |`.
pub fn render_header() -> (line: String)
    ensures
        line@ == header_line(),
        line@ == "| Card  |  Buy  | Sell  |"@,
{
    proof {
        reveal_strlit("Card");
        reveal_strlit("Buy");
        reveal_strlit("Sell");
        reveal_strlit("| Card  |  Buy  | Sell  |");
    }
    assert("Card"@ =~= seq!['C', 'a', 'r', 'd']);
    assert("Buy"@ =~= seq!['B', 'u', 'y']);
    assert("Sell"@ =~= seq!['S', 'e', 'l', 'l']);
    let line = render_cells("Card", "Buy", "Sell");
    assert(line@ =~= "| Card  |  Buy  | Sell  |"@);
    line
}

/// Writes the rule under the header: `|-------|-------|-------|`.
pub fn render_rule() -> (line: String)
    ensures
        line@ == rule_line(),
{
    proof {
        reveal_strlit("|-------|-------|-------|");
    }
    let line = String::from_str("|-------|-------|-------|");
    assert(line@ =~= rule_line());
    line
}

/// Writes the line of one row.
pub fn render_row(row: &PriceRow) -> (line: String)
    ensures
        line@ == row_line(*row),
{
    let card = render_integer(row.card as i128);
    let buy = render_integer(row.buy);
    let sell = render_integer(row.sell);
    render_cells(card.as_str(), buy.as_str(), sell.as_str())
}

/// Writes the table of `rows`: header, rule, and one line for each row in
/// the rows' order, a line feed behind every line.
pub fn render_table(rows: &Vec<PriceRow>) -> (text: String)
    ensures
        text@ == table_text(rows@),
{
    proof {
        reveal_strlit("\n");
    }
    let ghost lines = table_lines(rows@);
    let mut text = String::new();
    text.append(render_header().as_str());
    text.append("\n");
    text.append(render_rule().as_str());
    text.append("\n");
    assert(text@ =~= lines_text(lines.take(2))) by {
        assert(lines[0] == header_line() && lines[1] == rule_line());
        assert(lines.take(2).drop_last() =~= lines.take(1));
        assert(lines.take(1).drop_last() =~= lines.take(0));
        assert(lines_text(lines.take(0)) =~= Seq::<char>::empty());
        assert(lines_text(lines.take(1)) =~= header_line() + seq!['\n']);
        assert(lines_text(lines.take(2)) =~= header_line() + seq!['\n'] + rule_line() + seq![
            '\n',
        ]);
    }
    let mut done: usize = 0;
    while done < rows.len()
        invariant
            done <= rows@.len(),
            lines == table_lines(rows@),
            text@ == lines_text(lines.take(done + 2)),
        decreases rows@.len() - done,
    {
        proof {
            reveal_strlit("\n");
            assert(lines.take(done + 3).drop_last() =~= lines.take(done + 2));
        }
        text.append(render_row(&rows[done]).as_str());
        text.append("\n");
        done += 1;
    }
    assert(lines.take(done + 2) =~= lines);
    text
}

/// The one-row table of a card worth `value`.
pub fn price_calc(value: i32, buy_markup: &Markup, sell_markup: &Markup) -> (text: String)
    ensures
        text@ == table_text(seq![row_for(value, *buy_markup, *sell_markup)]),
{
    let mut rows: Vec<PriceRow> = Vec::new();
    rows.push(price_row(value, buy_markup, sell_markup));
    assert(rows@ =~= seq![row_for(value, *buy_markup, *sell_markup)]);
    render_table(&rows)
}

/// The table of the cards from `min_value` to `max_value`, both counted, in
/// ascending order: header and rule alone where `max_value` is below
/// `min_value`.
pub fn price_calc_multiple(
    min_value: i32,
    max_value: i32,
    buy_markup: &Markup,
    sell_markup: &Markup,
) -> (text: String)
    ensures
        text@ == table_text(rows_for(min_value, max_value, *buy_markup, *sell_markup)),
{
    let rows = price_rows(min_value, max_value, buy_markup, sell_markup);
    render_table(&rows)
}

/// The table of a range has, under its header and rule, one line for each
/// card of the range, in ascending order of the cards.
pub proof fn lemma_range_table_lines(lo: i32, hi: i32, buy: Markup, sell: Markup)
    requires
        lo <= hi,
    ensures
        table_lines(rows_for(lo, hi, buy, sell)).len() == 2 + (hi - lo + 1),
        table_lines(rows_for(lo, hi, buy, sell))[0] == header_line(),
        table_lines(rows_for(lo, hi, buy, sell))[1] == rule_line(),
        forall|i: int|
            0 <= i <= hi - lo ==> #[trigger] table_lines(rows_for(lo, hi, buy, sell))[2 + i]
                == row_line(row_for((lo + i) as i32, buy, sell)),
{
}

} // verus!
