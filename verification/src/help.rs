//! The help text: what the tool does, how it is called, and its defaults.

use crate::markup::{decimal_text, Markup};
use crate::number::{decimal, render_integer};
use crate::text::lines_text;
use vstd::prelude::*;

verus! {

/// The number of lines before the defaults.
pub const HELP_HEAD_LEN: usize = 30;

/// The lines before the defaults.
pub const HELP_HEAD: [&'static str; 30] = [
    "Waifu buy and sell price calculator.",
    "This tool quickly generates the buy and sell price of a waifu/husbando given the base kakera value",
    "",
    "Usage:",
    "\twaifucalc card-value",
    "\twaifucalc min-value max-value",
    "\twaifucalc min-value max-value buy-markup sell-markup",
    "",
    "Interactive Mode Usage:",
    "    card-value: calculate buy and sell prices",
    "    min-value-max-value: calculate prices with range",
    "",
    "    Examples:",
    "        []> 17",
    "        | Card  |  Buy  | Sell  |",
    "        |-------|-------|-------|",
    "        |  17   |  19   |  20   |",
    "",
    "        []> 15-17",
    "        | Card  |  Buy  | Sell  |",
    "        |-------|-------|-------|",
    "        |  15   |  17   |  18   |",
    "        |  16   |  18   |  19   |",
    "        |  17   |  19   |  20   |",
    "",
    "Interactive Mode commands:",
    "    `e` to exit",
    "    `h` for this text",
    "",
    "Defaults:",
];

/// What stands before each default, in the order of the defaults.
pub const MIN_VALUE_LABEL: &'static str = "\tmin-value: ";

pub const MAX_VALUE_LABEL: &'static str = "\tmax-value: ";

pub const BUY_MARKUP_LABEL: &'static str = "\tbuy-markup: ";

pub const SELL_MARKUP_LABEL: &'static str = "\tsell-markup: ";

/// The lines of the help text: the head, then one line for each default.
pub open spec fn help_lines(min_value: i32, max_value: i32, buy: Markup, sell: Markup) -> Seq<
    Seq<char>,
> {
    Seq::new(HELP_HEAD_LEN as nat, |i: int| HELP_HEAD@[i]@) + seq![
        MIN_VALUE_LABEL@ + decimal(min_value as int),
        MAX_VALUE_LABEL@ + decimal(max_value as int),
        BUY_MARKUP_LABEL@ + decimal_text(buy),
        SELL_MARKUP_LABEL@ + decimal_text(sell),
    ]
}

/// The help text, a line feed behind each of its lines.
pub open spec fn help_text(min_value: i32, max_value: i32, buy: Markup, sell: Markup) -> Seq<char> {
    lines_text(help_lines(min_value, max_value, buy, sell))
}

/// Writes `label`, `value` and a line feed at the end of `out`.
fn append_labelled(out: &mut String, label: &str, value: &str)
    ensures
        final(out)@ == old(out)@ + (label@ + value@) + seq!['\n'],
{
    proof {
        reveal_strlit("\n");
    }
    out.append(label);
    out.append(value);
    out.append("\n");
    assert(out@ =~= old(out)@ + (label@ + value@) + seq!['\n']);
}

/// Writes the help text with the given defaults.
pub fn help(min_value: i32, max_value: i32, buy_markup: &Markup, sell_markup: &Markup) -> (text:
    String)
    ensures
        text@ == help_text(min_value, max_value, *buy_markup, *sell_markup),
{
    let ghost lines = help_lines(min_value, max_value, *buy_markup, *sell_markup);
    let mut text = String::new();
    let mut done: usize = 0;
    assert(lines_text(lines.take(0)) =~= Seq::<char>::empty());
    while done < HELP_HEAD_LEN
        invariant
            done <= HELP_HEAD_LEN,
            lines == help_lines(min_value, max_value, *buy_markup, *sell_markup),
            text@ == lines_text(lines.take(done as int)),
        decreases HELP_HEAD_LEN - done,
    {
        proof {
            reveal_strlit("\n");
            assert(lines.take(done + 1).drop_last() =~= lines.take(done as int));
        }
        text.append(HELP_HEAD[done]);
        text.append("\n");
        done += 1;
    }
    append_labelled(&mut text, MIN_VALUE_LABEL, render_integer(min_value as i128).as_str());
    assert(text@ == lines_text(lines.take(31))) by {
        assert(lines.take(31).drop_last() =~= lines.take(30));
        assert(lines.take(31).last() == MIN_VALUE_LABEL@ + decimal(min_value as int));
    }
    append_labelled(&mut text, MAX_VALUE_LABEL, render_integer(max_value as i128).as_str());
    assert(text@ == lines_text(lines.take(32))) by {
        assert(lines.take(32).drop_last() =~= lines.take(31));
        assert(lines.take(32).last() == MAX_VALUE_LABEL@ + decimal(max_value as int));
    }
    append_labelled(&mut text, BUY_MARKUP_LABEL, buy_markup.render().as_str());
    assert(text@ == lines_text(lines.take(33))) by {
        assert(lines.take(33).drop_last() =~= lines.take(32));
        assert(lines.take(33).last() == BUY_MARKUP_LABEL@ + decimal_text(*buy_markup));
    }
    append_labelled(&mut text, SELL_MARKUP_LABEL, sell_markup.render().as_str());
    assert(text@ == lines_text(lines)) by {
        assert(lines.take(34) =~= lines);
        assert(lines.drop_last() =~= lines.take(33));
        assert(lines.last() == SELL_MARKUP_LABEL@ + decimal_text(*sell_markup));
    }
    text
}

} // verus!
