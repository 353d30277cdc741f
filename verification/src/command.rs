//! The command line: which of the tool's modes the arguments ask for.

use crate::help::{help, help_text};
use crate::markup::{markup_of, Markup};
use crate::number::{i32_of, parse_i32};
use crate::price::{row_for, rows_for};
use crate::session::{banner, banner_text, standard_settings, Settings};
use crate::table::{price_calc, price_calc_multiple, table_text};
use vstd::prelude::*;

verus! {

/// What the arguments of the command line ask for.
#[derive(Clone, Copy, Debug, PartialEq, Eq, Structural)]
pub enum Invocation {
    /// A session that reads lines of input.
    Interactive { settings: Settings },
    /// The table of one card.
    Single { card: i32, buy_markup: Markup, sell_markup: Markup },
    /// The table of the cards from `min_value` to `max_value`.
    Range { min_value: i32, max_value: i32, buy_markup: Markup, sell_markup: Markup },
    /// The help text.
    Help { settings: Settings },
}

/// An argument that could not be read; `index` counts the arguments from
/// zero, the program's name left out.
#[derive(Clone, Copy, Debug, PartialEq, Eq, Structural)]
pub enum ArgError {
    /// The argument is no whole number that fits an `i32`.
    NotInteger { index: usize },
    /// The argument is no markup.
    NotMarkup { index: usize },
}

/// The argument at `index`, read as a whole number.
pub open spec fn integer_arg(args: Seq<Seq<char>>, index: int) -> Result<i32, ArgError> {
    match i32_of(args[index]) {
        Some(value) => Ok(value),
        None => Err(ArgError::NotInteger { index: index as usize }),
    }
}

/// The argument at `index`, read as a markup.
pub open spec fn markup_arg(args: Seq<Seq<char>>, index: int) -> Result<Markup, ArgError> {
    match markup_of(args[index]) {
        Some(markup) => Ok(markup),
        None => Err(ArgError::NotMarkup { index: index as usize }),
    }
}

/// The table of one card, or the first error among what was read for it.
pub open spec fn card_plan(
    card: Result<i32, ArgError>,
    buy: Result<Markup, ArgError>,
    sell: Result<Markup, ArgError>,
) -> Result<Invocation, ArgError> {
    if card is Err {
        Err(card->Err_0)
    } else if buy is Err {
        Err(buy->Err_0)
    } else if sell is Err {
        Err(sell->Err_0)
    } else {
        Ok(Invocation::Single { card: card->Ok_0, buy_markup: buy->Ok_0, sell_markup: sell->Ok_0 })
    }
}

/// The table of a range, or the first error among what was read for it.
pub open spec fn range_plan(
    min_value: Result<i32, ArgError>,
    max_value: Result<i32, ArgError>,
    buy: Result<Markup, ArgError>,
    sell: Result<Markup, ArgError>,
) -> Result<Invocation, ArgError> {
    if min_value is Err {
        Err(min_value->Err_0)
    } else if max_value is Err {
        Err(max_value->Err_0)
    } else if buy is Err {
        Err(buy->Err_0)
    } else if sell is Err {
        Err(sell->Err_0)
    } else {
        Ok(
            Invocation::Range {
                min_value: min_value->Ok_0,
                max_value: max_value->Ok_0,
                buy_markup: buy->Ok_0,
                sell_markup: sell->Ok_0,
            },
        )
    }
}

/// What the arguments `args`, the program's name left out, ask for.
///
/// Their number alone chooses the mode: none for a session, one for a
/// card, two for a range, three for a card with its two markups, four for
/// a range with its two markups, and any other number for the help text.
/// Cards and bounds are read as whole numbers and markups as decimal text,
/// in the order of the arguments, and the first that cannot be read is the
/// error. Markups that the arguments leave out are the default ones.
pub open spec fn plan_of(args: Seq<Seq<char>>) -> Result<Invocation, ArgError> {
    let buy = Ok::<Markup, ArgError>(standard_settings().buy_markup);
    let sell = Ok::<Markup, ArgError>(standard_settings().sell_markup);
    if args.len() == 0 {
        Ok(Invocation::Interactive { settings: standard_settings() })
    } else if args.len() == 1 {
        card_plan(integer_arg(args, 0), buy, sell)
    } else if args.len() == 2 {
        range_plan(integer_arg(args, 0), integer_arg(args, 1), buy, sell)
    } else if args.len() == 3 {
        card_plan(integer_arg(args, 0), markup_arg(args, 1), markup_arg(args, 2))
    } else if args.len() == 4 {
        range_plan(
            integer_arg(args, 0),
            integer_arg(args, 1),
            markup_arg(args, 2),
            markup_arg(args, 3),
        )
    } else {
        Ok(Invocation::Help { settings: standard_settings() })
    }
}

/// The texts of `args`, in order.
pub open spec fn texts_of(args: Seq<String>) -> Seq<Seq<char>> {
    Seq::new(args.len(), |i: int| args[i]@)
}

/// The text that an invocation starts with: the banner of a session, the
/// table of a card or of a range, or the help text.
pub open spec fn opening_text(invocation: Invocation) -> Seq<char> {
    match invocation {
        Invocation::Interactive { settings } => banner_text(),
        Invocation::Single { card, buy_markup, sell_markup } => table_text(
            seq![row_for(card, buy_markup, sell_markup)],
        ),
        Invocation::Range { min_value, max_value, buy_markup, sell_markup } => table_text(
            rows_for(min_value, max_value, buy_markup, sell_markup),
        ),
        Invocation::Help { settings } => help_text(
            settings.min_price,
            settings.max_price,
            settings.buy_markup,
            settings.sell_markup,
        ),
    }
}

/// Reads the argument at `index` as a whole number.
fn integer_at(args: &Vec<String>, index: usize) -> (value: Result<i32, ArgError>)
    requires
        index < args@.len(),
    ensures
        value == integer_arg(texts_of(args@), index as int),
{
    match parse_i32(args[index].as_str()) {
        Some(v) => Ok(v),
        None => Err(ArgError::NotInteger { index }),
    }
}

/// Reads the argument at `index` as a markup.
fn markup_at(args: &Vec<String>, index: usize) -> (value: Result<Markup, ArgError>)
    requires
        index < args@.len(),
    ensures
        value == markup_arg(texts_of(args@), index as int),
{
    match Markup::parse(args[index].as_str()) {
        Some(m) => Ok(m),
        None => Err(ArgError::NotMarkup { index }),
    }
}

/// Finds what the arguments of the command line, the program's name left
/// out, ask for.
pub fn dispatch(args: &Vec<String>) -> (plan: Result<Invocation, ArgError>)
    ensures
        plan == plan_of(texts_of(args@)),
{
    let count = args.len();
    let standard = Settings::standard();
    if count == 0 {
        return Ok(Invocation::Interactive { settings: standard });
    }
    if count > 4 {
        return Ok(Invocation::Help { settings: standard });
    }
    let values: usize = if count == 1 || count == 3 {
        1
    } else {
        2
    };
    let first = match integer_at(args, 0) {
        Ok(v) => v,
        Err(e) => {
            return Err(e);
        },
    };
    let second = if values == 2 {
        match integer_at(args, 1) {
            Ok(v) => v,
            Err(e) => {
                return Err(e);
            },
        }
    } else {
        first
    };
    let mut buy_markup = standard.buy_markup;
    let mut sell_markup = standard.sell_markup;
    if count > 2 {
        buy_markup =
        match markup_at(args, values) {
            Ok(m) => m,
            Err(e) => {
                return Err(e);
            },
        };
        sell_markup =
        match markup_at(args, values + 1) {
            Ok(m) => m,
            Err(e) => {
                return Err(e);
            },
        };
    }
    if values == 1 {
        Ok(Invocation::Single { card: first, buy_markup, sell_markup })
    } else {
        Ok(Invocation::Range { min_value: first, max_value: second, buy_markup, sell_markup })
    }
}

impl Invocation {
    /// Writes the text that the invocation starts with.
    pub fn opening(&self) -> (text: String)
        ensures
            text@ == opening_text(*self),
    {
        match self {
            Invocation::Interactive { settings } => banner(),
            Invocation::Single { card, buy_markup, sell_markup } => price_calc(
                *card,
                buy_markup,
                sell_markup,
            ),
            Invocation::Range { min_value, max_value, buy_markup, sell_markup } => {
                price_calc_multiple(*min_value, *max_value, buy_markup, sell_markup)
            },
            Invocation::Help { settings } => help(
                settings.min_price,
                settings.max_price,
                &settings.buy_markup,
                &settings.sell_markup,
            ),
        }
    }
}

/// Where the command line gives no markups, the default ones apply, `0.1`
/// on the buy price and `0.2` on the sell price; a session and the help
/// text get the default settings, with the bounds 1 and 100.
pub proof fn lemma_defaults_where_omitted(args: Seq<Seq<char>>)
    ensures
        args.len() <= 2 ==> match plan_of(args) {
            Ok(Invocation::Interactive { settings }) => settings == standard_settings(),
            Ok(Invocation::Single { card, buy_markup, sell_markup }) => {
                &&& buy_markup == (Markup { units: 1, scale: 1 })
                &&& sell_markup == (Markup { units: 2, scale: 1 })
            },
            Ok(Invocation::Range { min_value, max_value, buy_markup, sell_markup }) => {
                &&& buy_markup == (Markup { units: 1, scale: 1 })
                &&& sell_markup == (Markup { units: 2, scale: 1 })
            },
            Ok(Invocation::Help { settings }) => false,
            Err(_) => true,
        },
        args.len() > 4 ==> plan_of(args) == Ok::<Invocation, ArgError>(
            Invocation::Help { settings: standard_settings() },
        ),
        standard_settings().min_price == 1 && standard_settings().max_price == 100,
{
}

} // verus!
