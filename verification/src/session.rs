//! The interactive session: what each line of input asks for, and the text
//! that answers it.

use crate::help::{help, help_text};
use crate::markup::Markup;
use crate::number::{i32_of, read_i32};
use crate::pattern::{search, search_result};
use crate::price::{row_for, rows_for};
use crate::table::{price_calc, price_calc_multiple, table_text};
use crate::text::{
    chars_of, find_char, first_index_of, lemma_lines_text_of_one, lines_text, strip_line_end,
    trim_bounds, trimmed, without_line_end,
};
use vstd::prelude::*;

verus! {

/// The regular expression that marks a line as a range: digits, a hyphen,
/// digits, anywhere in the line.
pub const RANGE_PATTERN: &'static str = "\\d+-\\d+";

/// The character between the two bounds of a range.
pub const RANGE_SEPARATOR: char = '-';

/// The prompt before each line of input.
pub const PROMPT: &'static str = "[]> ";

/// The lines that open a session.
pub const BANNER: [&'static str; 4] = [
    "Interactive Mode, enter a digit, a range, or an interacive command.",
    "Interactive commands are:",
    "h: help",
    "e: exit",
];

/// What stands before the echo of a line that was taken as a range.
pub const FOUND_RANGE: &'static str = "[DBG]: Found range: ";

/// The answer to a line that is neither a command, a range nor a number.
pub const UNKNOWN_INPUT: &'static str = "[ERR]: Input is not a known command or number";

/// What a session is run with: the bounds that the help text shows, and
/// the two markups.
#[derive(Clone, Copy, Debug, PartialEq, Eq, Structural)]
pub struct Settings {
    pub min_price: i32,
    pub max_price: i32,
    pub buy_markup: Markup,
    pub sell_markup: Markup,
}

/// What a line of input asks for.
#[derive(Clone, Copy, Debug, PartialEq, Eq, Structural)]
pub enum Step {
    /// Show the help text.
    Help,
    /// End the session.
    Exit,
    /// Show the table of the cards from `lo` to `hi`.
    Range { lo: i32, hi: i32 },
    /// Show the table of one card.
    Single { card: i32 },
    /// Say that the line was not understood.
    Unknown,
}

/// Why a line could not be looked at.
#[derive(Clone, Copy, Debug, PartialEq, Eq, Structural)]
pub enum StepError {
    /// The engine did not accept [`RANGE_PATTERN`].
    Pattern,
}

/// The answer to one line of input.
#[derive(Debug, PartialEq, Eq)]
pub struct Reply {
    /// The text to show.
    pub text: String,
    /// Whether the session is over.
    pub ends_session: bool,
}

/// The settings of a session that was given none: the bounds 1 and 100,
/// the markups `0.1` on the buy price and `0.2` on the sell price.
pub open spec fn standard_settings() -> Settings {
    Settings {
        min_price: 1,
        max_price: 100,
        buy_markup: Markup { units: 1, scale: 1 },
        sell_markup: Markup { units: 2, scale: 1 },
    }
}

/// The line that asks for help.
pub open spec fn help_command() -> Seq<char> {
    seq!['h']
}

/// The line that ends the session.
pub open spec fn exit_command() -> Seq<char> {
    seq!['e']
}

/// The text before the first separator of `t`: all of `t` where it has
/// none.
pub open spec fn range_start_text(t: Seq<char>) -> Seq<char> {
    t.take(first_index_of(t, RANGE_SEPARATOR))
}

/// The text behind the first separator of `t`: empty where it has none.
pub open spec fn range_end_text(t: Seq<char>) -> Seq<char> {
    if first_index_of(t, RANGE_SEPARATOR) < t.len() {
        t.skip(first_index_of(t, RANGE_SEPARATOR) + 1)
    } else {
        Seq::empty()
    }
}

/// What a line that is no command asks for, where `found` says whether
/// the range pattern was found in it.
///
/// With the pattern found and a whole number on either side of the first
/// separator of the trimmed line, it is a range. Else it is a single card
/// where the trimmed line is a whole number, and not understood otherwise.
pub open spec fn free_text_step(line: Seq<char>, found: bool) -> Step {
    let t = trimmed(line);
    if found && i32_of(range_start_text(t)) is Some && i32_of(range_end_text(t)) is Some {
        Step::Range { lo: i32_of(range_start_text(t))->0, hi: i32_of(range_end_text(t))->0 }
    } else if i32_of(t) is Some {
        Step::Single { card: i32_of(t)->0 }
    } else {
        Step::Unknown
    }
}

/// What `line` asks for, where `search` is what the search for the range
/// pattern gave: commands first, taken to the letter, and then free text.
pub open spec fn step_of(line: Seq<char>, search: Option<bool>) -> Result<Step, StepError> {
    if line == help_command() {
        Ok(Step::Help)
    } else if line == exit_command() {
        Ok(Step::Exit)
    } else {
        match search {
            Some(found) => Ok(free_text_step(line, found)),
            None => Err(StepError::Pattern),
        }
    }
}

/// Whether the session is over after `step`.
pub open spec fn ends_session(step: Step) -> bool {
    step == Step::Exit
}

/// The text that answers `line` once it was found to ask for `step`.
pub open spec fn reply_text(step: Step, line: Seq<char>, settings: Settings) -> Seq<char> {
    match step {
        Step::Help => help_text(
            settings.min_price,
            settings.max_price,
            settings.buy_markup,
            settings.sell_markup,
        ),
        Step::Exit => Seq::empty(),
        Step::Range { lo, hi } => lines_text(seq![FOUND_RANGE@ + line]) + table_text(
            rows_for(lo, hi, settings.buy_markup, settings.sell_markup),
        ),
        Step::Single { card } => table_text(
            seq![row_for(card, settings.buy_markup, settings.sell_markup)],
        ),
        Step::Unknown => lines_text(seq![UNKNOWN_INPUT@]),
    }
}

/// The text that opens a session.
pub open spec fn banner_text() -> Seq<char> {
    lines_text(Seq::new(4, |i: int| BANNER@[i]@))
}

impl Settings {
    /// The settings of a session that was given none.
    pub fn standard() -> (settings: Settings)
        ensures
            settings == standard_settings(),
    {
        Settings {
            min_price: 1,
            max_price: 100,
            buy_markup: Markup::standard_buy(),
            sell_markup: Markup::standard_sell(),
        }
    }
}

impl Step {
    /// Whether the session is over after this step.
    pub fn ends_session(&self) -> (over: bool)
        ensures
            over == ends_session(*self),
    {
        match self {
            Step::Exit => true,
            _ => false,
        }
    }
}

/// Writes the text that opens a session.
pub fn banner() -> (text: String)
    ensures
        text@ == banner_text(),
{
    let ghost lines = Seq::new(4, |i: int| BANNER@[i]@);
    let mut text = String::new();
    let mut done: usize = 0;
    assert(lines_text(lines.take(0)) =~= Seq::<char>::empty());
    while done < 4
        invariant
            done <= 4,
            lines == Seq::new(4, |i: int| BANNER@[i]@),
            text@ == lines_text(lines.take(done as int)),
        decreases 4 - done,
    {
        proof {
            reveal_strlit("\n");
            assert(lines.take(done + 1).drop_last() =~= lines.take(done as int));
        }
        text.append(BANNER[done]);
        text.append("\n");
        done += 1;
    }
    assert(lines.take(4) =~= lines);
    text
}

/// Finds what `line` asks for, given what the search for the range pattern
/// in it gave: whether it was found, or nothing where the engine did not
/// accept the pattern.
pub fn step_after_search(line: &str, search: Option<bool>) -> (step: Result<Step, StepError>)
    ensures
        step == step_of(line@, search),
{
    let chars = chars_of(line);
    if chars.len() == 1 && chars[0] == 'h' {
        assert(line@ =~= help_command());
        return Ok(Step::Help);
    }
    if chars.len() == 1 && chars[0] == 'e' {
        assert(line@ =~= exit_command());
        return Ok(Step::Exit);
    }
    let found = match search {
        Some(found) => found,
        None => {
            return Err(StepError::Pattern);
        },
    };
    let (from, to) = trim_bounds(&chars);
    let ghost t = trimmed(line@);
    if found {
        let at = find_char(&chars, from, to, RANGE_SEPARATOR);
        let behind: usize = if at < to {
            at + 1
        } else {
            to
        };
        assert(range_start_text(t) =~= chars@.subrange(from as int, at as int));
        assert(range_end_text(t) =~= chars@.subrange(behind as int, to as int));
        if let Some(lo) = read_i32(&chars, from, at) {
            if let Some(hi) = read_i32(&chars, behind, to) {
                return Ok(Step::Range { lo, hi });
            }
        }
    }
    match read_i32(&chars, from, to) {
        Some(card) => Ok(Step::Single { card }),
        None => Ok(Step::Unknown),
    }
}

/// Finds what a line of input asks for. The line is taken as it was
/// entered, without the line feed that ended it.
pub fn interactive_step(line: &str) -> (step: Result<Step, StepError>)
    ensures
        step == step_of(line@, search_result(RANGE_PATTERN@, line@)),
{
    let found = match search(RANGE_PATTERN, line) {
        Ok(found) => Some(found),
        Err(_) => None,
    };
    step_after_search(line, found)
}

/// Writes the text that answers `line`, which was found to ask for `step`.
pub fn respond(step: &Step, line: &str, settings: &Settings) -> (text: String)
    ensures
        text@ == reply_text(*step, line@, *settings),
{
    match step {
        Step::Help => help(
            settings.min_price,
            settings.max_price,
            &settings.buy_markup,
            &settings.sell_markup,
        ),
        Step::Exit => String::new(),
        Step::Range { lo, hi } => {
            proof {
                reveal_strlit("\n");
            }
            let mut text = String::from_str(FOUND_RANGE);
            text.append(line);
            text.append("\n");
            assert(text@ =~= lines_text(seq![FOUND_RANGE@ + line@])) by {
                lemma_lines_text_of_one(FOUND_RANGE@ + line@);
            }
            text.append(
                price_calc_multiple(*lo, *hi, &settings.buy_markup, &settings.sell_markup).as_str(),
            );
            text
        },
        Step::Single { card } => price_calc(*card, &settings.buy_markup, &settings.sell_markup),
        Step::Unknown => {
            proof {
                reveal_strlit("\n");
            }
            let mut text = String::from_str(UNKNOWN_INPUT);
            text.append("\n");
            assert(text@ =~= lines_text(seq![UNKNOWN_INPUT@])) by {
                lemma_lines_text_of_one(UNKNOWN_INPUT@);
            }
            text
        },
    }
}

/// Answers a line of input as it was read, with the line feed that ended
/// it or without: finds what the line asks for, and writes the text that
/// answers it.
pub fn answer_line(entered: &str, settings: &Settings) -> (reply: Result<Reply, StepError>)
    ensures
        match step_of(
            without_line_end(entered@),
            search_result(RANGE_PATTERN@, without_line_end(entered@)),
        ) {
            Ok(step) => {
                &&& reply is Ok
                &&& reply->Ok_0.text@ == reply_text(step, without_line_end(entered@), *settings)
                &&& reply->Ok_0.ends_session == ends_session(step)
            },
            Err(error) => reply is Err && reply->Err_0 == error,
        },
{
    let line = strip_line_end(entered);
    match interactive_step(line) {
        Ok(step) => Ok(
            Reply { text: respond(&step, line, settings), ends_session: step.ends_session() },
        ),
        Err(error) => Err(error),
    }
}

/// The line `e` ends the session: whatever the search gave, and whatever
/// was entered before, since a step depends on its own line alone. No
/// other step ends it.
pub proof fn lemma_exit_ends_session(search: Option<bool>)
    ensures
        step_of(exit_command(), search) == Ok::<Step, StepError>(Step::Exit),
        forall|step: Step| ends_session(step) <==> step == Step::Exit,
{
}

/// The line `h` is answered with the help text of the session's settings
/// and does not end the session, whatever the search gave and whatever was
/// entered before.
pub proof fn lemma_help_goes_on(search: Option<bool>, settings: Settings)
    ensures
        step_of(help_command(), search) == Ok::<Step, StepError>(Step::Help),
        !ends_session(Step::Help),
        reply_text(Step::Help, help_command(), settings) == help_text(
            settings.min_price,
            settings.max_price,
            settings.buy_markup,
            settings.sell_markup,
        ),
{
    assert(help_command() != exit_command()) by {
        assert(help_command()[0] != exit_command()[0]);
    }
}

/// A line that is no command, no range and no whole number is answered
/// with the one line that says so, and does not end the session.
pub proof fn lemma_unknown_input_goes_on(line: Seq<char>, found: bool, settings: Settings)
    requires
        line != help_command(),
        line != exit_command(),
        !(found && i32_of(range_start_text(trimmed(line))) is Some && i32_of(
            range_end_text(trimmed(line)),
        ) is Some),
        i32_of(trimmed(line)) is None,
    ensures
        step_of(line, Some(found)) == Ok::<Step, StepError>(Step::Unknown),
        !ends_session(Step::Unknown),
        reply_text(Step::Unknown, line, settings) == UNKNOWN_INPUT@ + seq!['\n'],
        !UNKNOWN_INPUT@.contains('\n'),
{
    lemma_lines_text_of_one(UNKNOWN_INPUT@);
    reveal_strlit("[ERR]: Input is not a known command or number");
}

} // verus!
