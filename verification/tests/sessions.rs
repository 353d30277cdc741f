use waifucalc::help::help;
use waifucalc::markup::Markup;
use waifucalc::session::{
    answer_line, banner, interactive_step, respond, step_after_search, Reply, Settings, Step,
    StepError, PROMPT, RANGE_PATTERN,
};
use waifucalc::table::{price_calc, price_calc_multiple};

fn step(line: &str) -> Step {
    interactive_step(line).unwrap()
}

#[test]
fn the_standard_settings() {
    let settings = Settings::standard();
    assert_eq!(settings.min_price, 1);
    assert_eq!(settings.max_price, 100);
    assert_eq!(settings.buy_markup, Markup { units: 1, scale: 1 });
    assert_eq!(settings.sell_markup, Markup { units: 2, scale: 1 });
}

#[test]
fn e_ends_the_session() {
    assert_eq!(interactive_step("e"), Ok(Step::Exit));
    assert!(Step::Exit.ends_session());
    for before in ["abc", "h", "15-17", "17", ""] {
        let _ = interactive_step(before);
        assert_eq!(interactive_step("e"), Ok(Step::Exit));
    }
    assert_eq!(respond(&Step::Exit, "e", &Settings::standard()), "");
}

#[test]
fn only_exit_ends_the_session() {
    assert!(!Step::Help.ends_session());
    assert!(!Step::Unknown.ends_session());
    assert!(!Step::Single { card: 1 }.ends_session());
    assert!(!Step::Range { lo: 1, hi: 2 }.ends_session());
}

#[test]
fn h_shows_the_help_text_and_the_session_goes_on() {
    let settings = Settings::standard();
    assert_eq!(interactive_step("h"), Ok(Step::Help));
    assert!(!step("h").ends_session());
    assert_eq!(
        respond(&Step::Help, "h", &settings),
        help(1, 100, &Markup::standard_buy(), &Markup::standard_sell())
    );
    assert_eq!(step("17"), Step::Single { card: 17 });
    assert_eq!(interactive_step("h"), Ok(Step::Help));
    assert_eq!(step("17"), Step::Single { card: 17 });
}

#[test]
fn the_line_15_to_17_is_the_range_of_three_rows() {
    let settings = Settings::standard();
    let found = step("15-17");
    assert_eq!(found, Step::Range { lo: 15, hi: 17 });
    let text = respond(&found, "15-17", &settings);
    let expected = "[DBG]: Found range: 15-17\n\
                    | Card  |  Buy  | Sell  |\n\
                    |-------|-------|-------|\n\
                    |  15   |  17   |  18   |\n\
                    |  16   |  18   |  19   |\n\
                    |  17   |  19   |  20   |\n";
    assert_eq!(text, expected);
    let table = price_calc_multiple(15, 17, &settings.buy_markup, &settings.sell_markup);
    assert_eq!(text, format!("[DBG]: Found range: 15-17\n{}", table));
}

#[test]
fn unknown_input_gets_one_error_line_and_the_session_goes_on() {
    let settings = Settings::standard();
    let found = step("abc");
    assert_eq!(found, Step::Unknown);
    assert!(!found.ends_session());
    let text = respond(&found, "abc", &settings);
    assert_eq!(text, "[ERR]: Input is not a known command or number\n");
    assert_eq!(text.lines().count(), 1);
    assert_eq!(step("17"), Step::Single { card: 17 });
    assert_eq!(step("15-17"), Step::Range { lo: 15, hi: 17 });
    assert_eq!(step("e"), Step::Exit);
}

#[test]
fn a_number_is_a_single_card() {
    let settings = Settings::standard();
    assert_eq!(step("17"), Step::Single { card: 17 });
    assert_eq!(step("-5"), Step::Single { card: -5 });
    assert_eq!(step("+5"), Step::Single { card: 5 });
    assert_eq!(step("0"), Step::Single { card: 0 });
    assert_eq!(step("2147483647"), Step::Single { card: i32::MAX });
    assert_eq!(
        respond(&Step::Single { card: 17 }, "17", &settings),
        "| Card  |  Buy  | Sell  |\n|-------|-------|-------|\n|  17   |  19   |  20   |\n"
    );
    assert_eq!(
        respond(&Step::Single { card: 17 }, "17", &settings),
        price_calc(17, &settings.buy_markup, &settings.sell_markup)
    );
}

#[test]
fn numbers_and_ranges_are_trimmed_and_commands_are_not() {
    assert_eq!(step(" 17 "), Step::Single { card: 17 });
    assert_eq!(step("17\r"), Step::Single { card: 17 });
    assert_eq!(step("\t15-17 "), Step::Range { lo: 15, hi: 17 });
    assert_eq!(step("15-17\r"), Step::Range { lo: 15, hi: 17 });
    assert_eq!(step(" h"), Step::Unknown);
    assert_eq!(step("h "), Step::Unknown);
    assert_eq!(step("e\r"), Step::Unknown);
    assert_eq!(step("H"), Step::Unknown);
    assert_eq!(step("E"), Step::Unknown);
    assert_eq!(step("he"), Step::Unknown);
}

#[test]
fn a_range_echoes_the_line_as_it_was_entered() {
    let settings = Settings::standard();
    let text = respond(&Step::Range { lo: 3, hi: 2 }, " 3-2 ", &settings);
    assert_eq!(
        text,
        "[DBG]: Found range:  3-2 \n| Card  |  Buy  | Sell  |\n|-------|-------|-------|\n"
    );
}

#[test]
fn a_range_needs_the_pattern_and_two_numbers() {
    assert_eq!(step("+15-17"), Step::Range { lo: 15, hi: 17 });
    assert_eq!(step("17-15"), Step::Range { lo: 17, hi: 15 });
    assert_eq!(step("0-0"), Step::Range { lo: 0, hi: 0 });
    assert_eq!(step("007-010"), Step::Range { lo: 7, hi: 10 });
    assert_eq!(step("+15-+17"), Step::Unknown);
    assert_eq!(step("15 - 17"), Step::Unknown);
    assert_eq!(step("15-"), Step::Unknown);
    assert_eq!(step("-17"), Step::Single { card: -17 });
    assert_eq!(step("a1-2"), Step::Unknown);
    assert_eq!(step("1-2b"), Step::Unknown);
    assert_eq!(step("1-2-3"), Step::Unknown);
    assert_eq!(step("-5-3"), Step::Unknown);
    assert_eq!(step("1-99999999999"), Step::Unknown);
    assert_eq!(step("99999999999-1"), Step::Unknown);
    assert_eq!(step("\u{661}\u{665}-\u{661}\u{667}"), Step::Unknown);
    assert_eq!(step(""), Step::Unknown);
    assert_eq!(step("   "), Step::Unknown);
}

#[test]
fn the_step_follows_what_the_search_gave() {
    assert_eq!(step_after_search("15-17", Some(true)), Ok(Step::Range { lo: 15, hi: 17 }));
    assert_eq!(step_after_search("15-17", Some(false)), Ok(Step::Unknown));
    assert_eq!(step_after_search("+15-+17", Some(true)), Ok(Step::Range { lo: 15, hi: 17 }));
    assert_eq!(step_after_search("+15-+17", Some(false)), Ok(Step::Unknown));
    assert_eq!(step_after_search("15", Some(true)), Ok(Step::Single { card: 15 }));
    assert_eq!(step_after_search("15", Some(false)), Ok(Step::Single { card: 15 }));
    assert_eq!(step_after_search("-15", Some(true)), Ok(Step::Single { card: -15 }));
    assert_eq!(step_after_search("abc", Some(true)), Ok(Step::Unknown));
    assert_eq!(step_after_search("h", Some(true)), Ok(Step::Help));
    assert_eq!(step_after_search("e", Some(false)), Ok(Step::Exit));
}

#[test]
fn a_refused_pattern_is_an_error_but_for_commands() {
    assert_eq!(step_after_search("15-17", None), Err(StepError::Pattern));
    assert_eq!(step_after_search("abc", None), Err(StepError::Pattern));
    assert_eq!(step_after_search("", None), Err(StepError::Pattern));
    assert_eq!(step_after_search("h", None), Ok(Step::Help));
    assert_eq!(step_after_search("e", None), Ok(Step::Exit));
}

#[test]
fn the_range_pattern_is_digits_hyphen_digits() {
    assert_eq!(RANGE_PATTERN, r"\d+-\d+");
}

#[test]
fn banner_and_prompt() {
    assert_eq!(
        banner(),
        "Interactive Mode, enter a digit, a range, or an interacive command.\n\
         Interactive commands are:\n\
         h: help\n\
         e: exit\n"
    );
    assert_eq!(PROMPT, "[]> ");
}

#[test]
fn the_help_text_with_the_defaults() {
    let expected = format!("Waifu buy and sell price calculator.
This tool quickly generates the buy and sell price of a waifu/husbando given the base kakera value

Usage:
\twaifucalc card-value
\twaifucalc min-value max-value
\twaifucalc min-value max-value buy-markup sell-markup

Interactive Mode Usage:
    card-value: calculate buy and sell prices
    min-value-max-value: calculate prices with range

    Examples:
        []> 17
        | Card  |  Buy  | Sell  |
        |-------|-------|-------|
        |  17   |  19   |  20   |

        []> 15-17
        | Card  |  Buy  | Sell  |
        |-------|-------|-------|
        |  15   |  17   |  18   |
        |  16   |  18   |  19   |
        |  17   |  19   |  20   |

Interactive Mode commands:
    `e` to exit
    `h` for this text

Defaults:
\tmin-value: {}
\tmax-value: {}
\tbuy-markup: {}
\tsell-markup: {}\n", 1, 100, 0.10f64, 0.20f64);
    assert_eq!(help(1, 100, &Markup::standard_buy(), &Markup::standard_sell()), expected);
}

#[test]
fn the_help_text_shows_the_values_it_is_given() {
    let text = help(-3, 7, &Markup { units: 15, scale: 2 }, &Markup { units: -5, scale: 1 });
    assert!(text.ends_with(
        "Defaults:\n\tmin-value: -3\n\tmax-value: 7\n\tbuy-markup: 0.15\n\tsell-markup: -0.5\n"
    ));
    assert!(text.starts_with("Waifu buy and sell price calculator.\nThis tool"));
    assert_eq!(text.lines().count(), 34);
}

#[test]
fn a_line_is_answered_without_its_line_feed() {
    let settings = Settings::standard();
    let table = "| Card  |  Buy  | Sell  |\n\
                 |-------|-------|-------|\n\
                 |  17   |  19   |  20   |\n";
    assert_eq!(
        answer_line("17\n", &settings),
        Ok(Reply { text: table.to_string(), ends_session: false })
    );
    assert_eq!(
        answer_line("17", &settings),
        Ok(Reply { text: table.to_string(), ends_session: false })
    );
    assert_eq!(
        answer_line("e\n", &settings),
        Ok(Reply { text: String::new(), ends_session: true })
    );
    assert_eq!(
        answer_line("h\n", &settings),
        Ok(Reply {
            text: help(1, 100, &settings.buy_markup, &settings.sell_markup),
            ends_session: false
        })
    );
    assert_eq!(
        answer_line("abc\n", &settings),
        Ok(Reply {
            text: "[ERR]: Input is not a known command or number\n".to_string(),
            ends_session: false
        })
    );
    assert_eq!(
        answer_line("1-2\n", &settings).unwrap().text,
        format!(
            "[DBG]: Found range: 1-2\n{}",
            price_calc_multiple(1, 2, &settings.buy_markup, &settings.sell_markup)
        )
    );
    assert_eq!(
        answer_line("e\n\n", &settings),
        Ok(Reply {
            text: "[ERR]: Input is not a known command or number\n".to_string(),
            ends_session: false
        })
    );
    assert_eq!(answer_line("\n", &settings).unwrap().ends_session, false);
}

#[test]
fn a_session_of_several_lines() {
    let settings = Settings::standard();
    let mut shown = String::new();
    let mut lines_taken = 0;
    for entered in ["abc\n", "h\n", "17\n", "15-17\n", "e\n", "17\n"] {
        let reply = answer_line(entered, &settings).unwrap();
        shown.push_str(&reply.text);
        lines_taken += 1;
        if reply.ends_session {
            break;
        }
    }
    assert_eq!(lines_taken, 5);
    let expected = format!(
        "[ERR]: Input is not a known command or number\n{}{}[DBG]: Found range: 15-17\n{}",
        help(1, 100, &settings.buy_markup, &settings.sell_markup),
        price_calc(17, &settings.buy_markup, &settings.sell_markup),
        price_calc_multiple(15, 17, &settings.buy_markup, &settings.sell_markup)
    );
    assert_eq!(shown, expected);
}
