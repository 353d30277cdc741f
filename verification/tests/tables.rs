use waifucalc::markup::Markup;
use waifucalc::price::PriceRow;
use waifucalc::table::{
    center, price_calc, price_calc_multiple, render_cells, render_header, render_row, render_rule,
    render_table, CELL_WIDTH,
};

fn buy() -> Markup {
    Markup::standard_buy()
}

fn sell() -> Markup {
    Markup::standard_sell()
}

#[test]
fn the_table_of_17() {
    assert_eq!(
        price_calc(17, &buy(), &sell()),
        "| Card  |  Buy  | Sell  |\n|-------|-------|-------|\n|  17   |  19   |  20   |\n"
    );
}

#[test]
fn the_table_of_the_highest_card() {
    assert_eq!(
        price_calc(2147483647, &buy(), &sell()),
        "| Card  |  Buy  | Sell  |\n\
         |-------|-------|-------|\n\
         | 2147483647 | 2362232012 | 2576980376 |\n"
    );
    assert_eq!(
        price_calc_multiple(2147483646, 2147483647, &buy(), &sell()),
        "| Card  |  Buy  | Sell  |\n\
         |-------|-------|-------|\n\
         | 2147483646 | 2362232011 | 2576980375 |\n\
         | 2147483647 | 2362232012 | 2576980376 |\n"
    );
}

#[test]
fn the_table_of_15_to_17() {
    let expected = "| Card  |  Buy  | Sell  |\n\
                    |-------|-------|-------|\n\
                    |  15   |  17   |  18   |\n\
                    |  16   |  18   |  19   |\n\
                    |  17   |  19   |  20   |\n";
    assert_eq!(price_calc_multiple(15, 17, &buy(), &sell()), expected);
}

#[test]
fn the_table_of_an_empty_range_is_header_and_rule() {
    assert_eq!(
        price_calc_multiple(5, 1, &buy(), &sell()),
        "| Card  |  Buy  | Sell  |\n|-------|-------|-------|\n"
    );
}

#[test]
fn the_table_of_a_range_has_a_line_for_each_card() {
    for (lo, hi) in [(1, 100), (-5, 5), (3, 3)] {
        let text = price_calc_multiple(lo, hi, &buy(), &sell());
        let lines: Vec<&str> = text.lines().collect();
        assert_eq!(lines.len() as i32, 2 + (hi - lo + 1));
        assert!(text.ends_with('\n'));
        for (i, line) in lines.iter().skip(2).enumerate() {
            let card = lo + i as i32;
            let single = price_calc(card, &buy(), &sell());
            assert_eq!(Some(*line), single.lines().nth(2));
            assert!(line.starts_with(&format!("| {:^5} |", card)));
        }
    }
}

#[test]
fn custom_markups_reach_the_table() {
    let none = Markup { units: 0, scale: 0 };
    let double = Markup { units: 1, scale: 0 };
    assert_eq!(
        price_calc(21, &none, &double),
        "| Card  |  Buy  | Sell  |\n|-------|-------|-------|\n|  21   |  21   |  42   |\n"
    );
    assert_eq!(
        price_calc_multiple(1, 2, &none, &double),
        "| Card  |  Buy  | Sell  |\n\
         |-------|-------|-------|\n\
         |   1   |   1   |   2   |\n\
         |   2   |   2   |   4   |\n"
    );
}

#[test]
fn header_and_rule() {
    assert_eq!(render_header(), "| Card  |  Buy  | Sell  |");
    assert_eq!(render_header(), format!("| {:^5} | {:^5} | {:^5} |", "Card", "Buy", "Sell"));
    assert_eq!(render_rule(), "|-------|-------|-------|");
}

#[test]
fn center_agrees_with_the_standard_formatter() {
    assert_eq!(CELL_WIDTH, 5);
    let samples =
        ["", "1", "17", "-17", "Buy", "Card", "12345", "123456", "-2147483648", "\u{e9}t\u{e9}"];
    for text in samples {
        assert_eq!(center(text, 5), format!("{:^5}", text), "{:?}", text);
        assert_eq!(center(text, 0), format!("{:^0}", text), "{:?}", text);
        assert_eq!(center(text, 8), format!("{:^8}", text), "{:?}", text);
    }
    assert_eq!(center("17", 5), " 17  ");
    assert_eq!(center("Buy", 5), " Buy ");
    assert_eq!(center("Card", 5), "Card ");
}

#[test]
fn rows_agree_with_the_standard_formatter() {
    let samples = [
        (17, 19, 20),
        (0, 0, 0),
        (-5, -6, -6),
        (1, 1, 1),
        (999, 1099, 1199),
        (99999, 109999, 119999),
        (123456, 135802, 148147),
        (i32::MAX, 2_362_232_012, 2_576_980_376),
        (i32::MIN, i128::MIN, i128::MAX),
    ];
    for (card, buy, sell) in samples {
        let row = PriceRow { card, buy, sell };
        assert_eq!(render_row(&row), format!("| {:^5} | {:^5} | {:^5} |", card, buy, sell));
    }
    assert_eq!(render_row(&PriceRow { card: 17, buy: 19, sell: 20 }), "|  17   |  19   |  20   |");
    assert_eq!(render_cells("a", "bb", "ccc"), "|   a   |  bb   |  ccc  |");
}

#[test]
fn a_table_keeps_the_order_of_its_rows() {
    let rows = vec![
        PriceRow { card: 3, buy: 2, sell: 1 },
        PriceRow { card: 1, buy: 2, sell: 3 },
    ];
    assert_eq!(
        render_table(&rows),
        "| Card  |  Buy  | Sell  |\n\
         |-------|-------|-------|\n\
         |   3   |   2   |   1   |\n\
         |   1   |   2   |   3   |\n"
    );
    assert_eq!(render_table(&Vec::new()), "| Card  |  Buy  | Sell  |\n|-------|-------|-------|\n");
}
