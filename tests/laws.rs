use ingredient::{fraction_number, from_str, parse_amount, parse_ingredient, v_frac_to_num};
use ingredient::{Amount, Ingredient, Number, ParseError};

fn ratio(n: u128, d: u128) -> Number {
    Number::new(n, d)
}

#[test]
fn plain_decimals_read_exactly() {
    assert_eq!(fraction_number("3.5"), Err(ParseError { section: "fraction_number".to_string(), at: "3.5".to_string() }));
    assert_eq!(parse_amount("3.5 g").unwrap(), vec![Amount::new("g", ratio(7, 2))]);
    assert_eq!(parse_amount("0.125 g").unwrap(), vec![Amount::new("g", ratio(1, 8))]);
    assert_eq!(parse_amount(".5 g").unwrap(), vec![Amount::new("g", ratio(1, 2))]);
    assert_eq!(parse_amount("2. g").unwrap(), vec![Amount::new("g", Number::whole(2))]);
    assert_eq!(parse_amount("007 g").unwrap(), vec![Amount::new("g", Number::whole(7))]);
}

#[test]
fn decimal_digit_limit() {
    let long = "123456789012345678901234567890123456789 g";
    assert!(parse_amount(long).is_err());
    let ok = "12345678901234567890123456789012345678 g";
    assert_eq!(
        parse_amount(ok).unwrap()[0].value,
        Number::whole(12345678901234567890123456789012345678)
    );
}

#[test]
fn mixed_numbers_add() {
    assert_eq!(fraction_number("2 3/4 cups"), Ok((" cups", ratio(11, 4))));
    assert_eq!(fraction_number("1 1/8"), Ok(("", ratio(9, 8))));
    assert_eq!(fraction_number("1.5/3"), Ok(("", ratio(1, 2))));
}

#[test]
fn zero_divisor_is_no_fraction() {
    assert!(fraction_number("1/0").is_err());
    assert_eq!(parse_amount("1/0 cup").is_err(), true);
}

#[test]
fn known_glyphs() {
    assert_eq!(fraction_number("¼"), Ok(("", ratio(1, 4))));
    assert_eq!(fraction_number("½"), Ok(("", ratio(1, 2))));
    assert_eq!(fraction_number("⅛"), Ok(("", ratio(1, 8))));
    assert_eq!(fraction_number("⅓"), Ok(("", ratio(1, 3))));
    assert_eq!(fraction_number("¾"), Ok(("", ratio(3, 4))));
    assert_eq!(v_frac_to_num(&'¾'), Ok(ratio(3, 4)));
    assert_eq!(v_frac_to_num(&'⅓'), Ok(ratio(1, 3)));
}

#[test]
fn unknown_glyph_is_zero() {
    assert_eq!(fraction_number("⅞"), Ok(("", Number::whole(0))));
    assert_eq!(fraction_number("2⅜"), Ok(("", Number::whole(2))));
    assert_eq!(v_frac_to_num(&'⅞'), Err("unkown fraction: ⅞".to_string()));
    assert_eq!(v_frac_to_num(&'x'), Err("unkown fraction: x".to_string()));
}

#[test]
fn ranges_ignore_blanks_around_dash() {
    let expected = vec![Amount::new_with_upper("cups", Number::whole(1), Number::whole(2))];
    assert_eq!(parse_amount("1-2 cups").unwrap(), expected);
    assert_eq!(parse_amount("1 - 2 cups").unwrap(), expected);
    assert_eq!(parse_amount("1\t-  2 cups").unwrap(), expected);
    assert_eq!(parse_amount("1 -2cups").unwrap(), expected);
}

#[test]
fn range_without_upper_numeral() {
    assert_eq!(
        parse_ingredient("1 - cups"),
        Ok((
            "",
            Ingredient {
                name: "".to_string(),
                amounts: vec![],
                modifier: Some("1 - cups".to_string()),
            }
        ))
    );
}

#[test]
fn every_separator_joins_two_amounts() {
    let expected = vec![Amount::new("cup", Number::whole(1)), Amount::new("grams", Number::whole(120))];
    for sep in ["; ", " / ", " ", ", ", "/"] {
        let text = format!("1 cup{}120 grams", sep);
        assert_eq!(parse_amount(&text).unwrap(), expected, "separator {:?}", sep);
    }
}

#[test]
fn separator_order_prefers_slash_with_blanks() {
    assert_eq!(
        parse_amount("1 cup / 2 g").unwrap(),
        vec![Amount::new("cup", Number::whole(1)), Amount::new("g", Number::whole(2))]
    );
}

#[test]
fn about_is_dropped() {
    assert_eq!(parse_amount("about 2 teaspoons").unwrap(), vec![Amount::new("teaspoons", Number::whole(2))]);
}

#[test]
fn one_as_a_word() {
    assert_eq!(parse_amount("one egg").unwrap(), vec![Amount::new("egg", Number::whole(1))]);
}

#[test]
fn trailing_group_appends_in_order() {
    let (_, i) = parse_ingredient("2 cups milk (1 pint; 473 ml), cold").unwrap();
    assert_eq!(i.name, "milk");
    assert_eq!(
        i.amounts,
        vec![
            Amount::new("cups", Number::whole(2)),
            Amount::new("pint", Number::whole(1)),
            Amount::new("ml", Number::whole(473)),
        ]
    );
    assert_eq!(i.modifier, Some("cold".to_string()));
}

#[test]
fn nested_groups_flatten() {
    assert_eq!(
        parse_amount("1 cup (2 g (3 oz))").unwrap(),
        vec![
            Amount::new("cup", Number::whole(1)),
            Amount::new("g", Number::whole(2)),
            Amount::new("oz", Number::whole(3)),
        ]
    );
}

#[test]
fn bare_quantity_reclassifies() {
    let i = from_str("3 lemons", false).unwrap();
    assert_eq!(i.name, "lemons");
    assert_eq!(i.amounts, vec![Amount::new("whole", Number::whole(3))]);
    let i = from_str("2 cups", false).unwrap();
    assert_eq!(i.name, "cups");
    assert_eq!(i.amounts, vec![Amount::new("whole", Number::whole(2))]);
    let i = from_str("(2 eggs)", false).unwrap();
    assert_eq!(i.name, "eggs");
    assert_eq!(i.amounts, vec![Amount::new("whole", Number::whole(2))]);
}

#[test]
fn two_amounts_without_name_stay() {
    let i = from_str("1 cup / 2 g", false).unwrap();
    assert_eq!(i.name, "");
    assert_eq!(i.amounts.len(), 2);
}

#[test]
fn modifier_verbatim_and_empty_absent() {
    let i = from_str("salt,  to taste 2x!", false).unwrap();
    assert_eq!(i.name, "salt");
    assert_eq!(i.modifier, Some(" to taste 2x!".to_string()));
    let i = from_str("salt, ", false).unwrap();
    assert_eq!(i.modifier, None);
    let i = from_str("salt", false).unwrap();
    assert_eq!(i.modifier, None);
}

#[test]
fn lone_carriage_return_is_an_error() {
    assert_eq!(
        parse_ingredient("1 cup flour\rx"),
        Err(ParseError { section: "modifier".to_string(), at: "\rx".to_string() })
    );
    assert_eq!(
        from_str("salt, a\rb", false),
        Err("failed to parse 'salt, a\rb': expected a line end at: a\rb".to_string())
    );
    assert_eq!(
        from_str("salt, a\rb", true),
        Err("failed to parse 'salt, a\rb': expected a line end at: a\rb\nin section 'modifier', at character 6\nin section 'ingredient', at character 0".to_string())
    );
    assert!(Ingredient::try_from("x\r").is_err());
}

#[test]
fn line_feed_ends_the_line() {
    assert_eq!(parse_ingredient("1 egg\r\nmore").unwrap().0, "\r\nmore");
    assert_eq!(parse_ingredient("1 egg\nmore").unwrap().0, "\nmore");
}

#[test]
fn amount_error_message() {
    assert_eq!(parse_amount("flour"), Err("failed to parse 'flour': no amount at the start".to_string()));
}

#[test]
fn scenario_twelve_cups() {
    let i = from_str("12 cups flour", false).unwrap();
    assert_eq!(i.name, "flour");
    assert_eq!(i.amounts, vec![Amount::new("cups", Number::whole(12))]);
    assert_eq!(i.modifier, None);
}

#[test]
fn formatting_numbers() {
    assert_eq!(Amount::new("cups", ratio(5, 4)).to_string(), "1.25 cups");
    assert_eq!(Amount::new("g", ratio(16875, 100)).to_string(), "168.75 g");
    assert_eq!(Amount::new("g", ratio(1, 8)).to_string(), "0.125 g");
    assert_eq!(Amount::new("cup", ratio(4, 3)).to_string(), "4/3 cup");
    assert_eq!(Amount::new("g", Number::whole(0)).to_string(), "0 g");
    assert_eq!(Amount::new("g", ratio(1, 20)).to_string(), "0.05 g");
}

#[test]
fn formatting_ingredients() {
    assert_eq!(from_str("egg", false).unwrap().to_string(), "n/a egg");
    assert_eq!(
        from_str("2 cups milk (1 pint), cold", false).unwrap().to_string(),
        "2 cups / 1 pint milk, cold"
    );
}

#[test]
fn range_with_slash_upper_bound() {
    assert_eq!(
        parse_amount("2 -1/2 cups").unwrap(),
        vec![Amount::new_with_upper("cups", Number::whole(2), ratio(1, 2))]
    );
    assert_eq!(
        parse_amount("2 ¼ - 2.5 cups").unwrap(),
        vec![Amount::new_with_upper("cups", ratio(9, 4), ratio(5, 2))]
    );
}

#[test]
fn failure_message_quotes_line() {
    for verbose in [false, true] {
        let e = from_str("a, b\rc", verbose).unwrap_err();
        assert!(e.starts_with("failed to parse 'a, b\rc': "));
    }
}

#[test]
fn glyphs_with_text_after() {
    assert_eq!(fraction_number("⅞ cup"), Ok((" cup", Number::whole(0))));
    assert_eq!(fraction_number("½cup"), Ok(("cup", ratio(1, 2))));
    assert_eq!(fraction_number("3 1/4 cups"), Ok((" cups", ratio(13, 4))));
}
