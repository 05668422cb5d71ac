use ingredient::{from_str, fraction_number, parse_amount, parse_ingredient, v_frac_to_num};
use ingredient::{Amount, Ingredient, Number, ParseError};

fn as_f32(n: Number) -> f32 {
    n.num as f32 / n.den as f32
}

fn whole(n: u128) -> Number {
    Number::whole(n)
}

fn ratio(n: u128, d: u128) -> Number {
    Number::new(n, d)
}

#[test]
fn test_fraction() {
    assert_eq!(fraction_number("1 ⅛"), Ok(("", ratio(9, 8))));
    assert_eq!(fraction_number("1 1/8"), Ok(("", ratio(9, 8))));
    assert_eq!(as_f32(ratio(9, 8)), 1.125);
    assert_eq!(fraction_number("1⅓"), Ok(("", ratio(4, 3))));
    assert_eq!(as_f32(fraction_number("1⅓").unwrap().1), 1.3333334);
    assert_eq!(fraction_number("¼"), Ok(("", ratio(1, 4))));
    assert_eq!(fraction_number("1/4"), Ok(("", ratio(1, 4))));
    assert_eq!(fraction_number("⅐"), Ok(("", whole(0)))); // unknown glyphs count as zero
    assert_eq!(
        fraction_number("1"),
        Err(ParseError {
            section: "fraction_number".to_string(),
            at: "1".to_string(),
        })
    );
}

#[test]
fn test_v_fraction() {
    assert_eq!(v_frac_to_num(&'⅛'), Ok(ratio(1, 8)));
    assert_eq!(v_frac_to_num(&'¼'), Ok(ratio(1, 4)));
    assert_eq!(v_frac_to_num(&'½'), Ok(ratio(1, 2)));
    assert_eq!(as_f32(v_frac_to_num(&'⅛').unwrap()), 0.125);
}

#[test]
fn test_amount_range() {
    assert_eq!(
        parse_amount("2¼-2.5 cups").unwrap(),
        vec![Amount::new_with_upper("cups", ratio(9, 4), ratio(5, 2))]
    );
    assert_eq!(
        parse_amount("2¼-2.5 cups").unwrap(),
        parse_amount("2 ¼ - 2.5 cups").unwrap()
    );
    assert_eq!(
        Ingredient::try_from("1-2 cups flour"),
        Ok(Ingredient {
            name: "flour".to_string(),
            amounts: vec![Amount::new_with_upper("cups", whole(1), whole(2))],
            modifier: None,
        })
    );
}

#[test]
fn test_ingredient_parse() {
    assert_eq!(
        Ingredient::try_from("12 cups flour"),
        Ok(Ingredient {
            name: "flour".to_string(),
            amounts: vec![Amount::new("cups", whole(12))],
            modifier: None,
        })
    );
    assert_eq!(
        parse_ingredient("egg"),
        Ok((
            "",
            Ingredient {
                name: "egg".to_string(),
                amounts: vec![],
                modifier: None,
            }
        ))
    );
    assert_eq!(
        parse_ingredient("1 egg"),
        Ok((
            "",
            Ingredient {
                name: "egg".to_string(),
                amounts: vec![Amount {
                    unit: "whole".to_string(),
                    value: whole(1),
                    upper_value: None,
                }],
                modifier: None,
            }
        ))
    );
    assert_eq!(
        format!("res: {}", from_str("12 cups flour", false).unwrap().to_string()),
        "res: 12 cups flour"
    );
    assert_eq!(
        from_str("one whole egg", true).unwrap().to_string(),
        "1 whole egg"
    );
    assert_eq!(
        from_str("1 cup (125.5 grams) AP flour, sifted", false)
            .unwrap()
            .to_string(),
        "1 cup / 125.5 grams AP flour, sifted"
    );
    assert_eq!(
        parse_ingredient("12 cups all purpose flour, lightly sifted"),
        Ok((
            "",
            Ingredient {
                name: "all purpose flour".to_string(),
                amounts: vec![Amount {
                    upper_value: None,
                    unit: "cups".to_string(),
                    value: whole(12)
                }],
                modifier: Some("lightly sifted".to_string()),
            }
        ))
    );

    assert_eq!(
        parse_ingredient("1¼  cups / 155.5 grams flour"),
        Ok((
            "",
            Ingredient {
                name: "flour".to_string(),
                amounts: vec![Amount::new("cups", ratio(5, 4)), Amount::new("grams", ratio(1555, 10))],
                modifier: None,
            }
        ))
    );

    assert_eq!(
        parse_ingredient("0.25 ounces (1 packet, about 2 teaspoons) instant or rapid rise yeast"),
        Ok((
            "",
            Ingredient {
                name: "instant or rapid rise yeast".to_string(),
                amounts: vec![
                    Amount::new("ounces", ratio(1, 4)),
                    Amount::new("packet", whole(1)),
                    Amount::new("teaspoons", whole(2)),
                ],
                modifier: None
            }
        ))
    );
    assert_eq!(
        parse_ingredient("6 ounces unsalted butter (1½ sticks; 168.75g)"),
        Ok((
            "",
            Ingredient {
                name: "unsalted butter".to_string(),
                amounts: vec![
                    Amount::new("ounces", whole(6)),
                    Amount::new("sticks", ratio(3, 2)),
                    Amount::new("g", ratio(16875, 100)),
                ],
                modifier: None
            }
        ))
    );
    assert_eq!(
        parse_ingredient("1 ½ cups/192 grams all-purpose flour"),
        parse_ingredient("1 1/2 cups / 192 grams all-purpose flour")
    );
}
