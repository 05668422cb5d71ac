use vstd::prelude::*;
use vstd::string::*;
use crate::format::{char_text, decimal_text, nat_text};
use crate::grammar::{
    amount_group, chars_of, fraction, glyph_number, glyph_value, leading, modifier_end,
    modifier_start, name_end, name_start, scan_amount_group, scan_fraction, scan_line,
    stops_at_lone_cr, trailing, trimmed,
};
use crate::number::Number;

verus! {

/// A quantity of some unit, with an upper bound where the text gave a range.
#[derive(Clone, Debug, PartialEq)]
pub struct Amount {
    pub unit: String,
    pub value: Number,
    pub upper_value: Option<Number>,
}

/// What an [`Amount`] holds, with its unit as a sequence of characters.
pub struct AmountView {
    pub unit: Seq<char>,
    pub value: Number,
    pub upper_value: Option<Number>,
}

impl View for Amount {
    type V = AmountView;

    open spec fn view(&self) -> AmountView {
        AmountView { unit: self.unit@, value: self.value, upper_value: self.upper_value }
    }
}

pub open spec fn amounts_view(v: Seq<Amount>) -> Seq<AmountView> {
    v.map_values(|a: Amount| a@)
}

impl Amount {
    pub open spec fn wf(&self) -> bool {
        self.value.wf() && (self.upper_value matches Some(u) ==> u.wf())
    }

    pub fn new(unit: &str, value: Number) -> (r: Amount)
        ensures
            r@ == (AmountView { unit: unit@, value, upper_value: None }),
    {
        Amount { unit: String::from_str(unit), value, upper_value: None }
    }

    pub fn new_with_upper(unit: &str, value: Number, upper: Number) -> (r: Amount)
        ensures
            r@ == (AmountView { unit: unit@, value, upper_value: Some(upper) }),
    {
        Amount { unit: String::from_str(unit), value, upper_value: Some(upper) }
    }
}

/// An ingredient line: its name, its amounts in the order of the text, and what
/// followed the name after a comma.
#[derive(Clone, Debug, PartialEq)]
pub struct Ingredient {
    pub name: String,
    pub amounts: Vec<Amount>,
    pub modifier: Option<String>,
}

pub struct IngredientView {
    pub name: Seq<char>,
    pub amounts: Seq<AmountView>,
    pub modifier: Option<Seq<char>>,
}

impl View for Ingredient {
    type V = IngredientView;

    open spec fn view(&self) -> IngredientView {
        IngredientView {
            name: self.name@,
            amounts: amounts_view(self.amounts@),
            modifier: match self.modifier {
                Some(m) => Some(m@),
                None => None,
            },
        }
    }
}

/// Where a rule of the grammar could not go on: the rule, and the text from there on.
#[derive(Clone, Debug, PartialEq)]
pub struct ParseError {
    pub section: String,
    pub at: String,
}

/// An empty modifier is no modifier.
pub open spec fn modifier_of(m: Seq<char>) -> Option<Seq<char>> {
    if m.len() == 0 {
        None
    } else {
        Some(m)
    }
}

/// The ingredient read from a name, amounts and modifier text. A line with no name and a
/// single amount, such as `1 egg`, names what stood as the unit, whose unit becomes `whole`.
pub open spec fn normalized(name: Seq<char>, amounts: Seq<AmountView>, modifier: Seq<char>) -> IngredientView {
    if name.len() == 0 && amounts.len() == 1 {
        IngredientView {
            name: amounts[0].unit,
            amounts: seq![
                AmountView {
                    unit: "whole"@,
                    value: amounts[0].value,
                    upper_value: amounts[0].upper_value,
                },
            ],
            modifier: modifier_of(modifier),
        }
    } else {
        IngredientView { name, amounts, modifier: modifier_of(modifier) }
    }
}

/// The ingredient that a line reads as, with where reading stopped; `None` where it does not parse.
pub open spec fn ingredient_line(s: Seq<char>) -> Option<(int, IngredientView)> {
    if stops_at_lone_cr(s) {
        None
    } else {
        Some((
            modifier_end(s),
            normalized(
                trimmed(s, name_start(s), name_end(s)),
                leading(s).1 + trailing(s).1,
                s.subrange(modifier_start(s), modifier_end(s)),
            ),
        ))
    }
}

/// Builds the ingredient from a name, amounts and modifier text (see [`normalized`]).
pub fn normalize(name: String, amounts: Vec<Amount>, modifier: String) -> (r: Ingredient)
    ensures
        r@ == normalized(name@, amounts_view(amounts@), modifier@),
{
    let m = if modifier.unicode_len() == 0 {
        None
    } else {
        Some(modifier)
    };
    if name.unicode_len() == 0 && amounts.len() == 1 {
        let only = &amounts[0];
        let whole = Amount {
            unit: String::from_str("whole"),
            value: only.value,
            upper_value: only.upper_value,
        };
        let name = only.unit.clone();
        let v = vec![whole];
        proof {
            assert(amounts_view(v@) =~= seq![whole@]);
        }
        Ingredient { name, amounts: v, modifier: m }
    } else {
        Ingredient { name, amounts, modifier: m }
    }
}

/// Parses an ingredient line such as `120 grams / 1 cup whole wheat flour, sifted lightly`,
/// and returns the text after it, which is empty or starts with a line break.
pub fn parse_ingredient(input: &str) -> (r: Result<(&str, Ingredient), ParseError>)
    ensures
        match r {
            Ok((rest, ing)) => ingredient_line(input@) == Some((input@.len() - rest@.len(), ing@))
                && rest@.len() <= input@.len()
                && rest@ == input@.subrange(input@.len() - rest@.len(), input@.len() as int),
            Err(e) => ingredient_line(input@) is None && e.section@ == "modifier"@
                && e.at@ == input@.subrange(modifier_start(input@), input@.len() as int),
        },
{
    let s = chars_of(input);
    match scan_line(input, &s) {
        Ok((e, name, amounts, modifier)) => {
            let rest = input.substring_char(e, s.len());
            Ok((rest, normalize(name, amounts, modifier)))
        },
        Err(p) => {
            let at = String::from_str(input.substring_char(p, s.len()));
            Err(ParseError { section: String::from_str("modifier"), at })
        },
    }
}

/// The message of a line that does not parse, whose modifier starts at `p`.
pub open spec fn failure_message(s: Seq<char>, p: int, verbose: bool) -> Seq<char> {
    let terse = "failed to parse '"@ + s + "': expected a line end at: "@ + s.subrange(p, s.len() as int);
    if verbose {
        terse + "\nin section 'modifier', at character "@ + nat_text(p as nat)
            + "\nin section 'ingredient', at character 0"@
    } else {
        terse
    }
}

/// Parses an ingredient line; on failure the message quotes the line and where it stopped,
/// and with `verbose_error` also the sections of the grammar that were being read.
pub fn from_str(input: &str, verbose_error: bool) -> (r: Result<Ingredient, String>)
    ensures
        match r {
            Ok(ing) => ingredient_line(input@) matches Some((e, v)) && ing@ == v,
            Err(m) => ingredient_line(input@) is None
                && m@ == failure_message(input@, modifier_start(input@), verbose_error),
        },
{
    let s = chars_of(input);
    match scan_line(input, &s) {
        Ok((_e, name, amounts, modifier)) => Ok(normalize(name, amounts, modifier)),
        Err(p) => {
            let mut m = String::from_str("failed to parse '");
            m.append(input);
            m.append("': expected a line end at: ");
            m.append(input.substring_char(p, s.len()));
            if verbose_error {
                m.append("\nin section 'modifier', at character ");
                let n = decimal_text(p as u128);
                m.append(n.as_str());
                m.append("\nin section 'ingredient', at character 0");
            }
            Err(m)
        },
    }
}

impl Ingredient {
    /// Parses an ingredient line, with verbose messages on failure (see [`from_str`]).
    pub fn try_from(value: &str) -> (r: Result<Ingredient, String>)
        ensures
            match r {
                Ok(ing) => ingredient_line(value@) matches Some((e, v)) && ing@ == v,
                Err(m) => ingredient_line(value@) is None
                    && m@ == failure_message(value@, modifier_start(value@), true),
            },
    {
        from_str(value, true)
    }
}

/// Parses one or two amounts at the start of `input`, such as `12 grams` or
/// `120 grams / 1 cup`; what follows them is not read.
pub fn parse_amount(input: &str) -> (r: Result<Vec<Amount>, String>)
    ensures
        match r {
            Ok(v) => amount_group(input@, 0) matches Some((e, l)) && amounts_view(v@) == l,
            Err(m) => amount_group(input@, 0) is None
                && m@ == "failed to parse '"@ + input@ + "': no amount at the start"@,
        },
{
    let s = chars_of(input);
    match scan_amount_group(input, &s, 0) {
        Some((_e, v)) => Ok(v),
        None => {
            let mut m = String::from_str("failed to parse '");
            m.append(input);
            m.append("': no amount at the start");
            Err(m)
        },
    }
}

/// Parses a number with a fraction at the start of `input`: `¼`, `1 ⅛`, `1/4` or `1 1/8`,
/// and returns the text after it with the value.
pub fn fraction_number(input: &str) -> (r: Result<(&str, Number), ParseError>)
    ensures
        match r {
            Ok((rest, v)) => fraction(input@, 0) == Some((input@.len() - rest@.len(), v))
                && rest@.len() <= input@.len()
                && rest@ == input@.subrange(input@.len() - rest@.len(), input@.len() as int),
            Err(e) => fraction(input@, 0) is None && e.section@ == "fraction_number"@ && e.at@ == input@,
        },
{
    let s = chars_of(input);
    match scan_fraction(&s, 0) {
        Some((e, v)) => Ok((input.substring_char(e, s.len()), v)),
        None => Err(ParseError { section: String::from_str("fraction_number"), at: String::from_str(input) }),
    }
}

/// The value of a vulgar-fraction glyph of known value: ¾, ⅛, ¼, ⅓ or ½.
pub fn v_frac_to_num(c: &char) -> (r: Result<Number, String>)
    ensures
        match r {
            Ok(v) => glyph_value(*c) == Some(v),
            Err(m) => glyph_value(*c) is None && m@ == "unkown fraction: "@ + seq![*c],
        },
{
    match glyph_number(*c) {
        Some(v) => Ok(v),
        None => {
            let mut m = String::from_str("unkown fraction: ");
            let t = char_text(*c);
            m.append(t.as_str());
            Err(m)
        },
    }
}

} // verus!
