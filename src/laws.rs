use vstd::prelude::*;
use crate::grammar::{
    amount, amount_group, fraction, decimal_parts, mixed_vulgar, blank_pred, blanks, decimal, digit_pred, digits, digits_value,
    glyph_value, is_alpha, is_digit, is_frac_char, is_name_char, is_space, leading,
    lemma_span_chars, lemma_span_exact, lemma_trim_end, modifier_end, modifier_start,
    name_end, name_pred, name_start, numeral, paren_amounts, pow10, separator, space_pred,
    alpha_pred, num_or_range, span, starts_with, stops_at_lone_cr, trailing, trimmed, MAX_DIGITS,
};
use crate::ingredient::{AmountView, failure_message, ingredient_line, modifier_of};
use crate::number::{Number, quotient_of, reduced, sum_of};

verus! {

/// A plain decimal, digits with an optional `.` and fraction digits, reads as exactly its
/// value: the digits taken as a whole number, over ten to the number of fraction digits.
/// What follows it may be anything that does not go on with the numeral: not a digit, `.`,
/// blank, `/` or vulgar-fraction glyph.
pub proof fn law_plain_decimal(s: Seq<char>, i: int, n: int)
    requires
        1 <= i <= n <= s.len(),
        forall|j: int| 0 <= j < i ==> is_digit(#[trigger] s[j]),
        i == n || (s[i] == '.' && forall|j: int| i < j < n ==> is_digit(#[trigger] s[j])),
        n == s.len() || (!is_digit(s[n]) && s[n] != '.' && !is_space(s[n]) && s[n] != '/'
            && !is_frac_char(s[n])),
        (if i == n { i } else { n - 1 }) <= MAX_DIGITS,
    ensures
        numeral(s, 0) == Some((
            n,
            if i == n {
                reduced(digits_value(s, 0, i) as u128, 1)
            } else {
                reduced(
                    (digits_value(s, 0, i) * pow10((n - i - 1) as nat) + digits_value(s, i + 1, n)) as u128,
                    pow10((n - i - 1) as nat) as u128,
                )
            },
        )),
{
    reveal_strlit("one");
    lemma_span_exact(s, 0, i, digit_pred());
    assert(digits(s, 0) == i);
    if i < n {
        lemma_span_exact(s, i + 1, n, digit_pred());
        assert(digits(s, i + 1) == n);
    } else {
        assert(pow10(0) == 1);
        assert(digits_value(s, i, i) == 0);
    }
    let d = decimal(s, 0);
    assert(d matches Some((e, _)) && e == n);
    lemma_span_exact(s, n, n, space_pred());
    assert(blanks(s, n) == n);
    assert(fraction(s, 0) is None);
    assert(!starts_with(s, 0, "one"@)) by {
        if starts_with(s, 0, "one"@) {
            assert(s.subrange(0, 3)[0] == 'o');
        }
    }
    assert(numeral(s, 0) == decimal(s, 0));
    if i < n {
        assert(decimal(s, 0) == decimal_parts(s, 0, i, i + 1, n));
        assert(i + (n - (i + 1)) <= MAX_DIGITS);
        assert(decimal_parts(s, 0, i, i + 1, n) is Some);
    } else {
        assert(decimal(s, 0) == decimal_parts(s, 0, i, i, i));
        let dv = digits_value(s, 0, i);
        assert(pow10(0) == 1);
        let z = digits_value(s, i, i);
        assert(z == 0);
        assert(dv * pow10(0) + z == dv) by (nonlinear_arith)
            requires pow10(0) == 1, z == 0;
    }
}

/// A glyph of known value reads as that value, whatever follows it: ¼ as 1/4, ½ as 1/2,
/// ¾ as 3/4, ⅓ as 1/3, ⅛ as 1/8; `fraction_number` reads it so too.
pub proof fn law_known_glyph(s: Seq<char>)
    requires
        s.len() >= 1,
        glyph_value(s[0]) is Some,
    ensures
        numeral(s, 0) == Some((1int, glyph_value(s[0])->Some_0)),
        fraction(s, 0) == Some((1int, glyph_value(s[0])->Some_0)),
        s[0] == '\u{bc}' ==> glyph_value(s[0]) == Some(Number { num: 1, den: 4 }),
        s[0] == '\u{bd}' ==> glyph_value(s[0]) == Some(Number { num: 1, den: 2 }),
        s[0] == '\u{be}' ==> glyph_value(s[0]) == Some(Number { num: 3, den: 4 }),
        s[0] == '\u{2153}' ==> glyph_value(s[0]) == Some(Number { num: 1, den: 3 }),
        s[0] == '\u{215b}' ==> glyph_value(s[0]) == Some(Number { num: 1, den: 8 }),
{
    lemma_span_exact(s, 0, 0, digit_pred());
}

/// A vulgar-fraction glyph of unknown value still reads, as zero, whatever follows it;
/// `fraction_number` reads it so too.
pub proof fn law_unknown_glyph(s: Seq<char>)
    requires
        s.len() >= 1,
        is_frac_char(s[0]),
        glyph_value(s[0]) is None,
    ensures
        numeral(s, 0) == Some((1int, Number { num: 0, den: 1 })),
        fraction(s, 0) == Some((1int, Number { num: 0, den: 1 })),
{
    lemma_span_exact(s, 0, 0, digit_pred());
}

/// A run of digits not followed by `.` reads as the whole number it writes.
proof fn lemma_whole_decimal(s: Seq<char>, p: int, q: int)
    requires
        0 <= p < q <= s.len(),
        forall|j: int| p <= j < q ==> is_digit(#[trigger] s[j]),
        q == s.len() || (!is_digit(s[q]) && s[q] != '.'),
        q - p <= MAX_DIGITS,
    ensures
        decimal(s, p) == Some((q, reduced(digits_value(s, p, q) as u128, 1))),
{
    lemma_span_exact(s, p, q, digit_pred());
    assert(decimal(s, p) == decimal_parts(s, p, q, q, q));
    let dv = digits_value(s, p, q);
    let z = digits_value(s, q, q);
    assert(z == 0);
    assert(pow10(0) == 1);
    assert(dv * pow10(0) + z == dv) by (nonlinear_arith)
        requires pow10(0) == 1, z == 0;
}

/// A whole number, a blank and a slash fraction, `a b/c`, read as `a + b/c`, whatever
/// follows that does not continue the last number.
pub proof fn law_mixed_number(s: Seq<char>, i: int, j: int, n: int)
    requires
        1 <= i,
        i + 1 < j,
        j + 1 < n <= s.len(),
        forall|k: int| 0 <= k < i ==> is_digit(#[trigger] s[k]),
        s[i] == ' ',
        forall|k: int| i < k < j ==> is_digit(#[trigger] s[k]),
        s[j] == '/',
        forall|k: int| j < k < n ==> is_digit(#[trigger] s[k]),
        n == s.len() || (!is_digit(s[n]) && s[n] != '.'),
        i <= MAX_DIGITS,
        j - i - 1 <= MAX_DIGITS,
        n - j - 1 <= MAX_DIGITS,
        quotient_of(
            reduced(digits_value(s, i + 1, j) as u128, 1),
            reduced(digits_value(s, j + 1, n) as u128, 1),
        ) matches Some(f) && sum_of(reduced(digits_value(s, 0, i) as u128, 1), f) is Some,
    ensures
        numeral(s, 0) == Some((
            n,
            sum_of(
                reduced(digits_value(s, 0, i) as u128, 1),
                quotient_of(
                    reduced(digits_value(s, i + 1, j) as u128, 1),
                    reduced(digits_value(s, j + 1, n) as u128, 1),
                )->Some_0,
            )->Some_0,
        )),
{
    lemma_whole_decimal(s, 0, i);
    lemma_whole_decimal(s, i + 1, j);
    lemma_whole_decimal(s, j + 1, n);
    lemma_span_exact(s, i, i + 1, space_pred());
    assert(blanks(s, i) == i + 1);
    assert(!is_frac_char(s[i + 1]));
    assert(mixed_vulgar(s, 0) is None);
}

/// A numeral, blanks, `-`, blanks, a second numeral, blanks and a unit read as one amount
/// whose value is the first numeral and whose upper bound is the second, whatever the
/// blanks around the dash.
pub proof fn law_range(s: Seq<char>, i: int, k: int, m: int, n: int, r: int, a: Number, b: Number)
    requires
        numeral(s, 0) == Some((i, a)),
        0 <= i <= k < m <= n <= r < s.len(),
        forall|j: int| i <= j < k ==> is_space(#[trigger] s[j]),
        s[k] == '-',
        forall|j: int| k < j < m ==> is_space(#[trigger] s[j]),
        numeral(s, m) == Some((n, b)),
        forall|j: int| n <= j < r ==> is_space(#[trigger] s[j]),
        forall|j: int| r <= j < s.len() ==> is_alpha(#[trigger] s[j]),
    ensures
        amount(s, 0) == Some((
            s.len() as int,
            AmountView { unit: s.subrange(r, s.len() as int), value: a, upper_value: Some(b) },
        )),
{
    reveal_strlit("about ");
    if starts_with(s, 0, "about "@) {
        assert(s.subrange(0, 6)[0] == 'a');
        lemma_no_numeral(s, 0);
    }
    if is_space(s[m]) {
        lemma_no_numeral(s, m);
    }
    lemma_span_exact(s, i, k, space_pred());
    lemma_span_exact(s, k + 1, m, space_pred());
    lemma_span_exact(s, n, r, space_pred());
    lemma_span_exact(s, r, s.len() as int, alpha_pred());
    assert(blanks(s, n) == r);
}

/// No numeral starts with a character that is not a digit, `.`, a vulgar-fraction glyph or `o`.
proof fn lemma_no_numeral(s: Seq<char>, q: int)
    requires
        0 <= q < s.len(),
        !is_digit(s[q]),
        s[q] != '.',
        !is_frac_char(s[q]),
        s[q] != 'o',
    ensures
        numeral(s, q) is None,
{
    reveal_strlit("one");
    assert(!starts_with(s, q, "one"@)) by {
        if starts_with(s, q, "one"@) {
            assert(s.subrange(q, q + 3)[0] == 'o');
        }
    }
    lemma_span_exact(s, q, q, digit_pred());
    assert(decimal(s, q) is None);
}

/// An amount does not start with `(`.
proof fn lemma_amount_not_paren(s: Seq<char>, q: int)
    requires
        0 <= q < s.len(),
        s[q] == '(',
    ensures
        amount(s, q) is None,
{
    reveal_strlit("about ");
    assert(!starts_with(s, q, "about "@)) by {
        if starts_with(s, q, "about "@) {
            assert(s.subrange(q, q + 6)[0] == 'a');
        }
    }
    lemma_no_numeral(s, q);
}

/// Two amounts joined by one of the separators `"; "`, `" / "`, `" "`, `", "`, `"/"` read
/// as a list of those two amounts, in the order of the text.
pub proof fn law_two_amounts(s: Seq<char>, e: int, a: AmountView, q: int, e2: int, b: AmountView)
    requires
        amount(s, 0) == Some((e, a)),
        0 <= e,
        separator(s, e) == Some(q),
        amount(s, q) == Some((e2, b)),
    ensures
        amount_group(s, 0) == Some((e2, seq![a, b])),
{
    reveal_strlit("; ");
    reveal_strlit(" / ");
    reveal_strlit(" ");
    reveal_strlit(", ");
    reveal_strlit("/");
    assert(0 < q <= s.len());
    if q < s.len() && s[q] == '(' {
        lemma_amount_not_paren(s, q);
    }
    assert(paren_amounts(s, q) is None);
}

/// A parenthesised amount group after the name adds its amounts after the leading ones,
/// in the order of the text: none of its characters stands in the name, and the modifier
/// starts after it.
pub proof fn law_trailing_group(s: Seq<char>, e: int, l: Seq<AmountView>)
    requires
        !stops_at_lone_cr(s),
        paren_amounts(s, name_end(s)) == Some((e, l)),
        trimmed(s, name_start(s), name_end(s)).len() > 0 || (leading(s).1 + l).len() != 1,
    ensures
        ingredient_line(s) matches Some((end, v)) && v.amounts == leading(s).1 + l
            && (forall|i: int| 0 <= i < v.name.len() ==> is_name_char(#[trigger] v.name[i])),
        modifier_start(s) >= e,
{
    let a = name_start(s);
    let b = name_end(s);
    lemma_span_chars(s, a, name_pred());
    lemma_span_chars(s, a, blank_pred());
    let a2 = span(s, a, blank_pred());
    if a2 < b {
        lemma_trim_end(s, b, a2);
        let t = trimmed(s, a, b);
        assert forall|i: int| 0 <= i < t.len() implies is_name_char(#[trigger] t[i]) by {
            assert(t[i] == s[a2 + i]);
        }
    }
    reveal_strlit(", ");
}

/// A line fails to parse only where its modifier runs into a carriage return that no
/// line feed follows; every other line reads as an ingredient.
pub proof fn law_only_lone_cr_fails(s: Seq<char>)
    ensures
        ingredient_line(s) is None <==> stops_at_lone_cr(s),
{
}

/// A numeral, blanks, `-`, blanks and a second numeral read as a range from the first to
/// the second, whatever the blanks around the dash and whatever follows.
pub proof fn law_range_numerals(s: Seq<char>, i: int, k: int, m: int, n: int, a: Number, b: Number)
    requires
        numeral(s, 0) == Some((i, a)),
        0 <= i <= k < m < s.len(),
        forall|j: int| i <= j < k ==> is_space(#[trigger] s[j]),
        s[k] == '-',
        forall|j: int| k < j < m ==> is_space(#[trigger] s[j]),
        numeral(s, m) == Some((n, b)),
    ensures
        num_or_range(s, 0) == Some((n, a, Some(b))),
{
    if is_space(s[m]) {
        lemma_no_numeral(s, m);
    }
    lemma_span_exact(s, i, k, space_pred());
    lemma_span_exact(s, k + 1, m, space_pred());
}

/// The message of a line that does not parse starts by quoting the line.
pub proof fn law_failure_quotes_line(s: Seq<char>, p: int, verbose: bool)
    requires
        0 <= p <= s.len(),
    ensures
        failure_message(s, p, verbose).take(("failed to parse '"@ + s + "': "@).len() as int)
            == "failed to parse '"@ + s + "': "@,
{
    reveal_strlit("failed to parse '");
    reveal_strlit("': ");
    reveal_strlit("': expected a line end at: ");
    let pre = "failed to parse '"@ + s + "': "@;
    assert(failure_message(s, p, verbose).take(pre.len() as int) =~= pre);
}

} // verus!
