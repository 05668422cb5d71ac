use vstd::prelude::*;
use vstd::string::*;
use crate::number::{Number, reduced, sum_of, quotient_of};
use crate::ingredient::{Amount, AmountView, amounts_view};

verus! {

pub open spec fn is_digit(c: char) -> bool {
    '0' <= c && c <= '9'
}

/// An ASCII letter.
pub open spec fn is_alpha(c: char) -> bool {
    ('a' <= c && c <= 'z') || ('A' <= c && c <= 'Z')
}

/// A blank: space or tab.
pub open spec fn is_space(c: char) -> bool {
    c == ' ' || c == '\t'
}

/// A character that may stand in an ingredient's name: a letter, a blank or a hyphen.
pub open spec fn is_name_char(c: char) -> bool {
    is_alpha(c) || is_space(c) || c == '-'
}

/// A character of the two Unicode ranges of vulgar fractions (U+00BC to U+00BE, U+2150 to U+215E).
pub open spec fn is_frac_char(c: char) -> bool {
    ('\u{bc}' <= c && c <= '\u{be}') || ('\u{2150}' <= c && c <= '\u{215e}')
}

pub open spec fn is_line_end(c: char) -> bool {
    c == '\n' || c == '\r'
}

pub open spec fn digit_pred() -> spec_fn(char) -> bool {
    |c: char| is_digit(c)
}

pub open spec fn space_pred() -> spec_fn(char) -> bool {
    |c: char| is_space(c)
}

pub open spec fn alpha_pred() -> spec_fn(char) -> bool {
    |c: char| is_alpha(c)
}

pub open spec fn name_pred() -> spec_fn(char) -> bool {
    |c: char| is_name_char(c)
}

/// Any character but a line break.
pub open spec fn text_pred() -> spec_fn(char) -> bool {
    |c: char| !is_line_end(c)
}

pub open spec fn blank_pred() -> spec_fn(char) -> bool {
    |c: char| c == ' '
}

/// The end of the longest run, starting at `p`, of characters that satisfy `f`.
pub open spec fn span(s: Seq<char>, p: int, f: spec_fn(char) -> bool) -> int
    decreases s.len() - p,
{
    if 0 <= p < s.len() && f(s[p]) {
        span(s, p + 1, f)
    } else {
        p
    }
}

pub open spec fn digits(s: Seq<char>, p: int) -> int {
    span(s, p, digit_pred())
}

pub open spec fn blanks(s: Seq<char>, p: int) -> int {
    span(s, p, space_pred())
}

pub open spec fn digit_value(c: char) -> nat {
    (c as u32 - '0' as u32) as nat
}

/// The value of the decimal digits `s[a..b]`.
pub open spec fn digits_value(s: Seq<char>, a: int, b: int) -> nat
    decreases b - a,
{
    if a < b {
        digits_value(s, a, b - 1) * 10 + digit_value(s[b - 1])
    } else {
        0
    }
}

pub open spec fn pow10(k: nat) -> nat
    decreases k,
{
    if k == 0 {
        1
    } else {
        10 * pow10((k - 1) as nat)
    }
}

/// Whether `t` stands in `s` at `p`.
pub open spec fn starts_with(s: Seq<char>, p: int, t: Seq<char>) -> bool {
    0 <= p && p + t.len() <= s.len() && s.subrange(p, p + t.len()) == t
}

/// The most digits that a decimal may have: its value and scale then fit in 128 bits.
pub const MAX_DIGITS: usize = 38;

/// A decimal with integer digits `s[a..b]` and fraction digits `s[c..d]`, ending at `d`.
pub open spec fn decimal_parts(s: Seq<char>, a: int, b: int, c: int, d: int) -> Option<(int, Number)> {
    let k = (d - c) as nat;
    if (b - a) + (d - c) <= MAX_DIGITS {
        Some((d, reduced((digits_value(s, a, b) * pow10(k) + digits_value(s, c, d)) as u128, pow10(k) as u128)))
    } else {
        None
    }
}

/// An unsigned decimal at `p`: `123`, `1.`, `1.25` or `.5`, of at most `MAX_DIGITS` digits.
pub open spec fn decimal(s: Seq<char>, p: int) -> Option<(int, Number)> {
    let i = digits(s, p);
    if i > p {
        if i < s.len() && s[i] == '.' {
            decimal_parts(s, p, i, i + 1, digits(s, i + 1))
        } else {
            decimal_parts(s, p, i, i, i)
        }
    } else if 0 <= p < s.len() && s[p] == '.' && digits(s, p + 1) > p + 1 {
        decimal_parts(s, p, p, p + 1, digits(s, p + 1))
    } else {
        None
    }
}

/// A run that stops at `q` ends at `q`.
pub proof fn lemma_span_exact(s: Seq<char>, p: int, q: int, f: spec_fn(char) -> bool)
    requires
        0 <= p <= q <= s.len(),
        forall|j: int| p <= j < q ==> f(#[trigger] s[j]),
        q == s.len() || !f(s[q]),
    ensures
        span(s, p, f) == q,
    decreases q - p,
{
    if p < q {
        lemma_span_exact(s, p + 1, q, f);
    }
}

/// Every character of a run satisfies the predicate, wherever the run starts.
pub proof fn lemma_span_chars(s: Seq<char>, p: int, f: spec_fn(char) -> bool)
    ensures
        p <= span(s, p, f),
        0 <= p <= s.len() ==> span(s, p, f) <= s.len(),
        forall|i: int| p <= i < span(s, p, f) ==> f(#[trigger] s[i]),
    decreases s.len() - p,
{
    if 0 <= p < s.len() && f(s[p]) {
        lemma_span_chars(s, p + 1, f);
    }
}

pub proof fn lemma_trim_end(s: Seq<char>, q: int, lo: int)
    requires
        lo <= q,
    ensures
        lo <= trim_end(s, q, lo) <= q,
    decreases q - lo,
{
    if lo < q && s[q - 1] == ' ' {
        lemma_trim_end(s, q - 1, lo);
    }
}

pub proof fn lemma_span_bounds(s: Seq<char>, p: int, f: spec_fn(char) -> bool)
    requires
        0 <= p <= s.len(),
    ensures
        p <= span(s, p, f) <= s.len(),
        forall|i: int| p <= i < span(s, p, f) ==> f(#[trigger] s[i]),
        span(s, p, f) < s.len() ==> !f(s[span(s, p, f)]),
    decreases s.len() - p,
{
    if p < s.len() && f(s[p]) {
        lemma_span_bounds(s, p + 1, f);
    }
}

proof fn lemma_digits_value_bound(s: Seq<char>, a: int, b: int)
    requires
        a <= b,
        forall|i: int| a <= i < b ==> is_digit(#[trigger] s[i]),
    ensures
        digits_value(s, a, b) < pow10((b - a) as nat),
    decreases b - a,
{
    if a < b {
        lemma_digits_value_bound(s, a, b - 1);
        let v = digits_value(s, a, b - 1);
        let p = pow10((b - 1 - a) as nat);
        let d = digit_value(s[b - 1]);
        assert(pow10((b - a) as nat) == 10 * p);
        assert(v * 10 + d < 10 * p) by (nonlinear_arith)
            requires v < p, d < 10;
    }
}

pub proof fn lemma_pow10_mul(x: nat, y: nat)
    ensures
        pow10(x) * pow10(y) == pow10(x + y),
        pow10(x) >= 1,
    decreases x,
{
    if x > 0 {
        lemma_pow10_mul((x - 1) as nat, y);
        let a = pow10((x - 1) as nat);
        let b = pow10(y);
        assert(pow10(x + y) == 10 * pow10((x - 1 + y) as nat));
        assert(pow10(x) == 10 * a);
        assert((10 * a) * b == 10 * (a * b)) by (nonlinear_arith);
        assert(a * b == pow10(((x - 1) as nat + y) as nat));
        assert(((x - 1) as nat + y) as nat == (x + y - 1) as nat);
    } else {
        assert(pow10(x) == 1);
        assert(1 * pow10(y) == pow10(y));
    }
}

pub proof fn lemma_pow10_38()
    ensures
        2 * pow10(38) < u128::MAX,
{
    reveal_with_fuel(pow10, 39);
}

pub proof fn lemma_pow10_mono(x: nat, y: nat)
    requires
        x <= y,
    ensures
        pow10(x) <= pow10(y),
    decreases y,
{
    if x < y {
        lemma_pow10_mono(x, (y - 1) as nat);
    }
}

/// End of the run of `s[p..]` whose characters are digits.
fn scan_digits(s: &Vec<char>, p: usize) -> (e: usize)
    requires
        p <= s@.len(),
    ensures
        e == digits(s@, p as int),
        p <= e <= s@.len(),
{
    proof {
        lemma_span_bounds(s@, p as int, digit_pred());
    }
    let mut i = p;
    while i < s.len() && '0' <= s[i] && s[i] <= '9'
        invariant
            p <= i <= s@.len(),
            digits(s@, i as int) == digits(s@, p as int),
        decreases s@.len() - i,
    {
        i = i + 1;
    }
    i
}

/// End of the run of `s[p..]` whose characters are blanks.
pub fn scan_blanks(s: &Vec<char>, p: usize) -> (e: usize)
    requires
        p <= s@.len(),
    ensures
        e == blanks(s@, p as int),
        p <= e <= s@.len(),
{
    let mut i = p;
    while i < s.len() && (s[i] == ' ' || s[i] == '\t')
        invariant
            p <= i <= s@.len(),
            blanks(s@, i as int) == blanks(s@, p as int),
        decreases s@.len() - i,
    {
        i = i + 1;
    }
    i
}

/// The value of the digits `s[a..b]`.
fn read_digits(s: &Vec<char>, a: usize, b: usize) -> (r: u128)
    requires
        a <= b <= s@.len(),
        b - a <= MAX_DIGITS,
        forall|i: int| a <= i < b ==> is_digit(#[trigger] s@[i]),
    ensures
        r == digits_value(s@, a as int, b as int),
{
    let mut v: u128 = 0;
    let mut i = a;
    while i < b
        invariant
            a <= i <= b <= s@.len(),
            b - a <= MAX_DIGITS,
            forall|j: int| a <= j < b ==> is_digit(#[trigger] s@[j]),
            v == digits_value(s@, a as int, i as int),
        decreases b - i,
    {
        proof {
            lemma_digits_value_bound(s@, a as int, i as int);
            lemma_pow10_mono((i - a) as nat, 37);
            lemma_pow10_38();
            assert(pow10(38) == 10 * pow10(37));
            assert(v * 10 + 9 <= u128::MAX) by (nonlinear_arith)
                requires v < pow10(37), 10 * pow10(37) < u128::MAX;
        }
        let d = (s[i] as u32 - '0' as u32) as u128;
        v = v * 10 + d;
        i = i + 1;
    }
    v
}

fn power_of_ten(k: usize) -> (r: u128)
    requires
        k <= MAX_DIGITS,
    ensures
        r == pow10(k as nat),
{
    let mut r: u128 = 1;
    let mut i: usize = 0;
    while i < k
        invariant
            i <= k <= MAX_DIGITS,
            r == pow10(i as nat),
        decreases k - i,
    {
        proof {
            lemma_pow10_mono((i + 1) as nat, 38);
            lemma_pow10_38();
        }
        r = r * 10;
        i = i + 1;
    }
    r
}

fn make_decimal(s: &Vec<char>, a: usize, b: usize, c: usize, d: usize) -> (r: Option<(usize, Number)>)
    requires
        a <= b <= c <= d <= s@.len(),
        forall|i: int| a <= i < b ==> is_digit(#[trigger] s@[i]),
        forall|i: int| c <= i < d ==> is_digit(#[trigger] s@[i]),
    ensures
        lift(r) == decimal_parts(s@, a as int, b as int, c as int, d as int),
        r matches Some(x) ==> x.1.wf() && x.0 == d,
{
    if (b - a) + (d - c) > MAX_DIGITS {
        return None;
    }
    let iv = read_digits(s, a, b);
    let fv = read_digits(s, c, d);
    let k = d - c;
    let scale = power_of_ten(k);
    proof {
        lemma_digits_value_bound(s@, a as int, b as int);
        lemma_digits_value_bound(s@, c as int, d as int);
        lemma_pow10_mul((b - a) as nat, k as nat);
        lemma_pow10_mono(((b - a) + k) as nat, 38);
        lemma_pow10_38();
        let pi = pow10((b - a) as nat);
        assert(iv * scale + fv < pi * scale) by (nonlinear_arith)
            requires iv < pi, fv < scale;
    }
    let mant = iv * scale + fv;
    Some((d, Number::new(mant, scale)))
}

/// An unsigned decimal at `p`.
pub fn scan_decimal(s: &Vec<char>, p: usize) -> (r: Option<(usize, Number)>)
    requires
        p <= s@.len(),
    ensures
        lift(r) == decimal(s@, p as int),
        r matches Some(x) ==> x.1.wf() && p < x.0 <= s@.len(),
{
    proof {
        lemma_span_bounds(s@, p as int, digit_pred());
    }
    let i = scan_digits(s, p);
    if i > p {
        if i < s.len() && s[i] == '.' {
            proof {
                lemma_span_bounds(s@, i + 1, digit_pred());
            }
            let j = scan_digits(s, i + 1);
            make_decimal(s, p, i, i + 1, j)
        } else {
            make_decimal(s, p, i, i, i)
        }
    } else if p < s.len() && s[p] == '.' {
        proof {
            lemma_span_bounds(s@, p + 1, digit_pred());
        }
        let j = scan_digits(s, p + 1);
        if j > p + 1 {
            make_decimal(s, p, p, p + 1, j)
        } else {
            None
        }
    } else {
        None
    }
}

/// A parse result with its end position as a mathematical integer.
pub open spec fn lift<T>(r: Option<(usize, T)>) -> Option<(int, T)> {
    match r {
        Some((e, v)) => Some((e as int, v)),
        None => None,
    }
}

/// The value of a vulgar-fraction glyph whose value is known: ¾, ⅛, ¼, ⅓ and ½.
pub open spec fn glyph_value(c: char) -> Option<Number> {
    if c == '\u{be}' {
        Some(Number { num: 3, den: 4 })
    } else if c == '\u{215b}' {
        Some(Number { num: 1, den: 8 })
    } else if c == '\u{bc}' {
        Some(Number { num: 1, den: 4 })
    } else if c == '\u{2153}' {
        Some(Number { num: 1, den: 3 })
    } else if c == '\u{bd}' {
        Some(Number { num: 1, den: 2 })
    } else {
        None
    }
}

/// A vulgar-fraction glyph at `p`; a glyph of unknown value counts as zero.
pub open spec fn vulgar(s: Seq<char>, p: int) -> Option<(int, Number)> {
    if 0 <= p < s.len() && is_frac_char(s[p]) {
        Some((
            p + 1,
            match glyph_value(s[p]) {
                Some(v) => v,
                None => Number { num: 0, den: 1 },
            },
        ))
    } else {
        None
    }
}

pub open spec fn plus(r: Option<(int, Number)>, w: Number) -> Option<(int, Number)> {
    match r {
        Some((e, f)) => match sum_of(w, f) {
            Some(v) => Some((e, v)),
            None => None,
        },
        None => None,
    }
}

/// A glyph, with an optional decimal and blanks before it: `¼`, `1¼`, `1 ¼`.
pub open spec fn mixed_vulgar(s: Seq<char>, p: int) -> Option<(int, Number)> {
    match decimal(s, p) {
        Some((e, w)) => plus(vulgar(s, blanks(s, e)), w),
        None => vulgar(s, p),
    }
}

/// A slash fraction of two decimals: `1/4`, `1.5/2`. A zero divisor matches nothing.
pub open spec fn slash(s: Seq<char>, p: int) -> Option<(int, Number)> {
    match decimal(s, p) {
        Some((e, a)) => if e < s.len() && s[e] == '/' {
            match decimal(s, e + 1) {
                Some((e2, b)) => match quotient_of(a, b) {
                    Some(v) => Some((e2, v)),
                    None => None,
                },
                None => None,
            }
        } else {
            None
        },
        None => None,
    }
}

/// A slash fraction, with an optional decimal and at least one blank before it: `1/4`, `1 1/4`.
pub open spec fn mixed_slash(s: Seq<char>, p: int) -> Option<(int, Number)> {
    match decimal(s, p) {
        Some((e, w)) => if blanks(s, e) > e {
            plus(slash(s, blanks(s, e)), w)
        } else {
            slash(s, p)
        },
        None => slash(s, p),
    }
}

pub open spec fn fraction(s: Seq<char>, p: int) -> Option<(int, Number)> {
    match mixed_vulgar(s, p) {
        Some(r) => Some(r),
        None => mixed_slash(s, p),
    }
}

/// A numeral: a fraction form, the word `one`, or a decimal, tried in that order.
pub open spec fn numeral(s: Seq<char>, p: int) -> Option<(int, Number)> {
    match fraction(s, p) {
        Some(r) => Some(r),
        None => if starts_with(s, p, "one"@) {
            Some((p + "one"@.len(), Number { num: 1, den: 1 }))
        } else {
            decimal(s, p)
        },
    }
}

/// A numeral, then optionally blanks, `-`, blanks and a second numeral as its upper bound.
pub open spec fn num_or_range(s: Seq<char>, p: int) -> Option<(int, Number, Option<Number>)> {
    match numeral(s, p) {
        Some((e, v)) => {
            let q = blanks(s, e);
            if q < s.len() && s[q] == '-' {
                match numeral(s, blanks(s, q + 1)) {
                    Some((e2, u)) => Some((e2, v, Some(u))),
                    None => Some((e, v, None)),
                }
            } else {
                Some((e, v, None))
            }
        },
        None => None,
    }
}

pub open spec fn alphas(s: Seq<char>, p: int) -> int {
    span(s, p, alpha_pred())
}

/// One amount: an optional `about ` (dropped), a numeral or range, optional blanks, and a unit of letters.
pub open spec fn amount(s: Seq<char>, p: int) -> Option<(int, AmountView)> {
    let q = if starts_with(s, p, "about "@) { p + "about "@.len() } else { p };
    match num_or_range(s, q) {
        Some((e, v, u)) => {
            let r = blanks(s, e);
            let a = alphas(s, r);
            if a > r {
                Some((a, AmountView { unit: s.subrange(r, a), value: v, upper_value: u }))
            } else {
                None
            }
        },
        None => None,
    }
}

/// The separator between two amounts, the first of `"; "`, `" / "`, `" "`, `", "`, `"/"` at `p`.
pub open spec fn separator(s: Seq<char>, p: int) -> Option<int> {
    if starts_with(s, p, "; "@) {
        Some(p + "; "@.len())
    } else if starts_with(s, p, " / "@) {
        Some(p + " / "@.len())
    } else if starts_with(s, p, " "@) {
        Some(p + " "@.len())
    } else if starts_with(s, p, ", "@) {
        Some(p + ", "@.len())
    } else if starts_with(s, p, "/"@) {
        Some(p + "/"@.len())
    } else {
        None
    }
}

/// Two amounts and a separator; the second may be a parenthesised group.
pub open spec fn amount_pair(s: Seq<char>, p: int) -> Option<(int, Seq<AmountView>)>
    decreases s.len() - p, 1int,
{
    match amount(s, p) {
        Some((e, a)) => match separator(s, e) {
            Some(q) => if p < q <= s.len() {
                match paren_amounts(s, q) {
                    Some((e2, l)) => Some((e2, seq![a] + l)),
                    None => match amount(s, q) {
                        Some((e2, b)) => Some((e2, seq![a, b])),
                        None => None,
                    },
                }
            } else {
                None
            },
            None => None,
        },
        None => None,
    }
}

/// An amount group: two amounts, or else one.
pub open spec fn amount_group(s: Seq<char>, p: int) -> Option<(int, Seq<AmountView>)>
    decreases s.len() - p, 2int,
{
    match amount_pair(s, p) {
        Some(r) => Some(r),
        None => match amount(s, p) {
            Some((e, a)) => Some((e, seq![a])),
            None => None,
        },
    }
}

/// An amount group between `(` and `)`.
pub open spec fn paren_amounts(s: Seq<char>, p: int) -> Option<(int, Seq<AmountView>)>
    decreases s.len() - p, 0int,
{
    if 0 <= p < s.len() && s[p] == '(' {
        match amount_group(s, p + 1) {
            Some((e, l)) => if 0 <= e < s.len() && s[e] == ')' {
                Some((e + 1, l))
            } else {
                None
            },
            None => None,
        }
    } else {
        None
    }
}

/// Whether the characters of `t` stand in `s` at `p`.
pub fn looking_at(s: &Vec<char>, p: usize, t: &str) -> (r: bool)
    requires
        p <= s@.len(),
    ensures
        r == starts_with(s@, p as int, t@),
        r ==> p + t@.len() <= usize::MAX,
{
    let n = t.unicode_len();
    if n > s.len() - p {
        return false;
    }
    let mut i: usize = 0;
    while i < n
        invariant
            n == t@.len(),
            i <= n,
            s@.len() <= usize::MAX,
            p + n <= s@.len(),
            forall|j: int| 0 <= j < i ==> s@[p + j] == t@[j],
        decreases n - i,
    {
        if s[p + i] != t.get_char(i) {
            assert(s@.subrange(p as int, p + n)[i as int] != t@[i as int]);
            return false;
        }
        i = i + 1;
    }
    assert(s@.subrange(p as int, p + n) =~= t@);
    true
}

pub fn glyph_number(c: char) -> (r: Option<Number>)
    ensures
        r == glyph_value(c),
{
    if c == '\u{be}' {
        Some(Number { num: 3, den: 4 })
    } else if c == '\u{215b}' {
        Some(Number { num: 1, den: 8 })
    } else if c == '\u{bc}' {
        Some(Number { num: 1, den: 4 })
    } else if c == '\u{2153}' {
        Some(Number { num: 1, den: 3 })
    } else if c == '\u{bd}' {
        Some(Number { num: 1, den: 2 })
    } else {
        None
    }
}

pub fn frac_char(c: char) -> (r: bool)
    ensures
        r == is_frac_char(c),
{
    ('\u{bc}' <= c && c <= '\u{be}') || ('\u{2150}' <= c && c <= '\u{215e}')
}

fn scan_vulgar(s: &Vec<char>, p: usize) -> (r: Option<(usize, Number)>)
    requires
        p <= s@.len(),
    ensures
        lift(r) == vulgar(s@, p as int),
        r matches Some(x) ==> x.1.wf() && p < x.0 <= s@.len(),
{
    if p < s.len() && frac_char(s[p]) {
        let v = match glyph_number(s[p]) {
            Some(v) => v,
            None => Number { num: 0, den: 1 },
        };
        Some((p + 1, v))
    } else {
        None
    }
}

fn add_whole(r: Option<(usize, Number)>, w: Number) -> (o: Option<(usize, Number)>)
    requires
        w.wf(),
        r matches Some(x) ==> x.1.wf(),
    ensures
        lift(o) == plus(lift(r), w),
        o matches Some(x) ==> r matches Some(y) && x.0 == y.0 && x.1.wf(),
{
    match r {
        Some((e, f)) => match w.add(&f) {
            Some(v) => Some((e, v)),
            None => None,
        },
        None => None,
    }
}

fn scan_mixed_vulgar(s: &Vec<char>, p: usize) -> (r: Option<(usize, Number)>)
    requires
        p <= s@.len(),
    ensures
        lift(r) == mixed_vulgar(s@, p as int),
        r matches Some(x) ==> x.1.wf() && p < x.0 <= s@.len(),
{
    match scan_decimal(s, p) {
        Some((e, w)) => {
            let q = scan_blanks(s, e);
            add_whole(scan_vulgar(s, q), w)
        },
        None => scan_vulgar(s, p),
    }
}

fn scan_slash(s: &Vec<char>, p: usize) -> (r: Option<(usize, Number)>)
    requires
        p <= s@.len(),
    ensures
        lift(r) == slash(s@, p as int),
        r matches Some(x) ==> x.1.wf() && p < x.0 <= s@.len(),
{
    match scan_decimal(s, p) {
        Some((e, a)) => if e < s.len() && s[e] == '/' {
            match scan_decimal(s, e + 1) {
                Some((e2, b)) => match a.div(&b) {
                    Some(v) => Some((e2, v)),
                    None => None,
                },
                None => None,
            }
        } else {
            None
        },
        None => None,
    }
}

fn scan_mixed_slash(s: &Vec<char>, p: usize) -> (r: Option<(usize, Number)>)
    requires
        p <= s@.len(),
    ensures
        lift(r) == mixed_slash(s@, p as int),
        r matches Some(x) ==> x.1.wf() && p < x.0 <= s@.len(),
{
    match scan_decimal(s, p) {
        Some((e, w)) => {
            let q = scan_blanks(s, e);
            if q > e {
                add_whole(scan_slash(s, q), w)
            } else {
                scan_slash(s, p)
            }
        },
        None => scan_slash(s, p),
    }
}

pub fn scan_fraction(s: &Vec<char>, p: usize) -> (r: Option<(usize, Number)>)
    requires
        p <= s@.len(),
    ensures
        lift(r) == fraction(s@, p as int),
        r matches Some(x) ==> x.1.wf() && p < x.0 <= s@.len(),
{
    match scan_mixed_vulgar(s, p) {
        Some(r) => Some(r),
        None => scan_mixed_slash(s, p),
    }
}

fn scan_numeral(s: &Vec<char>, p: usize) -> (r: Option<(usize, Number)>)
    requires
        p <= s@.len(),
    ensures
        lift(r) == numeral(s@, p as int),
        r matches Some(x) ==> x.1.wf() && p < x.0 <= s@.len(),
{
    match scan_fraction(s, p) {
        Some(r) => Some(r),
        None => if looking_at(s, p, "one") {
            proof {
                reveal_strlit("one");
            }
            Some((p + 3, Number { num: 1, den: 1 }))
        } else {
            scan_decimal(s, p)
        },
    }
}

fn scan_num_or_range(s: &Vec<char>, p: usize) -> (r: Option<(usize, Number, Option<Number>)>)
    requires
        p <= s@.len(),
    ensures
        match r {
            Some((e, v, u)) => num_or_range(s@, p as int) == Some((e as int, v, u)) && p < e <= s@.len()
                && v.wf() && (u matches Some(w) ==> w.wf()),
            None => num_or_range(s@, p as int) is None,
        },
{
    match scan_numeral(s, p) {
        Some((e, v)) => {
            let q = scan_blanks(s, e);
            if q < s.len() && s[q] == '-' {
                let t = scan_blanks(s, q + 1);
                match scan_numeral(s, t) {
                    Some((e2, u)) => Some((e2, v, Some(u))),
                    None => Some((e, v, None)),
                }
            } else {
                Some((e, v, None))
            }
        },
        None => None,
    }
}

fn scan_alphas(s: &Vec<char>, p: usize) -> (e: usize)
    requires
        p <= s@.len(),
    ensures
        e == alphas(s@, p as int),
        p <= e <= s@.len(),
{
    let mut i = p;
    while i < s.len() && (('a' <= s[i] && s[i] <= 'z') || ('A' <= s[i] && s[i] <= 'Z'))
        invariant
            p <= i <= s@.len(),
            alphas(s@, i as int) == alphas(s@, p as int),
        decreases s@.len() - i,
    {
        i = i + 1;
    }
    i
}

/// The characters `s[a..b]` of `text` as a `String`.
pub fn slice_text(text: &str, a: usize, b: usize) -> (r: String)
    requires
        a <= b <= text@.len(),
    ensures
        r@ == text@.subrange(a as int, b as int),
{
    String::from_str(text.substring_char(a, b))
}

pub open spec fn lift_amount(r: Option<(usize, Amount)>) -> Option<(int, AmountView)> {
    match r {
        Some((e, a)) => Some((e as int, a@)),
        None => None,
    }
}

pub open spec fn lift_amounts(r: Option<(usize, Vec<Amount>)>) -> Option<(int, Seq<AmountView>)> {
    match r {
        Some((e, l)) => Some((e as int, amounts_view(l@))),
        None => None,
    }
}

fn scan_amount(text: &str, s: &Vec<char>, p: usize) -> (r: Option<(usize, Amount)>)
    requires
        p <= s@.len(),
        s@ == text@,
    ensures
        lift_amount(r) == amount(s@, p as int),
        r matches Some(x) ==> p < x.0 <= s@.len() && x.1.wf(),
{
    let q = if looking_at(s, p, "about ") {
        proof {
            reveal_strlit("about ");
        }
        p + 6
    } else {
        p
    };
    match scan_num_or_range(s, q) {
        Some((e, v, u)) => {
            let r = scan_blanks(s, e);
            let a = scan_alphas(s, r);
            if a > r {
                Some((a, Amount { unit: slice_text(text, r, a), value: v, upper_value: u }))
            } else {
                None
            }
        },
        None => None,
    }
}

fn scan_separator(s: &Vec<char>, p: usize) -> (r: Option<usize>)
    requires
        p <= s@.len(),
    ensures
        match r {
            Some(q) => separator(s@, p as int) == Some(q as int) && p <= q <= s@.len(),
            None => separator(s@, p as int) is None,
        },
{
    proof {
        reveal_strlit("; ");
        reveal_strlit(" / ");
        reveal_strlit(" ");
        reveal_strlit(", ");
        reveal_strlit("/");
    }
    if looking_at(s, p, "; ") {
        Some(p + 2)
    } else if looking_at(s, p, " / ") {
        Some(p + 3)
    } else if looking_at(s, p, " ") {
        Some(p + 1)
    } else if looking_at(s, p, ", ") {
        Some(p + 2)
    } else if looking_at(s, p, "/") {
        Some(p + 1)
    } else {
        None
    }
}

pub open spec fn all_wf(v: Seq<Amount>) -> bool {
    forall|i: int| 0 <= i < v.len() ==> (#[trigger] v[i]).wf()
}

#[verifier::rlimit(40)]
fn scan_amount_pair(text: &str, s: &Vec<char>, p: usize) -> (r: Option<(usize, Vec<Amount>)>)
    requires
        p <= s@.len(),
        s@ == text@,
    ensures
        lift_amounts(r) == amount_pair(s@, p as int),
        r matches Some(x) ==> p < x.0 <= s@.len() && all_wf(x.1@),
    decreases s@.len() - p, 1int,
{
    match scan_amount(text, s, p) {
        Some((e, a)) => match scan_separator(s, e) {
            Some(q) => {
                match scan_paren_amounts(text, s, q) {
                    Some((e2, mut l)) => {
                        let mut v: Vec<Amount> = Vec::new();
                        v.push(a);
                        let ghost first = v@;
                        let ghost rest = l@;
                        v.append(&mut l);
                        proof {
                            assert(v@ == first + rest);
                            assert(amounts_view(v@) =~= seq![a@] + amounts_view(rest));
                        }
                        Some((e2, v))
                    },
                    None => match scan_amount(text, s, q) {
                        Some((e2, b)) => {
                            let v = vec![a, b];
                            proof {
                                assert(amounts_view(v@) =~= seq![a@, b@]);
                            }
                            Some((e2, v))
                        },
                        None => None,
                    },
                }
            },
            None => None,
        },
        None => None,
    }
}

pub fn scan_amount_group(text: &str, s: &Vec<char>, p: usize) -> (r: Option<(usize, Vec<Amount>)>)
    requires
        p <= s@.len(),
        s@ == text@,
    ensures
        lift_amounts(r) == amount_group(s@, p as int),
        r matches Some(x) ==> p < x.0 <= s@.len() && all_wf(x.1@),
    decreases s@.len() - p, 2int,
{
    match scan_amount_pair(text, s, p) {
        Some(r) => Some(r),
        None => match scan_amount(text, s, p) {
            Some((e, a)) => {
                let v = vec![a];
                proof {
                    assert(amounts_view(v@) =~= seq![a@]);
                }
                Some((e, v))
            },
            None => None,
        },
    }
}

fn scan_paren_amounts(text: &str, s: &Vec<char>, p: usize) -> (r: Option<(usize, Vec<Amount>)>)
    requires
        p <= s@.len(),
        s@ == text@,
    ensures
        lift_amounts(r) == paren_amounts(s@, p as int),
        r matches Some(x) ==> p < x.0 <= s@.len() && all_wf(x.1@),
    decreases s@.len() - p, 0int,
{
    if p < s.len() && s[p] == '(' {
        match scan_amount_group(text, s, p + 1) {
            Some((e, l)) => if e < s.len() && s[e] == ')' {
                Some((e + 1, l))
            } else {
                None
            },
            None => None,
        }
    } else {
        None
    }
}

pub open spec fn name_chars(s: Seq<char>, p: int) -> int {
    span(s, p, name_pred())
}

pub open spec fn line_chars(s: Seq<char>, p: int) -> int {
    span(s, p, text_pred())
}

pub open spec fn spaces(s: Seq<char>, p: int) -> int {
    span(s, p, blank_pred())
}

/// The end of `s[lo..q]` once the spaces at its end are dropped.
pub open spec fn trim_end(s: Seq<char>, q: int, lo: int) -> int
    decreases q - lo,
{
    if lo < q && s[q - 1] == ' ' {
        trim_end(s, q - 1, lo)
    } else {
        q
    }
}

/// `s[a..b]` without the spaces at either end.
pub open spec fn trimmed(s: Seq<char>, a: int, b: int) -> Seq<char> {
    let a2 = spaces(s, a);
    if a2 >= b {
        Seq::empty()
    } else {
        s.subrange(a2, trim_end(s, b, a2))
    }
}

/// The leading amount group, if any, with its end.
pub open spec fn leading(s: Seq<char>) -> (int, Seq<AmountView>) {
    match amount_group(s, 0) {
        Some((e, l)) => (e, l),
        None => (0, Seq::empty()),
    }
}

pub open spec fn name_start(s: Seq<char>) -> int {
    blanks(s, leading(s).0)
}

pub open spec fn name_end(s: Seq<char>) -> int {
    name_chars(s, name_start(s))
}

/// The parenthesised amount group after the name, if any, with its end.
pub open spec fn trailing(s: Seq<char>) -> (int, Seq<AmountView>) {
    match paren_amounts(s, name_end(s)) {
        Some((e, l)) => (e, l),
        None => (name_end(s), Seq::empty()),
    }
}

/// Where the modifier starts: after `", "` if that follows, else right after the trailing group.
pub open spec fn modifier_start(s: Seq<char>) -> int {
    let e = trailing(s).0;
    if starts_with(s, e, ", "@) {
        e + ", "@.len()
    } else {
        e
    }
}

/// Where the modifier ends: at the first line break, or at the end of the text.
pub open spec fn modifier_end(s: Seq<char>) -> int {
    line_chars(s, modifier_start(s))
}

/// The modifier stops at a carriage return that no line feed follows: the line does not parse.
pub open spec fn stops_at_lone_cr(s: Seq<char>) -> bool {
    let e = modifier_end(s);
    e < s.len() && s[e] == '\r' && !(e + 1 < s.len() && s[e + 1] == '\n')
}

fn scan_name_chars(s: &Vec<char>, p: usize) -> (e: usize)
    requires
        p <= s@.len(),
    ensures
        e == name_chars(s@, p as int),
        p <= e <= s@.len(),
{
    let mut i = p;
    while i < s.len() && (('a' <= s[i] && s[i] <= 'z') || ('A' <= s[i] && s[i] <= 'Z') || s[i] == ' '
        || s[i] == '\t' || s[i] == '-')
        invariant
            p <= i <= s@.len(),
            name_chars(s@, i as int) == name_chars(s@, p as int),
        decreases s@.len() - i,
    {
        i = i + 1;
    }
    i
}

fn scan_line_chars(s: &Vec<char>, p: usize) -> (e: usize)
    requires
        p <= s@.len(),
    ensures
        e == line_chars(s@, p as int),
        p <= e <= s@.len(),
{
    let mut i = p;
    while i < s.len() && s[i] != '\n' && s[i] != '\r'
        invariant
            p <= i <= s@.len(),
            line_chars(s@, i as int) == line_chars(s@, p as int),
        decreases s@.len() - i,
    {
        i = i + 1;
    }
    i
}

/// The name `s[a..b]` with the spaces at either end dropped, as a `String`.
fn trimmed_text(text: &str, s: &Vec<char>, a: usize, b: usize) -> (r: String)
    requires
        a <= b <= s@.len(),
        s@ == text@,
        forall|i: int| a <= i < b ==> is_name_char(#[trigger] s@[i]),
        b < s@.len() ==> !is_name_char(s@[b as int]),
    ensures
        r@ == trimmed(s@, a as int, b as int),
{
    proof {
        lemma_span_bounds(s@, a as int, blank_pred());
    }
    let mut i = a;
    while i < s.len() && s[i] == ' '
        invariant
            a <= i <= s@.len(),
            spaces(s@, i as int) == spaces(s@, a as int),
        decreases s@.len() - i,
    {
        i = i + 1;
    }
    if i >= b {
        return String::new();
    }
    let mut j = b;
    while j > i && s[j - 1] == ' '
        invariant
            i <= j <= b <= s@.len(),
            trim_end(s@, j as int, i as int) == trim_end(s@, b as int, i as int),
        decreases j,
    {
        j = j - 1;
    }
    slice_text(text, i, j)
}

/// What the line rule reads from a text: the name, the amounts in order, the modifier
/// text and where reading stopped; or, where the modifier runs into a lone carriage
/// return, the position where the modifier started.
pub fn scan_line(text: &str, s: &Vec<char>) -> (r: Result<(usize, String, Vec<Amount>, String), usize>)
    requires
        s@ == text@,
    ensures
        match r {
            Ok((e, name, amounts, modifier)) => !stops_at_lone_cr(s@)
                && e == modifier_end(s@) && e <= s@.len()
                && name@ == trimmed(s@, name_start(s@), name_end(s@))
                && amounts_view(amounts@) == leading(s@).1 + trailing(s@).1
                && modifier@ == s@.subrange(modifier_start(s@), modifier_end(s@))
                && all_wf(amounts@),
            Err(p) => stops_at_lone_cr(s@) && p == modifier_start(s@) && p <= s@.len(),
        },
{
    let (e1, mut amounts) = match scan_amount_group(text, s, 0) {
        Some((e, l)) => (e, l),
        None => (0, Vec::new()),
    };
    proof {
        assert(amounts_view(amounts@) == leading(s@).1);
    }
    let e2 = scan_blanks(s, e1);
    proof {
        lemma_span_bounds(s@, e2 as int, name_pred());
    }
    let e3 = scan_name_chars(s, e2);
    let name = trimmed_text(text, s, e2, e3);
    let ghost lead = amounts@;
    let e4 = match scan_paren_amounts(text, s, e3) {
        Some((e, mut l)) => {
            let ghost more = l@;
            amounts.append(&mut l);
            proof {
                assert(amounts@ == lead + more);
                assert(amounts_view(amounts@) =~= amounts_view(lead) + amounts_view(more));
            }
            e
        },
        None => {
            proof {
                assert(amounts_view(amounts@) =~= amounts_view(lead) + Seq::empty());
            }
            e3
        },
    };
    let e5 = if looking_at(s, e4, ", ") {
        proof {
            reveal_strlit(", ");
        }
        e4 + 2
    } else {
        e4
    };
    let e6 = scan_line_chars(s, e5);
    if e6 < s.len() && s[e6] == '\r' && !(e6 + 1 < s.len() && s[e6 + 1] == '\n') {
        return Err(e5);
    }
    let modifier = slice_text(text, e5, e6);
    Ok((e6, name, amounts, modifier))
}

/// The characters of `text`, one by one.
pub fn chars_of(text: &str) -> (r: Vec<char>)
    ensures
        r@ == text@,
{
    let n = text.unicode_len();
    let mut r: Vec<char> = Vec::new();
    let mut i: usize = 0;
    while i < n
        invariant
            n == text@.len(),
            i <= n,
            r@ == text@.subrange(0, i as int),
        decreases n - i,
    {
        r.push(text.get_char(i));
        i = i + 1;
        proof {
            assert(r@ =~= text@.subrange(0, i as int));
        }
    }
    proof {
        assert(r@ =~= text@);
    }
    r
}

} // verus!
