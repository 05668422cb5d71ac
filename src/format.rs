use vstd::prelude::*;
use vstd::string::*;
use crate::grammar::{lemma_pow10_38, lemma_pow10_mono, pow10};
use crate::ingredient::{Amount, AmountView, Ingredient, IngredientView, amounts_view};
use crate::number::Number;

verus! {

pub open spec fn digit_char(d: nat) -> char {
    if d == 0 {
        '0'
    } else if d == 1 {
        '1'
    } else if d == 2 {
        '2'
    } else if d == 3 {
        '3'
    } else if d == 4 {
        '4'
    } else if d == 5 {
        '5'
    } else if d == 6 {
        '6'
    } else if d == 7 {
        '7'
    } else if d == 8 {
        '8'
    } else {
        '9'
    }
}

/// The decimal digits of `n`, without leading zeros.
pub open spec fn nat_text(n: nat) -> Seq<char>
    decreases n,
{
    if n < 10 {
        seq![digit_char(n)]
    } else {
        nat_text(n / 10) + seq![digit_char(n % 10)]
    }
}

/// The digit `d` as a one-character string.
fn digit_str(d: u128) -> (r: &'static str)
    requires
        d < 10,
    ensures
        r@ == seq![digit_char(d as nat)],
{
    if d == 0 {
        proof {
            reveal_strlit("0");
        }
        "0"
    } else
    if d == 1 {
        proof {
            reveal_strlit("1");
        }
        "1"
    } else
    if d == 2 {
        proof {
            reveal_strlit("2");
        }
        "2"
    } else
    if d == 3 {
        proof {
            reveal_strlit("3");
        }
        "3"
    } else
    if d == 4 {
        proof {
            reveal_strlit("4");
        }
        "4"
    } else
    if d == 5 {
        proof {
            reveal_strlit("5");
        }
        "5"
    } else
    if d == 6 {
        proof {
            reveal_strlit("6");
        }
        "6"
    } else
    if d == 7 {
        proof {
            reveal_strlit("7");
        }
        "7"
    } else
    if d == 8 {
        proof {
            reveal_strlit("8");
        }
        "8"
    } else {
        proof {
            reveal_strlit("9");
        }
        "9"
    }
}

/// Appends the decimal digits of `n` to `out`.
fn write_nat(n: u128, out: &mut String)
    ensures
        final(out)@ == old(out)@ + nat_text(n as nat),
    decreases n,
{
    if n >= 10 {
        write_nat(n / 10, out);
    }
    let d = digit_str(n % 10);
    out.append(d);
    proof {
        if n >= 10 {
            assert(nat_text(n as nat) == nat_text((n / 10) as nat) + seq![digit_char((n % 10) as nat)]);
        }
        assert(final(out)@ =~= old(out)@ + nat_text(n as nat));
    }
}

/// The decimal digits of `n`, without leading zeros.
pub(crate) fn decimal_text(n: u128) -> (r: String)
    ensures
        r@ == nat_text(n as nat),
{
    let mut r = String::new();
    write_nat(n, &mut r);
    proof {
        assert(r@ =~= nat_text(n as nat));
    }
    r
}

/// Relies on `ToString` for `char`: a string of that one character.
#[verifier::external_body]
pub(crate) fn char_text(c: char) -> (r: String)
    ensures
        r@ == seq![c],
{
    c.to_string()
}

proof fn lemma_nat_text_nonempty(n: nat)
    ensures
        nat_text(n).len() >= 1,
{
    if n >= 10 {
        assert(nat_text(n) == nat_text(n / 10) + seq![digit_char(n % 10)]);
    }
}

/// The least number of decimal places, from `k` up to 38, at which `den` divides the
/// power of ten.
pub open spec fn places_from(den: nat, k: nat) -> Option<nat>
    decreases 39 - k,
{
    if k > 38 || den == 0 {
        None
    } else if pow10(k) % den == 0 {
        Some(k)
    } else {
        places_from(den, k + 1)
    }
}

/// `num/den`.
pub open spec fn ratio_text(v: Number) -> Seq<char> {
    nat_text(v.num as nat) + "/"@ + nat_text(v.den as nat)
}

/// How a number is written: a whole number as its digits; one with a finite decimal
/// expansion (of at most 38 places) in decimal notation, `1.25`; any other as `num/den`.
pub open spec fn number_text(v: Number) -> Seq<char> {
    if v.den == 1 {
        nat_text(v.num as nat)
    } else {
        match places_from(v.den as nat, 0) {
            Some(k) => {
                let p = pow10(k) as int;
                let m = (v.num as int) * (p / (v.den as int));
                if m <= u128::MAX {
                    nat_text((m / p) as nat) + "."@ + nat_text((p + m % p) as nat).drop_first()
                } else {
                    ratio_text(v)
                }
            },
            None => ratio_text(v),
        }
    }
}

/// An amount is written `<value> <unit>`.
pub open spec fn amount_text(a: AmountView) -> Seq<char> {
    number_text(a.value) + " "@ + a.unit
}

/// Amounts written one after the other, with `" / "` between them.
pub open spec fn amounts_text(v: Seq<AmountView>) -> Seq<char>
    decreases v.len(),
{
    if v.len() == 0 {
        Seq::empty()
    } else if v.len() == 1 {
        amount_text(v[0])
    } else {
        amounts_text(v.drop_last()) + " / "@ + amount_text(v.last())
    }
}

/// An ingredient is written `<amounts> <name>[, <modifier>]`, with `n/a` in place of no amounts.
pub open spec fn ingredient_text(i: IngredientView) -> Seq<char> {
    (if i.amounts.len() == 0 {
        "n/a"@
    } else {
        amounts_text(i.amounts)
    }) + " "@ + i.name + match i.modifier {
        Some(m) => ", "@ + m,
        None => Seq::empty(),
    }
}

fn ratio_string(v: &Number) -> (r: String)
    ensures
        r@ == ratio_text(*v),
{
    let mut r = decimal_text(v.num);
    r.append("/");
    let d = decimal_text(v.den);
    r.append(d.as_str());
    r
}

fn places(den: u128) -> (r: Option<(usize, u128)>)
    requires
        den > 0,
    ensures
        match r {
            Some((k, p)) => places_from(den as nat, 0) == Some(k as nat) && p == pow10(k as nat) && k <= 38,
            None => places_from(den as nat, 0) is None,
        },
{
    let mut k: usize = 0;
    let mut p: u128 = 1;
    loop
        invariant
            den > 0,
            k <= 38,
            p == pow10(k as nat),
            places_from(den as nat, k as nat) == places_from(den as nat, 0),
        decreases 38 - k,
    {
        if p % den == 0 {
            return Some((k, p));
        }
        if k == 38 {
            assert(places_from(den as nat, 39) is None);
            return None;
        }
        proof {
            lemma_pow10_mono((k + 1) as nat, 38);
            lemma_pow10_38();
        }
        k = k + 1;
        p = p * 10;
    }
}

/// Writes a number (see [`number_text`]).
pub fn number_string(v: &Number) -> (r: String)
    ensures
        r@ == number_text(*v),
{
    if v.den == 1 {
        return decimal_text(v.num);
    }
    if v.den == 0 {
        return ratio_string(v);
    }
    match places(v.den) {
        Some((k, p)) => match v.num.checked_mul(p / v.den) {
            Some(m) => {
                proof {
                    lemma_pow10_mono(0, k as nat);
                    lemma_pow10_mono(k as nat, 38);
                    lemma_pow10_38();
                    lemma_nat_text_nonempty((p + m % p) as nat);
                }
                let mut r = decimal_text(m / p);
                r.append(".");
                let f = decimal_text(p + m % p);
                let fs = f.as_str();
                let n = fs.unicode_len();
                r.append(fs.substring_char(1, n));
                proof {
                    assert(f@.subrange(1, n as int) =~= f@.drop_first());
                }
                r
            },
            None => ratio_string(v),
        },
        None => ratio_string(v),
    }
}

impl Amount {
    /// Writes the amount as `<value> <unit>`.
    pub fn to_string(&self) -> (r: String)
        ensures
            r@ == amount_text(self@),
    {
        let mut r = number_string(&self.value);
        r.append(" ");
        r.append(self.unit.as_str());
        r
    }
}

impl Ingredient {
    /// Writes the ingredient as `<amounts> <name>[, <modifier>]` (see [`ingredient_text`]).
    pub fn to_string(&self) -> (r: String)
        ensures
            r@ == ingredient_text(self@),
    {
        let ghost v = amounts_view(self.amounts@);
        let mut r = String::new();
        if self.amounts.len() == 0 {
            r.append("n/a");
        } else {
            let mut i: usize = 0;
            while i < self.amounts.len()
                invariant
                    i <= self.amounts@.len(),
                    v == amounts_view(self.amounts@),
                    r@ == amounts_text(v.take(i as int)),
                decreases self.amounts@.len() - i,
            {
                let t = self.amounts[i].to_string();
                proof {
                    assert(v.take(i + 1).drop_last() =~= v.take(i as int));
                    assert(v.take(i + 1).last() == v[i as int]);
                    if i == 0 {
                        assert(v.take(1) =~= seq![v[0]]);
                        assert(r@ =~= Seq::<char>::empty());
                    }
                }
                if i > 0 {
                    r.append(" / ");
                }
                r.append(t.as_str());
                proof {
                    if i == 0 {
                        assert(r@ =~= amounts_text(v.take(1)));
                    }
                }
                i = i + 1;
            }
            proof {
                assert(v.take(v.len() as int) =~= v);
            }
        }
        r.append(" ");
        r.append(self.name.as_str());
        match &self.modifier {
            Some(m) => {
                r.append(", ");
                r.append(m.as_str());
            },
            None => {},
        }
        proof {
            assert(r@ =~= ingredient_text(self@));
        }
        r
    }
}

} // verus!
