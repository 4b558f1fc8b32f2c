//! Helpers that generated cards call.
use crate::json::{encoded, write_string};
use crate::text::{
    is_trimmed, lower_all, same_text, spec_lower, spec_lower_all, spec_trim, to_chars, to_text,
    trim, trimming_keeps, trimming_takes_space_off,
};
use vstd::prelude::*;

verus! {

/// What a ratio is shown as: its digits where it is a number, `n/a` where it is said
/// to be missing, else a dash.
pub fn l0_ratio(text: &str, number: Option<String>) -> (r: String)
    ensures
        r@ == match number {
            Some(n) => n@,
            None => if text@ == "n/a"@ {
                "n/a"@
            } else {
                "\u{2014}"@
            },
        },
{
    match number {
        Some(n) => n,
        None => {
            if same_text(text, "n/a") {
                "n/a".to_owned()
            } else {
                "\u{2014}".to_owned()
            }
        },
    }
}

/// A text without the white space around it, in lower case.
pub open spec fn unit_name(text: Seq<char>) -> Seq<char> {
    spec_lower_all(spec_trim(text))
}

fn unit(text: &str) -> (r: String)
    ensures
        r@ == unit_name(text@),
{
    let chars = to_chars(text);
    let low = lower_all(trim(chars.as_slice()));
    to_text(low.as_slice())
}

/// Two units, the one converted from and the one converted to.
pub struct UnitPair {
    pub from: String,
    pub to: String,
}

/// The units of a conversion: what is converted from and what to.
pub open spec fn spec_convert_pair(from: Seq<char>, to: Seq<char>, direction: Seq<char>) -> Option<
    (Seq<char>, Seq<char>),
> {
    if direction == "fwd"@ {
        Some((unit_name(from), unit_name(to)))
    } else if direction == "rev"@ {
        Some((unit_name(to), unit_name(from)))
    } else {
        None
    }
}

/// The units of a conversion, forwards or in reverse; none for another direction.
pub fn convert_pair(from: &str, to: &str, direction: &str) -> (r: Option<UnitPair>)
    ensures
        match r {
            Some(pair) => (direction@ == "fwd"@ && pair.from@ == unit_name(from@) && pair.to@
                == unit_name(to@)) || (direction@ == "rev"@ && pair.from@ == unit_name(to@)
                && pair.to@ == unit_name(from@)),
            None => direction@ != "fwd"@ && direction@ != "rev"@,
        },
        (match r {
            Some(pair) => Some((pair.from@, pair.to@)),
            None => None,
        }) == spec_convert_pair(from@, to@, direction@),
{
    proof {
        reveal_strlit("fwd");
        reveal_strlit("rev");
        assert("fwd"@[0] == 'f' && "rev"@[0] == 'r');
    }
    if same_text(direction, "fwd") {
        Some(UnitPair { from: unit(from), to: unit(to) })
    } else if same_text(direction, "rev") {
        Some(UnitPair { from: unit(to), to: unit(from) })
    } else {
        None
    }
}

/// What is shown of a conversion.
#[derive(Clone, Copy, PartialEq, Eq, Structural, Debug)]
pub enum ConvertField {
    /// What the amount was converted to.
    Value,
    /// The amount that was converted.
    Amount,
    /// That there is no such thing.
    Missing,
}

/// What is shown of a conversion; `field` is what a card asked for, the value where
/// it did not say, and `converted` is whether there was anything to convert.
pub fn convert_field(field: Option<&str>, converted: bool) -> (r: ConvertField)
    ensures
        r == (if !converted {
            ConvertField::Missing
        } else {
            match field {
                None => ConvertField::Value,
                Some(f) => if f@ == "value"@ {
                    ConvertField::Value
                } else if f@ == "amount"@ {
                    ConvertField::Amount
                } else {
                    ConvertField::Missing
                },
            }
        }),
{
    if !converted {
        return ConvertField::Missing;
    }
    match field {
        None => ConvertField::Value,
        Some(f) => {
            if same_text(f, "value") {
                ConvertField::Value
            } else if same_text(f, "amount") {
                ConvertField::Amount
            } else {
                ConvertField::Missing
            }
        },
    }
}

/// A text as a JSON string.
pub fn json_string(text: &str) -> (r: String)
    ensures
        r@ == encoded(text@),
{
    write_string(text)
}

#[derive(Clone, Copy, PartialEq, Eq, Structural, Debug)]
pub enum MathOp {
    Plus,
    Minus,
    Times,
    Over,
    Rest,
}

/// The operation that an operator asks for; none for another operator, nor where it
/// would divide by zero.
pub fn l0_math(operator: &str, by_zero: bool) -> (r: Option<MathOp>)
    ensures
        r == if operator@ == "+"@ {
            Some(MathOp::Plus)
        } else if operator@ == "-"@ {
            Some(MathOp::Minus)
        } else if operator@ == "*"@ {
            Some(MathOp::Times)
        } else if operator@ == "/"@ && !by_zero {
            Some(MathOp::Over)
        } else if operator@ == "%"@ && !by_zero {
            Some(MathOp::Rest)
        } else {
            None
        },
{
    if same_text(operator, "+") {
        Some(MathOp::Plus)
    } else if same_text(operator, "-") {
        Some(MathOp::Minus)
    } else if same_text(operator, "*") {
        Some(MathOp::Times)
    } else if same_text(operator, "/") && !by_zero {
        Some(MathOp::Over)
    } else if same_text(operator, "%") && !by_zero {
        Some(MathOp::Rest)
    } else {
        None
    }
}

/// A conversion in reverse is the one between the two units exchanged, and units are the
/// same in any case and with white space around them.
pub proof fn reversing_exchanges_the_units(from: Seq<char>, to: Seq<char>)
    requires
        from.len() > 0 && is_trimmed(from),
    ensures
        spec_convert_pair(from, to, "rev"@) == spec_convert_pair(to, from, "fwd"@),
        spec_convert_pair(from, to, "fwd"@) == Some((unit_name(from), unit_name(to))),
        unit_name(spec_lower_all(from)) == unit_name(from),
        unit_name(seq![' '] + from + seq![' ']) == unit_name(from),
        unit_name(from) == spec_lower_all(from),
{
    reveal_strlit("fwd");
    reveal_strlit("rev");
    assert("fwd"@[0] == 'f' && "rev"@[0] == 'r');
    trimming_keeps(from);
    trimming_takes_space_off(seq![' '], from, seq![' ']);
    let low = spec_lower_all(from);
    assert(low[0] == spec_lower(from[0]) && low.last() == spec_lower(from.last()));
    trimming_keeps(low);
    assert(spec_lower_all(low) =~= low);
}

} // verus!
