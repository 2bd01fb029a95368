//! The values that a host hands over, and how each becomes a decimal.

use crate::decimal::{exact_decimal, parse_exact};
use crate::fixed::Fixed;
use vstd::prelude::*;

verus! {

/// One argument as the host declares and fills it. The variant is the
/// declared kind; `None` inside it is a null.
///
/// A floating-point argument arrives already carried over to a decimal:
/// `Real(None)` also stands for a float that no decimal can hold.
#[derive(Debug)]
pub enum Value {
    Int(Option<i64>),
    Real(Option<Fixed>),
    Decimal(Option<String>),
    Text(Option<String>),
}

impl Clone for Value {
    fn clone(&self) -> (copy: Self)
        ensures
            copy == *self,
    {
        match self {
            Value::Int(n) => Value::Int(*n),
            Value::Real(d) => Value::Real(*d),
            Value::Decimal(Some(text)) => Value::Decimal(Some(text.clone())),
            Value::Decimal(None) => Value::Decimal(None),
            Value::Text(Some(text)) => Value::Text(Some(text.clone())),
            Value::Text(None) => Value::Text(None),
        }
    }
}

/// The decimal that an argument stands for, where it stands for one: an
/// integer is taken as it is, a real as the decimal it was carried over to,
/// a decimal is read exactly from its text. A null, a text, and a value that
/// no decimal can hold stand for none.
pub open spec fn coerced(value: Value) -> Option<Fixed> {
    match value {
        Value::Int(Some(n)) => Some(Fixed::whole(n as int)),
        Value::Real(Some(d)) => if d.wf() {
            Some(d)
        } else {
            None
        },
        Value::Decimal(Some(text)) => exact_decimal(text@),
        _ => None,
    }
}

/// Turns one argument into a decimal, or reports that it is not usable.
pub fn coerce(value: &Value) -> (r: Option<Fixed>)
    ensures
        r == coerced(*value),
        r matches Some(d) ==> d.wf(),
{
    match value {
        Value::Int(Some(n)) => Some(Fixed::from_i64(*n)),
        Value::Real(Some(d)) => {
            if d.is_valid() {
                Some(*d)
            } else {
                None
            }
        },
        Value::Decimal(Some(text)) => parse_exact(text.as_str()),
        _ => None,
    }
}

} // verus!
