//! Validation of the arguments that a group is set up with.

use crate::decimal::{rank, Rank};
use crate::fixed::{pow10, Fixed};
use crate::trim::is_proportion;
use crate::value::{coerce, coerced, Value};
use vstd::prelude::*;
use vstd::string::*;

verus! {

/// Why a group cannot be set up.
#[derive(Clone, Copy, Debug, PartialEq, Eq, Structural)]
pub enum InitError {
    /// The number of arguments is not two; holds the number given.
    Arity(usize),
    /// The first argument is declared as text.
    FirstKind,
    /// The second argument is declared as text or as an integer.
    SecondKind,
    /// The second argument is null or does not read as a decimal.
    Conversion,
    /// The second argument lies outside `[0, 1)`.
    Range,
}

/// The decimal digit `d` as a character.
pub open spec fn digit(d: nat) -> char {
    seq!['0', '1', '2', '3', '4', '5', '6', '7', '8', '9'][d as int]
}

/// The decimal numeral of `n`, without leading zeros.
pub open spec fn digits(n: nat) -> Seq<char>
    decreases n,
{
    if n < 10 {
        seq![digit(n)]
    } else {
        digits(n / 10).push(digit(n % 10))
    }
}

impl InitError {
    /// The message that the host shows for the error.
    pub open spec fn text(self) -> Seq<char> {
        match self {
            InitError::Arity(n) => "Expected 2 args, but got "@ + digits(n as nat),
            InitError::FirstKind => "1st arg must be real, decimal or int"@,
            InitError::SecondKind => "2nd arg must be real or decimal"@,
            InitError::Conversion => "Failed to convert 2nd arg into decimal"@,
            InitError::Range => "2nd arg out of range [0.0, 1.0)"@,
        }
    }

    /// The message that the host shows for the error.
    pub fn message(&self) -> (s: String)
        ensures
            s@ == self.text(),
    {
        match self {
            InitError::Arity(n) => {
                let count: String = natural_text(*n);
                String::from_str("Expected 2 args, but got ").concat(count.as_str())
            },
            InitError::FirstKind => String::from_str("1st arg must be real, decimal or int"),
            InitError::SecondKind => String::from_str("2nd arg must be real or decimal"),
            InitError::Conversion => String::from_str("Failed to convert 2nd arg into decimal"),
            InitError::Range => String::from_str("2nd arg out of range [0.0, 1.0)"),
        }
    }
}

/// One decimal digit as a text.
fn digit_text(d: usize) -> (s: &'static str)
    requires
        d < 10,
    ensures
        s@ == seq![digit(d as nat)],
{
    proof {
        reveal_strlit("0");
        reveal_strlit("1");
        reveal_strlit("2");
        reveal_strlit("3");
        reveal_strlit("4");
        reveal_strlit("5");
        reveal_strlit("6");
        reveal_strlit("7");
        reveal_strlit("8");
        reveal_strlit("9");
    }
    let s: &'static str = match d {
        0 => "0",
        1 => "1",
        2 => "2",
        3 => "3",
        4 => "4",
        5 => "5",
        6 => "6",
        7 => "7",
        8 => "8",
        _ => "9",
    };
    assert(s@ =~= seq![digit(d as nat)]);
    s
}

/// The decimal numeral of `n`.
pub fn natural_text(n: usize) -> (s: String)
    ensures
        s@ == digits(n as nat),
    decreases n,
{
    let last: &'static str = digit_text(n % 10);
    if n < 10 {
        String::from_str(last)
    } else {
        let s: String = natural_text(n / 10).concat(last);
        assert(s@ =~= digits(n as nat));
        s
    }
}

/// What validation makes of a proportion that was read, or was not: the
/// proportion itself where it lies in `[0, 1)`.
pub open spec fn range_checked(candidate: Option<Fixed>) -> Result<Fixed, InitError> {
    match candidate {
        None => Err(InitError::Conversion),
        Some(p) => if 0 <= p.units() < pow10(28) {
            Ok(p)
        } else {
            Err(InitError::Range)
        },
    }
}

/// What validation makes of an argument list: the proportion that the
/// second argument holds, or the first of the checks that fails, in the
/// order arity, kind of the first argument, kind of the second, conversion,
/// range.
pub open spec fn validated(args: Seq<Value>) -> Result<Fixed, InitError> {
    if args.len() != 2 {
        Err(InitError::Arity(args.len() as usize))
    } else if args[0] is Text {
        Err(InitError::FirstKind)
    } else if args[1] is Text || args[1] is Int {
        Err(InitError::SecondKind)
    } else {
        range_checked(coerced(args[1]))
    }
}

/// Accepts a proportion that was read if it lies in `[0, 1)`.
pub fn check_range(candidate: Option<Fixed>) -> (r: Result<Fixed, InitError>)
    requires
        candidate matches Some(p) ==> p.wf(),
    ensures
        r == range_checked(candidate),
        r matches Ok(p) ==> is_proportion(p),
{
    match candidate {
        None => Err(InitError::Conversion),
        Some(p) => {
            let zero: Fixed = Fixed::from_i64(0);
            let one: Fixed = Fixed::from_i64(1);
            let below: bool = rank(&p, &zero) == Rank::Below;
            let reaches_one: bool = rank(&one, &p) != Rank::Above;
            if below || reaches_one {
                Err(InitError::Range)
            } else {
                Ok(p)
            }
        },
    }
}

/// Checks the arguments that a group is set up with and reads the
/// proportion from the second.
pub fn validate(args: &[Value]) -> (r: Result<Fixed, InitError>)
    ensures
        r == validated(args@),
        r matches Ok(p) ==> is_proportion(p),
{
    if args.len() != 2 {
        return Err(InitError::Arity(args.len()));
    }
    match &args[0] {
        Value::Text(_) => {
            return Err(InitError::FirstKind);
        },
        _ => {},
    }
    match &args[1] {
        Value::Text(_) | Value::Int(_) => Err(InitError::SecondKind),
        _ => check_range(coerce(&args[1])),
    }
}

} // verus!
