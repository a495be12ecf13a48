use vstd::prelude::*;

use crate::decimal::{fixed_product, mul_as_seconds};
use crate::text::is_digit;
use crate::unit::{nanos_per_unit, TimeUnit, ONE_SECOND_NANOSECOND};

verus! {

/// The operator that joins two terms.
#[derive(Debug, Clone, Copy, PartialEq, Eq, Structural)]
pub enum CondUnit {
    Plus,
    Star,
}

/// An error found while computing a duration.
#[derive(Debug, PartialEq, Eq)]
pub enum DError {
    /// The input does not have the required form; the text says why.
    ParseError(String),
    /// The duration does not fit in 64 bits of nanoseconds.
    OverflowError,
}

/// Why the arithmetic on a well-formed input failed.
pub enum Cause {
    /// A run of digits is larger than `u64::MAX`.
    TooLarge,
    /// A number has no digits.
    Empty,
    /// A number holds a character that is not a digit.
    InvalidDigit,
    /// A value exceeds the 64-bit nanosecond range.
    Overflow,
    /// A chain joins terms with two different operators, the first one fixed first.
    Mixed(CondUnit, CondUnit),
}

pub open spec fn op_text(op: CondUnit) -> Seq<char> {
    match op {
        CondUnit::Plus => "+"@,
        CondUnit::Star => "*"@,
    }
}

pub open spec fn cause_text(c: Cause) -> Seq<char> {
    match c {
        Cause::TooLarge => "number too large to fit in target type"@,
        Cause::Empty => "cannot parse integer from empty string"@,
        Cause::InvalidDigit => "invalid digit found in string"@,
        Cause::Overflow => "overflow error"@,
        Cause::Mixed(a, b) => "not support '"@ + op_text(a) + "' with '"@ + op_text(b)
            + "' calculate"@,
    }
}

/// `e` is the error value for the cause `c`.
pub open spec fn reports(e: DError, c: Cause) -> bool {
    match c {
        Cause::Overflow => e is OverflowError,
        _ => e matches DError::ParseError(m) && m@ == cause_text(c),
    }
}

/// The text of an error: the reason for a parse error, `overflow error` for an overflow.
pub open spec fn derror_text(e: DError) -> Seq<char> {
    match e {
        DError::ParseError(m) => m@,
        DError::OverflowError => "overflow error"@,
    }
}

impl DError {
    /// The text of the error.
    pub fn message(&self) -> (r: String)
        ensures
            r@ == derror_text(*self),
    {
        match self {
            DError::ParseError(m) => m.clone(),
            DError::OverflowError => "overflow error".to_string(),
        }
    }
}

pub open spec fn all_digits(d: Seq<char>) -> bool {
    forall|i: int| 0 <= i < d.len() ==> is_digit(#[trigger] d[i])
}

pub open spec fn digit_value(c: char) -> nat {
    (c as int - '0' as int) as nat
}

/// The number that a run of decimal digits writes.
pub open spec fn digits_value(d: Seq<char>) -> nat
    decreases d.len(),
{
    if d.len() == 0 {
        0
    } else {
        digits_value(d.drop_last()) * 10 + digit_value(d.last())
    }
}

/// Reads decimal digits from `i` on, after the number `acc` read so far: the first
/// character that is not a digit is an error, and so is a number that grows past
/// `u64::MAX`, whichever comes first.
pub open spec fn read_from(s: Seq<char>, i: int, acc: nat) -> Result<nat, Cause>
    decreases s.len() - i,
{
    if i < 0 || i >= s.len() {
        Ok(acc)
    } else if !is_digit(s[i]) {
        Err(Cause::InvalidDigit)
    } else if acc * 10 + digit_value(s[i]) > u64::MAX {
        Err(Cause::TooLarge)
    } else {
        read_from(s, i + 1, acc * 10 + digit_value(s[i]))
    }
}

/// Reads an unsigned decimal number, as `u64`'s `FromStr` does: an optional `+`, then
/// at least one digit.
pub open spec fn read_u64(s: Seq<char>) -> Result<nat, Cause> {
    if s.len() == 0 {
        Err(Cause::Empty)
    } else if s[0] == '+' {
        if s.len() == 1 {
            Err(Cause::InvalidDigit)
        } else {
            read_from(s, 1, 0)
        }
    } else {
        read_from(s, 0, 0)
    }
}

/// The nanoseconds of a term: its digits as a number, times its unit.
pub open spec fn term_value(d: Seq<char>, u: TimeUnit) -> Result<nat, Cause> {
    let v = digits_value(d);
    if v > u64::MAX {
        Err(Cause::TooLarge)
    } else if v * nanos_per_unit(u) > u64::MAX {
        Err(Cause::Overflow)
    } else {
        Ok(v * nanos_per_unit(u))
    }
}

/// Joins an accumulated value and a new one: a checked sum, or a fixed-point product.
pub open spec fn apply_op(op: CondUnit, acc: nat, v: nat) -> Result<nat, Cause> {
    match op {
        CondUnit::Plus => if acc + v <= u64::MAX {
            Ok(acc + v)
        } else {
            Err(Cause::Overflow)
        },
        CondUnit::Star => match fixed_product(acc, v) {
            Some(p) => Ok(p as nat),
            None => Err(Cause::Overflow),
        },
    }
}

/// The value a chain starts from under its operator: nothing to add, or one second.
pub open spec fn start_value(op: CondUnit) -> nat {
    match op {
        CondUnit::Plus => 0,
        CondUnit::Star => 1_000_000_000,
    }
}

/// A term of a chain: its digits, the operator in front of it, and its unit.
pub type TermView = (Seq<char>, CondUnit, TimeUnit);

/// Folds a chain from the left. The first term fixes the operator; a later term with
/// another operator is an error. An empty chain is a product with one second.
pub open spec fn fold_chain(ts: Seq<TermView>) -> Result<(CondUnit, nat), Cause>
    decreases ts.len(),
{
    if ts.len() == 0 {
        Ok((CondUnit::Star, 1_000_000_000))
    } else {
        let t = ts.last();
        match fold_chain(ts.drop_last()) {
            Err(c) => Err(c),
            Ok(prev) => {
                let op = if ts.len() == 1 {
                    t.1
                } else {
                    prev.0
                };
                let acc = if ts.len() == 1 {
                    start_value(t.1)
                } else {
                    prev.1
                };
                if op != t.1 {
                    Err(Cause::Mixed(op, t.1))
                } else {
                    match term_value(t.0, t.2) {
                        Err(c) => Err(c),
                        Ok(v) => match apply_op(op, acc, v) {
                            Err(c) => Err(c),
                            Ok(n) => Ok((op, n)),
                        },
                    }
                }
            },
        }
    }
}

proof fn lemma_digits_value_grows(d: Seq<char>, i: int)
    requires
        0 <= i <= d.len(),
    ensures
        digits_value(d.subrange(0, i)) <= digits_value(d),
    decreases d.len() - i,
{
    if i < d.len() {
        lemma_digits_value_grows(d, i + 1);
        assert(d.subrange(0, i + 1).drop_last() =~= d.subrange(0, i));
    } else {
        assert(d.subrange(0, i) =~= d);
    }
}

/// Reads the digits `s[from..to]` as a number, when it fits in `u64`.
pub fn read_digits(s: &Vec<char>, from: usize, to: usize) -> (r: Option<u64>)
    requires
        from <= to <= s@.len(),
        all_digits(s@.subrange(from as int, to as int)),
    ensures
        r == (if digits_value(s@.subrange(from as int, to as int)) <= u64::MAX {
            Some(digits_value(s@.subrange(from as int, to as int)) as u64)
        } else {
            None
        }),
{
    let ghost d = s@.subrange(from as int, to as int);
    let mut acc: u64 = 0;
    let mut i: usize = from;
    while i < to
        invariant
            from <= i <= to <= s@.len(),
            d == s@.subrange(from as int, to as int),
            all_digits(d),
            acc == digits_value(d.subrange(0, i - from)),
        decreases to - i,
    {
        let c = s[i];
        assert(is_digit(d[i - from]));
        let dv = (c as u32 - '0' as u32) as u64;
        assert(d.subrange(0, i + 1 - from).drop_last() =~= d.subrange(0, i - from));
        assert(dv == digit_value(c));
        if acc > (u64::MAX - dv) / 10 {
            assert(digits_value(d.subrange(0, i + 1 - from)) > u64::MAX) by (nonlinear_arith)
                requires
                    acc > (u64::MAX - dv) / 10,
                    digits_value(d.subrange(0, i + 1 - from)) == acc * 10 + dv,
            ;
            proof {
                lemma_digits_value_grows(d, i + 1 - from);
            }
            return None;
        }
        assert(acc * 10 + dv <= u64::MAX) by (nonlinear_arith)
            requires
                acc <= (u64::MAX - dv) / 10,
                dv <= 9,
        ;
        acc = acc * 10 + dv;
        i = i + 1;
    }
    assert(d.subrange(0, to - from) =~= d);
    Some(acc)
}

/// The nanoseconds of the term with digits `s[from..to]` and unit `u`.
pub fn term_nanos(s: &Vec<char>, from: usize, to: usize, u: TimeUnit) -> (r: Result<u64, DError>)
    requires
        from <= to <= s@.len(),
        all_digits(s@.subrange(from as int, to as int)),
    ensures
        match term_value(s@.subrange(from as int, to as int), u) {
            Ok(v) => r == Ok::<u64, DError>(v as u64),
            Err(c) => r matches Err(e) && reports(e, c),
        },
{
    match read_digits(s, from, to) {
        None => Err(DError::ParseError("number too large to fit in target type".to_string())),
        Some(v) => match v.checked_mul(u.nanos()) {
            Some(n) => Ok(n),
            None => Err(DError::OverflowError),
        },
    }
}

impl TimeUnit {
    /// The nanoseconds of the number `time_str` of this unit. A string that is not a
    /// number is a parse error; a product beyond `u64::MAX` is an overflow error.
    pub fn duration(&self, time_str: &str) -> (r: Result<u64, DError>)
        ensures
            match read_u64(time_str@) {
                Err(c) => r matches Err(e) && reports(e, c),
                Ok(v) => if v * nanos_per_unit(*self) <= u64::MAX {
                    r == Ok::<u64, DError>((v * nanos_per_unit(*self)) as u64)
                } else {
                    r == Err::<u64, DError>(DError::OverflowError)
                },
            },
    {
        let s = crate::text::chars_of(time_str);
        let n = s.len();
        if n == 0 {
            return Err(DError::ParseError("cannot parse integer from empty string".to_string()));
        }
        let mut i: usize = 0;
        if s[0] == '+' {
            if n == 1 {
                return Err(DError::ParseError("invalid digit found in string".to_string()));
            }
            i = 1;
        }
        let mut acc: u64 = 0;
        while i < n
            invariant
                n == s@.len(),
                s@ == time_str@,
                1 <= n,
                i <= n,
                read_u64(s@) == read_from(s@, i as int, acc as nat),
            decreases n - i,
        {
            let c = s[i];
            if !('0' <= c && c <= '9') {
                return Err(DError::ParseError("invalid digit found in string".to_string()));
            }
            let dv = (c as u32 - '0' as u32) as u64;
            assert(dv == digit_value(c));
            if acc > (u64::MAX - dv) / 10 {
                assert(acc * 10 + dv > u64::MAX) by (nonlinear_arith)
                    requires
                        acc > (u64::MAX - dv) / 10,
                ;
                return Err(
                    DError::ParseError("number too large to fit in target type".to_string()),
                );
            }
            assert(acc * 10 + dv <= u64::MAX) by (nonlinear_arith)
                requires
                    acc <= (u64::MAX - dv) / 10,
                    dv <= 9,
            ;
            acc = acc * 10 + dv;
            i = i + 1;
        }
        match acc.checked_mul(self.nanos()) {
            Some(v) => Ok(v),
            None => Err(DError::OverflowError),
        }
    }
}

impl CondUnit {
    /// The operator and value that a chain without terms stands for.
    pub fn init() -> (r: (CondUnit, u64))
        ensures
            r == (CondUnit::Star, 1_000_000_000u64),
    {
        (CondUnit::Star, ONE_SECOND_NANOSECOND)
    }

    /// Whether `c` is an operator symbol.
    pub fn contain(c: char) -> (r: bool)
        ensures
            r == (c == '+' || c == '*'),
    {
        c == '+' || c == '*'
    }

    /// The value a chain under this operator starts from.
    pub fn change_duration(&self) -> (r: u64)
        ensures
            r == start_value(*self),
    {
        match self {
            CondUnit::Plus => 0,
            CondUnit::Star => ONE_SECOND_NANOSECOND,
        }
    }

    /// Joins `x` and `y` under this operator.
    pub fn calc(&self, x: u64, y: u64) -> (r: Result<u64, DError>)
        ensures
            match apply_op(*self, x as nat, y as nat) {
                Ok(v) => r == Ok::<u64, DError>(v as u64),
                Err(c) => r matches Err(e) && reports(e, c),
            },
    {
        match self {
            CondUnit::Plus => match x.checked_add(y) {
                Some(n) => Ok(n),
                None => Err(DError::OverflowError),
            },
            CondUnit::Star => match mul_as_seconds(x, y) {
                Some(n) => Ok(n),
                None => Err(DError::OverflowError),
            },
        }
    }

    /// The operator's symbol.
    pub fn symbol(&self) -> (r: &'static str)
        ensures
            r@ == op_text(*self),
    {
        match self {
            CondUnit::Plus => "+",
            CondUnit::Star => "*",
        }
    }
}

} // verus!
