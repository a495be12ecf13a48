use vstd::prelude::*;

use crate::calc::{all_digits, reports, term_nanos, term_value, CondUnit};
use crate::eval::Failure;
use crate::text::{chars_of, lemma_run_end_bounds, run_end, skip_run, CharClass};
use crate::unit::{unit_of_range, unit_of_word, TimeUnit};

verus! {

/// A term found in the input: the digits `from..to` (character positions), the operator
/// in front of it, and its unit.
#[derive(Debug, Clone, Copy, PartialEq, Eq, Structural)]
pub struct Term {
    pub from: usize,
    pub to: usize,
    pub op: CondUnit,
    pub unit: TimeUnit,
}

/// Where the input stops matching the grammar (a character position), and what was
/// expected there: a unit, an operator, both, or (both false) the end of the input or a
/// number.
#[derive(Debug, Clone, Copy, PartialEq, Eq, Structural)]
pub struct SyntaxError {
    pub pos: usize,
    pub units: bool,
    pub ops: bool,
}

/// The digits of `t` lie within `s`.
pub open spec fn term_ok(s: Seq<char>, t: Term) -> bool {
    t.from < t.to <= s.len() && all_digits(s.subrange(t.from as int, t.to as int))
}

/// The outcome of a scanner: a value and the position after it, or a syntax error.
pub enum Scan<T> {
    Done(T, int),
    Fail(SyntaxError),
}

/// An executable scanner's result agrees with its specification.
pub open spec fn agrees<T>(r: Result<(T, usize), SyntaxError>, sc: Scan<T>) -> bool {
    match sc {
        Scan::Done(v, p) => r matches Ok((v2, p2)) && v2 == v && p2 as int == p,
        Scan::Fail(e) => r == Err::<(T, usize), SyntaxError>(e),
    }
}

pub open spec fn fail_at<T>(p: int, units: bool, ops: bool) -> Scan<T> {
    Scan::Fail(SyntaxError { pos: p as usize, units, ops })
}

pub open spec fn skip_space(s: Seq<char>, i: int) -> int {
    run_end(s, i, CharClass::Space)
}

pub open spec fn is_op_char(s: Seq<char>, i: int) -> bool {
    0 <= i < s.len() && (s[i] == '+' || s[i] == '*')
}

/// A unit word at `b`. Without one, the unit is seconds, if only spaces up to the end of
/// the input or up to an operator follow.
pub open spec fn opt_unit(s: Seq<char>, b: int) -> Scan<TimeUnit> {
    let w = run_end(s, b, CharClass::Letter);
    let named = unit_of_word(s.subrange(b, w));
    if w > b && named is Some {
        Scan::Done(named->Some_0, w)
    } else {
        let e = skip_space(s, b);
        if e >= s.len() || is_op_char(s, e) {
            Scan::Done(TimeUnit::Second, e)
        } else {
            fail_at(e, true, false)
        }
    }
}

/// A unit word at `b`, which must be there.
pub open spec fn unit_word(s: Seq<char>, b: int) -> Scan<TimeUnit> {
    let w = run_end(s, b, CharClass::Letter);
    let named = unit_of_word(s.subrange(b, w));
    if w > b && named is Some {
        Scan::Done(named->Some_0, w)
    } else {
        fail_at(b, true, false)
    }
}

/// Spaces, digits, spaces, an optional unit and spaces, from `p`.
pub open spec fn lead_term(s: Seq<char>, p: int) -> Scan<Term> {
    let a = skip_space(s, p);
    let d = run_end(s, a, CharClass::Digit);
    if d == a {
        fail_at(a, false, false)
    } else {
        match opt_unit(s, skip_space(s, d)) {
            Scan::Fail(e) => Scan::Fail(e),
            Scan::Done(u, q) => Scan::Done(
                Term { from: a as usize, to: d as usize, op: CondUnit::Plus, unit: u },
                skip_space(s, q),
            ),
        }
    }
}

/// An operator symbol at `a`, which must be there.
pub open spec fn op_symbol(s: Seq<char>, a: int) -> Scan<CondUnit> {
    if 0 <= a < s.len() && s[a] == '+' {
        Scan::Done(CondUnit::Plus, a + 1)
    } else if 0 <= a < s.len() && s[a] == '*' {
        Scan::Done(CondUnit::Star, a + 1)
    } else {
        fail_at(a, false, true)
    }
}

/// The operator in front of a term of a chain. A missing one is a `+`, at the end of the
/// input or where a term (digits and a valid unit) follows; anywhere else it is an error.
pub open spec fn opt_op(s: Seq<char>, a: int) -> Scan<CondUnit> {
    if is_op_char(s, a) {
        op_symbol(s, a)
    } else {
        let a2 = skip_space(s, a);
        if a2 >= s.len() {
            Scan::Done(CondUnit::Plus, a2)
        } else {
            let d = run_end(s, a2, CharClass::Digit);
            if d == a2 {
                fail_at(a2, false, true)
            } else {
                match opt_unit(s, skip_space(s, d)) {
                    Scan::Fail(_) => fail_at(a2, true, true),
                    Scan::Done(_, _) => Scan::Done(CondUnit::Plus, a2),
                }
            }
        }
    }
}

/// One term of a chain from `q`; `None` where no digits follow the operator, which ends
/// the chain at `q`.
pub open spec fn chain_item(s: Seq<char>, q: int) -> Scan<Option<Term>> {
    match opt_op(s, skip_space(s, q)) {
        Scan::Fail(e) => Scan::Fail(e),
        Scan::Done(op, o) => {
            let b = skip_space(s, o);
            let d = run_end(s, b, CharClass::Digit);
            if d == b {
                Scan::Done(None, q)
            } else {
                match opt_unit(s, skip_space(s, d)) {
                    Scan::Fail(e) => Scan::Fail(e),
                    Scan::Done(u, r) => Scan::Done(
                        Some(Term { from: b as usize, to: d as usize, op, unit: u }),
                        skip_space(s, r),
                    ),
                }
            }
        },
    }
}

/// The terms of a chain from `q`, and where the chain ends.
pub open spec fn chain(s: Seq<char>, q: int) -> Scan<Seq<Term>>
    decreases s.len() - q,
{
    if q < 0 || q > s.len() {
        Scan::Done(Seq::empty(), q)
    } else {
        match chain_item(s, q) {
            Scan::Fail(e) => Scan::Fail(e),
            Scan::Done(None, _) => Scan::Done(Seq::empty(), q),
            Scan::Done(Some(t), next) => if q < next <= s.len() {
                match chain(s, next) {
                    Scan::Fail(e) => Scan::Fail(e),
                    Scan::Done(ts, e) => Scan::Done(seq![t] + ts, e),
                }
            } else {
                Scan::Done(seq![t], next)
            },
        }
    }
}

/// `sc` with the terms `pre` in front of its terms.
pub open spec fn prepend(pre: Seq<Term>, sc: Scan<Seq<Term>>) -> Scan<Seq<Term>> {
    match sc {
        Scan::Done(ts, e) => Scan::Done(pre + ts, e),
        Scan::Fail(e) => Scan::Fail(e),
    }
}

proof fn lemma_digit_run(s: Seq<char>, a: int)
    requires
        0 <= a <= s.len(),
    ensures
        all_digits(s.subrange(a, run_end(s, a, CharClass::Digit))),
{
    lemma_run_end_bounds(s, a, CharClass::Digit);
    let d = run_end(s, a, CharClass::Digit);
    assert forall|i: int| 0 <= i < d - a implies crate::text::is_digit(
        #[trigger] s.subrange(a, d)[i],
    ) by {
        assert(crate::text::in_class(s[a + i], CharClass::Digit));
    }
}

pub fn scan_opt_unit(s: &Vec<char>, b: usize) -> (r: Result<(TimeUnit, usize), SyntaxError>)
    requires
        b <= s@.len(),
    ensures
        agrees(r, opt_unit(s@, b as int)),
        r matches Err(e) ==> e.pos <= s@.len(),
        r matches Ok((_, p)) ==> b <= p <= s@.len(),
{
    let w = skip_run(s, b, CharClass::Letter);
    if w > b {
        if let Some(u) = unit_of_range(s, b, w) {
            return Ok((u, w));
        }
    }
    let e = skip_run(s, b, CharClass::Space);
    if e >= s.len() || s[e] == '+' || s[e] == '*' {
        Ok((TimeUnit::Second, e))
    } else {
        Err(SyntaxError { pos: e, units: true, ops: false })
    }
}

pub fn scan_unit_word(s: &Vec<char>, b: usize) -> (r: Result<(TimeUnit, usize), SyntaxError>)
    requires
        b <= s@.len(),
    ensures
        agrees(r, unit_word(s@, b as int)),
        r matches Err(e) ==> e.pos <= s@.len(),
        r matches Ok((_, p)) ==> b <= p <= s@.len(),
{
    let w = skip_run(s, b, CharClass::Letter);
    if w > b {
        if let Some(u) = unit_of_range(s, b, w) {
            return Ok((u, w));
        }
    }
    Err(SyntaxError { pos: b, units: true, ops: false })
}

pub fn scan_lead_term(s: &Vec<char>, p: usize) -> (r: Result<(Term, usize), SyntaxError>)
    requires
        p <= s@.len(),
    ensures
        agrees(r, lead_term(s@, p as int)),
        r matches Err(e) ==> e.pos <= s@.len(),
        r matches Ok((t, q)) ==> t.to <= q <= s@.len() && term_ok(s@, t),
{
    let a = skip_run(s, p, CharClass::Space);
    let d = skip_run(s, a, CharClass::Digit);
    if d == a {
        return Err(SyntaxError { pos: a, units: false, ops: false });
    }
    proof {
        lemma_digit_run(s@, a as int);
    }
    let b = skip_run(s, d, CharClass::Space);
    match scan_opt_unit(s, b) {
        Err(e) => Err(e),
        Ok((u, q)) => {
            let e = skip_run(s, q, CharClass::Space);
            Ok((Term { from: a, to: d, op: CondUnit::Plus, unit: u }, e))
        },
    }
}

pub fn scan_op_symbol(s: &Vec<char>, a: usize) -> (r: Result<(CondUnit, usize), SyntaxError>)
    requires
        a <= s@.len(),
    ensures
        agrees(r, op_symbol(s@, a as int)),
        r matches Err(e) ==> e.pos <= s@.len(),
        r matches Ok((_, p)) ==> p <= s@.len(),
{
    if a < s.len() && s[a] == '+' {
        Ok((CondUnit::Plus, a + 1))
    } else if a < s.len() && s[a] == '*' {
        Ok((CondUnit::Star, a + 1))
    } else {
        Err(SyntaxError { pos: a, units: false, ops: true })
    }
}

pub fn scan_opt_op(s: &Vec<char>, a: usize) -> (r: Result<(CondUnit, usize), SyntaxError>)
    requires
        a <= s@.len(),
    ensures
        agrees(r, opt_op(s@, a as int)),
        r matches Err(e) ==> e.pos <= s@.len(),
        r matches Ok((_, o)) ==> o <= s@.len(),
{
    if a < s.len() && (s[a] == '+' || s[a] == '*') {
        return scan_op_symbol(s, a);
    }
    let a2 = skip_run(s, a, CharClass::Space);
    if a2 >= s.len() {
        return Ok((CondUnit::Plus, a2));
    }
    let d = skip_run(s, a2, CharClass::Digit);
    if d == a2 {
        return Err(SyntaxError { pos: a2, units: false, ops: true });
    }
    let b = skip_run(s, d, CharClass::Space);
    match scan_opt_unit(s, b) {
        Err(_) => Err(SyntaxError { pos: a2, units: true, ops: true }),
        Ok(_) => Ok((CondUnit::Plus, a2)),
    }
}

pub fn scan_chain_item(s: &Vec<char>, q: usize) -> (r: Result<(Option<Term>, usize), SyntaxError>)
    requires
        q <= s@.len(),
    ensures
        agrees(r, chain_item(s@, q as int)),
        r matches Err(e) ==> e.pos <= s@.len(),
        r matches Ok((t, n)) ==> n <= s@.len() && (t matches Some(t) ==> term_ok(s@, t)),
{
    let a = skip_run(s, q, CharClass::Space);
    match scan_opt_op(s, a) {
        Err(e) => Err(e),
        Ok((op, o)) => {
            let b = skip_run(s, o, CharClass::Space);
            let d = skip_run(s, b, CharClass::Digit);
            if d == b {
                return Ok((None, q));
            }
            proof {
                lemma_digit_run(s@, b as int);
            }
            let c = skip_run(s, d, CharClass::Space);
            match scan_opt_unit(s, c) {
                Err(e) => Err(e),
                Ok((u, r)) => {
                    let e = skip_run(s, r, CharClass::Space);
                    Ok((Some(Term { from: b, to: d, op, unit: u }), e))
                },
            }
        },
    }
}

pub fn scan_chain(s: &Vec<char>, q0: usize) -> (r: Result<(Vec<Term>, usize), SyntaxError>)
    requires
        q0 <= s@.len(),
    ensures
        match chain(s@, q0 as int) {
            Scan::Done(ts, e) => r matches Ok((v, p)) && v@ == ts && p == e,
            Scan::Fail(e) => r == Err::<(Vec<Term>, usize), SyntaxError>(e),
        },
        r matches Err(e) ==> e.pos <= s@.len(),
        r matches Ok((v, p)) ==> p <= s@.len() && forall|i: int|
            0 <= i < v@.len() ==> term_ok(s@, #[trigger] v@[i]),
{
    let mut acc: Vec<Term> = Vec::new();
    let mut q: usize = q0;
    loop
        invariant
            q <= s@.len(),
            chain(s@, q0 as int) == prepend(acc@, chain(s@, q as int)),
            forall|i: int| 0 <= i < acc@.len() ==> term_ok(s@, #[trigger] acc@[i]),
        decreases s@.len() - q,
    {
        match scan_chain_item(s, q) {
            Err(e) => {
                return Err(e);
            },
            Ok((None, _)) => {
                assert(acc@ + Seq::<Term>::empty() =~= acc@);
                return Ok((acc, q));
            },
            Ok((Some(t), next)) => {
                let ghost old_acc = acc@;
                acc.push(t);
                if next <= q {
                    assert(old_acc + seq![t] =~= acc@);
                    return Ok((acc, next));
                }
                proof {
                    match chain(s@, next as int) {
                        Scan::Done(ts, e) => {
                            assert(old_acc + (seq![t] + ts) =~= acc@ + ts);
                        },
                        Scan::Fail(_) => {},
                    }
                }
                q = next;
            },
        }
    }
}

/// A scanner run on a whole string agrees with its specification, handing back the rest
/// of the string after what it read.
pub open spec fn peeks<T>(
    input: Seq<char>,
    r: Result<(&str, T), SyntaxError>,
    sc: Scan<T>,
) -> bool {
    match sc {
        Scan::Done(v, p) => r matches Ok((rest, v2)) && v2 == v && rest@ == input.subrange(
            p,
            input.len() as int,
        ),
        Scan::Fail(e) => r == Err::<(&str, T), SyntaxError>(e),
    }
}

/// Reads an operator symbol at the start of `input`.
pub fn cond_unit1(input: &str) -> (r: Result<(&str, CondUnit), SyntaxError>)
    ensures
        peeks(input@, r, op_symbol(input@, 0)),
{
    let s = chars_of(input);
    match scan_op_symbol(&s, 0) {
        Ok((op, p)) => Ok((input.substring_char(p, s.len()), op)),
        Err(e) => Err(e),
    }
}

/// Reads a unit word at the start of `input`.
pub fn unit_abbr1(input: &str) -> (r: Result<(&str, TimeUnit), SyntaxError>)
    ensures
        peeks(input@, r, unit_word(input@, 0)),
{
    let s = chars_of(input);
    match scan_unit_word(&s, 0) {
        Ok((u, p)) => Ok((input.substring_char(p, s.len()), u)),
        Err(e) => Err(e),
    }
}

/// Reads an optional unit at the start of `input`: seconds where only spaces up to the
/// end or up to an operator follow.
pub fn opt_unit_abbr(input: &str) -> (r: Result<(&str, TimeUnit), SyntaxError>)
    ensures
        peeks(input@, r, opt_unit(input@, 0)),
{
    let s = chars_of(input);
    match scan_opt_unit(&s, 0) {
        Ok((u, p)) => Ok((input.substring_char(p, s.len()), u)),
        Err(e) => Err(e),
    }
}

/// Reads the leading term of `input` and computes its nanoseconds.
pub fn parse_expr_time(input: &str) -> (r: Result<(&str, u64), Failure>)
    ensures
        match lead_term(input@, 0) {
            Scan::Fail(e) => r == Err::<(&str, u64), Failure>(Failure::Syntax(e)),
            Scan::Done(t, q) => match term_value(
                input@.subrange(t.from as int, t.to as int),
                t.unit,
            ) {
                Ok(x) => r matches Ok((rest, v)) && v == x && rest@ == input@.subrange(
                    q,
                    input@.len() as int,
                ),
                Err(c) => r matches Err(Failure::Leading(e)) && reports(e, c),
            },
        },
{
    let s = chars_of(input);
    match scan_lead_term(&s, 0) {
        Err(e) => Err(Failure::Syntax(e)),
        Ok((t, q)) => match term_nanos(&s, t.from, t.to, t.unit) {
            Ok(x) => Ok((input.substring_char(q, s.len()), x)),
            Err(e) => Err(Failure::Leading(e)),
        },
    }
}

/// Reads a chain of terms at the start of `input`: each term's digits, the operator in
/// front of it and its unit, and the rest of the input after the chain.
pub fn cond_time<'a>(input: &'a str) -> (r: Result<
    (&'a str, Vec<(&'a str, CondUnit, TimeUnit)>),
    SyntaxError,
>)
    ensures
        match chain(input@, 0) {
            Scan::Done(ts, e) => r matches Ok((rest, v)) && rest@ == input@.subrange(
                e,
                input@.len() as int,
            ) && v@.len() == ts.len() && forall|i: int|
                0 <= i < ts.len() ==> (#[trigger] v@[i]).0@ == input@.subrange(
                    ts[i].from as int,
                    ts[i].to as int,
                ) && v@[i].1 == ts[i].op && v@[i].2 == ts[i].unit,
            Scan::Fail(e) => r is Err && r->Err_0 == e,
        },
{
    let s = chars_of(input);
    match scan_chain(&s, 0) {
        Err(e) => Err(e),
        Ok((ts, e)) => {
            let mut out: Vec<(&'a str, CondUnit, TimeUnit)> = Vec::new();
            let mut i: usize = 0;
            while i < ts.len()
                invariant
                    s@ == input@,
                    i <= ts@.len(),
                    out@.len() == i,
                    forall|j: int| 0 <= j < ts@.len() ==> term_ok(s@, #[trigger] ts@[j]),
                    forall|j: int|
                        0 <= j < i ==> (#[trigger] out@[j]).0@ == input@.subrange(
                            ts@[j].from as int,
                            ts@[j].to as int,
                        ) && out@[j].1 == ts@[j].op && out@[j].2 == ts@[j].unit,
                decreases ts@.len() - i,
            {
                let t = ts[i];
                assert(term_ok(s@, ts@[i as int]));
                out.push((input.substring_char(t.from, t.to), t.op, t.unit));
                i = i + 1;
            }
            Ok((input.substring_char(e, s.len()), out))
        },
    }
}

} // verus!
