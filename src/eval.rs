use vstd::prelude::*;

use crate::calc::{
    apply_op, cause_text, fold_chain, reports, term_nanos, term_value, Cause, CondUnit, DError,
    TermView,
};
use crate::render::{render, render_at};
use crate::parser::{chain, lead_term, scan_chain, scan_lead_term, term_ok, Scan, SyntaxError, Term};

verus! {

/// Why an input has no duration.
pub enum Fault {
    /// The input does not match the grammar.
    Syntax(SyntaxError),
    /// The leading term is well formed but its value does not fit.
    Leading(Cause),
    /// The input matches the grammar but the arithmetic on its terms fails.
    Eval(Cause),
}

/// Why an input has no duration, with the error values that name the cause.
#[derive(Debug, PartialEq, Eq)]
pub enum Failure {
    Syntax(SyntaxError),
    Leading(DError),
    Eval(DError),
}

/// `f` is the failure value for the fault `g`.
pub open spec fn failure_is(f: Failure, g: Fault) -> bool {
    match g {
        Fault::Syntax(e) => f == Failure::Syntax(e),
        Fault::Leading(c) => f matches Failure::Leading(e) && reports(e, c),
        Fault::Eval(c) => f matches Failure::Eval(e) && reports(e, c),
    }
}

pub open spec fn term_view(s: Seq<char>, t: Term) -> TermView {
    (s.subrange(t.from as int, t.to as int), t.op, t.unit)
}

pub open spec fn views(s: Seq<char>, ts: Seq<Term>) -> Seq<TermView> {
    ts.map_values(|t: Term| term_view(s, t))
}

/// Joins the leading term's value with what its chain folded to. Without a chain the
/// leading value stands as it is.
pub open spec fn combine(x: nat, ts: Seq<TermView>) -> Result<nat, Cause> {
    if ts.len() == 0 {
        Ok(x)
    } else {
        match fold_chain(ts) {
            Err(c) => Err(c),
            Ok(f) => apply_op(f.0, x, f.1),
        }
    }
}

/// The nanoseconds that the input `s` stands for. The leading term is read and converted
/// first; then the chain is read, the whole input must be used, and the chain is folded and
/// joined with the leading value.
pub open spec fn evaluate(s: Seq<char>) -> Result<nat, Fault> {
    match lead_term(s, 0) {
        Scan::Fail(e) => Err(Fault::Syntax(e)),
        Scan::Done(t0, q) => match term_value(s.subrange(t0.from as int, t0.to as int), t0.unit) {
            Err(c) => Err(Fault::Leading(c)),
            Ok(x) => match chain(s, q) {
                Scan::Fail(e) => Err(Fault::Syntax(e)),
                Scan::Done(ts, e) => if e != s.len() {
                    Err(Fault::Syntax(SyntaxError { pos: e as usize, units: false, ops: false }))
                } else {
                    match combine(x, views(s, ts)) {
                        Err(c) => Err(Fault::Eval(c)),
                        Ok(n) => Ok(n),
                    }
                },
            },
        },
    }
}

/// An error in a prefix of a chain is the error of the whole chain.
proof fn lemma_fold_error_persists(ts: Seq<TermView>, i: int)
    requires
        0 <= i <= ts.len(),
        fold_chain(ts.take(i)) is Err,
    ensures
        fold_chain(ts) == fold_chain(ts.take(i)),
    decreases ts.len() - i,
{
    if i < ts.len() {
        assert(ts.take(i + 1).drop_last() =~= ts.take(i));
        lemma_fold_error_persists(ts, i + 1);
    } else {
        assert(ts.take(i) =~= ts);
    }
}

fn mixed_message(first: CondUnit, other: CondUnit) -> (r: String)
    ensures
        r@ == crate::calc::cause_text(Cause::Mixed(first, other)),
{
    let mut m = "not support '".to_string();
    m.append(first.symbol());
    m.append("' with '");
    m.append(other.symbol());
    m.append("' calculate");
    m
}

/// Folds the chain `ts` of terms of `s` from the left.
pub fn fold_terms(s: &Vec<char>, ts: &Vec<Term>) -> (r: Result<(CondUnit, u64), DError>)
    requires
        forall|i: int| 0 <= i < ts@.len() ==> term_ok(s@, #[trigger] ts@[i]),
    ensures
        match fold_chain(views(s@, ts@)) {
            Ok(f) => r == Ok::<(CondUnit, u64), DError>((f.0, f.1 as u64)),
            Err(c) => r matches Err(e) && reports(e, c),
        },
{
    let ghost vs = views(s@, ts@);
    let (mut op, mut acc) = CondUnit::init();
    let mut i: usize = 0;
    assert(vs.take(0) =~= Seq::<TermView>::empty());
    while i < ts.len()
        invariant
            i <= ts@.len(),
            vs == views(s@, ts@),
            forall|j: int| 0 <= j < ts@.len() ==> term_ok(s@, #[trigger] ts@[j]),
            fold_chain(vs.take(i as int)) == Ok::<(CondUnit, nat), Cause>((op, acc as nat)),
        decreases ts@.len() - i,
    {
        let t = ts[i];
        assert(term_ok(s@, ts@[i as int]));
        assert(vs.take(i + 1).drop_last() =~= vs.take(i as int));
        assert(vs.take(i + 1).last() == term_view(s@, t));
        if i == 0 {
            op = t.op;
            acc = t.op.change_duration();
        } else if op != t.op {
            proof {
                lemma_fold_error_persists(vs, i + 1);
            }
            return Err(DError::ParseError(mixed_message(op, t.op)));
        }
        let v = match term_nanos(s, t.from, t.to, t.unit) {
            Ok(v) => v,
            Err(e) => {
                proof {
                    lemma_fold_error_persists(vs, i + 1);
                }
                return Err(e);
            },
        };
        acc = match op.calc(acc, v) {
            Ok(n) => n,
            Err(e) => {
                proof {
                    lemma_fold_error_persists(vs, i + 1);
                }
                return Err(e);
            },
        };
        i = i + 1;
    }
    assert(vs.take(ts@.len() as int) =~= vs);
    Ok((op, acc))
}

/// Computes the nanoseconds that the characters `s` stand for.
pub fn evaluate_chars(s: &Vec<char>) -> (r: Result<u64, Failure>)
    ensures
        match evaluate(s@) {
            Ok(n) => r == Ok::<u64, Failure>(n as u64),
            Err(g) => r matches Err(f) && failure_is(f, g),
        },
        r matches Err(Failure::Syntax(e)) ==> e.pos <= s@.len(),
{
    let (t0, q) = match scan_lead_term(s, 0) {
        Ok(x) => x,
        Err(e) => {
            return Err(Failure::Syntax(e));
        },
    };
    let x = match term_nanos(s, t0.from, t0.to, t0.unit) {
        Ok(x) => x,
        Err(e) => {
            return Err(Failure::Leading(e));
        },
    };
    let (ts, e) = match scan_chain(s, q) {
        Ok(c) => c,
        Err(e) => {
            return Err(Failure::Syntax(e));
        },
    };
    if e != s.len() {
        return Err(Failure::Syntax(SyntaxError { pos: e, units: false, ops: false }));
    }
    if ts.len() == 0 {
        return Ok(x);
    }
    let (op, acc) = match fold_terms(s, &ts) {
        Ok(f) => f,
        Err(e) => {
            return Err(Failure::Eval(e));
        },
    };
    match op.calc(x, acc) {
        Ok(n) => Ok(n),
        Err(e) => Err(Failure::Eval(e)),
    }
}

/// What a syntax error says was expected.
pub open spec fn expected_text(units: bool, ops: bool) -> Seq<char> {
    if !units && !ops {
        Seq::empty()
    } else {
        "expected "@ + (if units {
            "[\"y\", \"mon\", \"w\", \"d\", \"h\", \"m\", \"s\", \"ms\", \"µs\", \"us\", \"ns\"]"@
        } else {
            Seq::empty()
        }) + (if units && ops {
            ", "@
        } else {
            Seq::empty()
        }) + (if ops {
            "['+', '*']"@
        } else {
            Seq::empty()
        })
    }
}

/// The diagnostic for the fault `g` on the input `s`. Syntax errors and a leading term
/// that does not fit point into the input; the other arithmetic errors are their reason
/// alone.
pub open spec fn fault_text(s: Seq<char>, g: Fault) -> Seq<char> {
    match g {
        Fault::Syntax(e) => render_at(s, e.pos as int, expected_text(e.units, e.ops)),
        Fault::Leading(c) => render_at(s, 0, cause_text(c)),
        Fault::Eval(c) => cause_text(c),
    }
}

pub fn expected(units: bool, ops: bool) -> (r: String)
    ensures
        r@ == expected_text(units, ops),
{
    let mut m = String::new();
    if !units && !ops {
        return m;
    }
    m.append("expected ");
    if units {
        m.append(
            "[\"y\", \"mon\", \"w\", \"d\", \"h\", \"m\", \"s\", \"ms\", \"µs\", \"us\", \"ns\"]",
        );
    }
    if units && ops {
        m.append(", ");
    }
    if ops {
        m.append("['+', '*']");
    }
    assert(m@ =~= expected_text(units, ops));
    m
}

/// Renders the syntax error `e` found in `input`.
pub fn render_error(input: &str, e: SyntaxError) -> (r: String)
    requires
        e.pos <= input@.len(),
    ensures
        r@ == render_at(input@, e.pos as int, expected_text(e.units, e.ops)),
{
    let s = crate::text::chars_of(input);
    let inner = expected(e.units, e.ops);
    render(input, &s, e.pos, inner.as_str())
}

/// The diagnostic for the failure `f` of `input`.
pub fn describe(input: &str, s: &Vec<char>, f: &Failure, Ghost(g): Ghost<Fault>) -> (r: String)
    requires
        s@ == input@,
        failure_is(*f, g),
        f matches Failure::Syntax(e) ==> e.pos <= s@.len(),
    ensures
        r@ == fault_text(input@, g),
{
    match f {
        Failure::Syntax(e) => {
            let inner = expected(e.units, e.ops);
            render(input, s, e.pos, inner.as_str())
        },
        Failure::Leading(e) => {
            let inner = e.message();
            render(input, s, 0, inner.as_str())
        },
        Failure::Eval(e) => e.message(),
    }
}

} // verus!
