use vstd::prelude::*;

use crate::calc::{all_digits, apply_op, fold_chain, start_value, term_value, CondUnit, TermView};
use crate::eval::{evaluate, Fault};
use crate::parser::{chain, lead_term, Scan};
use crate::render::spaces;
use crate::text::{in_class, is_letter, run_end, CharClass};
use crate::unit::{unit_of_word, TimeUnit};

verus! {

pub open spec fn all_letters(w: Seq<char>) -> bool {
    forall|i: int| 0 <= i < w.len() ==> is_letter(#[trigger] w[i])
}

/// A run of class `k` from `i` ends at `j` when everything in between is of the class and
/// what stands at `j` (if anything) is not.
pub proof fn lemma_run_end_span(s: Seq<char>, i: int, j: int, k: CharClass)
    requires
        0 <= i <= j <= s.len(),
        forall|m: int| i <= m < j ==> in_class(#[trigger] s[m], k),
        j < s.len() ==> !in_class(s[j], k),
    ensures
        run_end(s, i, k) == j,
    decreases j - i,
{
    if i < j {
        lemma_run_end_span(s, i + 1, j, k);
    }
}

/// At the end of the input a chain is empty.
pub proof fn lemma_chain_at_end(s: Seq<char>)
    ensures
        chain(s, s.len() as int) == Scan::Done(Seq::<crate::parser::Term>::empty(), s.len() as int),
{
    lemma_run_end_span(s, s.len() as int, s.len() as int, CharClass::Space);
    lemma_run_end_span(s, s.len() as int, s.len() as int, CharClass::Digit);
}

/// A single term, with any spaces before it, between its digits and its unit, and after
/// it, stands for its digits' value times its unit: `parse(digits + unit)` is
/// `digits * nanos_per_unit(unit)` nanoseconds, and spaces around either part change
/// nothing. A value that does not fit is reported as the leading term's error.
pub proof fn lemma_single_term(a: nat, d: Seq<char>, b: nat, w: Seq<char>, c: nat, u: TimeUnit)
    requires
        d.len() > 0,
        all_digits(d),
        w.len() > 0,
        all_letters(w),
        unit_of_word(w) == Some(u),
        a + d.len() + b + w.len() + c <= usize::MAX,
    ensures
        evaluate(spaces(a) + d + spaces(b) + w + spaces(c)) == match term_value(d, u) {
            Ok(x) => Ok::<nat, Fault>(x),
            Err(e) => Err(Fault::Leading(e)),
        },
{
    let s = spaces(a) + d + spaces(b) + w + spaces(c);
    let p0 = a as int;
    let p1 = p0 + d.len();
    let p2 = p1 + b;
    let p3 = p2 + w.len();
    let n = s.len() as int;
    assert(n == p3 + c);
    assert forall|m: int| 0 <= m < p0 implies in_class(#[trigger] s[m], CharClass::Space) by {
        assert(s[m] == ' ');
    }
    assert(crate::text::is_digit(d[0]));
    assert(s[p0] == d[0]);
    lemma_run_end_span(s, 0, p0, CharClass::Space);
    assert forall|m: int| p0 <= m < p1 implies in_class(#[trigger] s[m], CharClass::Digit) by {
        assert(s[m] == d[m - p0]);
        assert(crate::text::is_digit(d[m - p0]));
    }
    assert(is_letter(w[0]));
    if b > 0 {
        assert(s[p1] == ' ');
    } else {
        assert(s[p1] == w[0]);
    }
    lemma_run_end_span(s, p0, p1, CharClass::Digit);
    assert forall|m: int| p1 <= m < p2 implies in_class(#[trigger] s[m], CharClass::Space) by {
        assert(s[m] == ' ');
    }
    assert(s[p2] == w[0]);
    lemma_run_end_span(s, p1, p2, CharClass::Space);
    assert forall|m: int| p2 <= m < p3 implies in_class(#[trigger] s[m], CharClass::Letter) by {
        assert(s[m] == w[m - p2]);
        assert(is_letter(w[m - p2]));
    }
    if c > 0 {
        assert(s[p3] == ' ');
    }
    lemma_run_end_span(s, p2, p3, CharClass::Letter);
    assert(s.subrange(p2, p3) =~= w);
    assert forall|m: int| p3 <= m < n implies in_class(#[trigger] s[m], CharClass::Space) by {
        assert(s[m] == ' ');
    }
    lemma_run_end_span(s, p3, n, CharClass::Space);
    assert(s.subrange(p0, p1) =~= d);
    lemma_chain_at_end(s);
    assert(crate::parser::opt_unit(s, p2) == Scan::Done(u, p3));
    assert(lead_term(s, 0) == Scan::Done(
        crate::parser::Term {
            from: p0 as usize,
            to: p1 as usize,
            op: CondUnit::Plus,
            unit: u,
        },
        n,
    ));
    assert(crate::eval::views(s, Seq::empty()) =~= Seq::<TermView>::empty());
}

/// A bare number, with any spaces around it, is a number of seconds.
pub proof fn lemma_bare_number(a: nat, d: Seq<char>, c: nat)
    requires
        d.len() > 0,
        all_digits(d),
        a + d.len() + c <= usize::MAX,
    ensures
        evaluate(spaces(a) + d + spaces(c)) == match term_value(d, TimeUnit::Second) {
            Ok(x) => Ok::<nat, Fault>(x),
            Err(e) => Err(Fault::Leading(e)),
        },
{
    let s = spaces(a) + d + spaces(c);
    let p0 = a as int;
    let p1 = p0 + d.len();
    let n = s.len() as int;
    assert forall|m: int| 0 <= m < p0 implies in_class(#[trigger] s[m], CharClass::Space) by {
        assert(s[m] == ' ');
    }
    assert(crate::text::is_digit(d[0]));
    assert(s[p0] == d[0]);
    lemma_run_end_span(s, 0, p0, CharClass::Space);
    assert forall|m: int| p0 <= m < p1 implies in_class(#[trigger] s[m], CharClass::Digit) by {
        assert(s[m] == d[m - p0]);
        assert(crate::text::is_digit(d[m - p0]));
    }
    if c > 0 {
        assert(s[p1] == ' ');
    }
    lemma_run_end_span(s, p0, p1, CharClass::Digit);
    assert forall|m: int| p1 <= m < n implies in_class(#[trigger] s[m], CharClass::Space) by {
        assert(s[m] == ' ');
    }
    lemma_run_end_span(s, p1, n, CharClass::Space);
    lemma_run_end_span(s, n, n, CharClass::Letter);
    lemma_run_end_span(s, n, n, CharClass::Space);
    assert(s.subrange(p0, p1) =~= d);
    lemma_chain_at_end(s);
    assert(crate::parser::opt_unit(s, n) == Scan::Done(TimeUnit::Second, n));
    assert(lead_term(s, 0) == Scan::Done(
        crate::parser::Term {
            from: p0 as usize,
            to: p1 as usize,
            op: CondUnit::Plus,
            unit: TimeUnit::Second,
        },
        n,
    ));
    assert(crate::eval::views(s, Seq::empty()) =~= Seq::<TermView>::empty());
}

/// A chain that folds without error uses one operator throughout: the first term's.
pub proof fn lemma_chain_uniform(ts: Seq<TermView>)
    requires
        fold_chain(ts) is Ok,
    ensures
        forall|i: int| 0 <= i < ts.len() ==> (#[trigger] ts[i]).1 == ts[0].1,
        ts.len() > 0 ==> fold_chain(ts)->Ok_0.0 == ts[0].1,
    decreases ts.len(),
{
    if ts.len() > 1 {
        lemma_chain_uniform(ts.drop_last());
        assert forall|i: int| 0 <= i < ts.len() implies (#[trigger] ts[i]).1 == ts[0].1 by {
            if i < ts.len() - 1 {
                assert(ts[i] == ts.drop_last()[i]);
            }
        }
    }
}

pub open spec fn op_char(op: CondUnit) -> char {
    match op {
        CondUnit::Plus => '+',
        CondUnit::Star => '*',
    }
}

/// Steps over a digit run and a unit word that stand at `p` of `s`, followed by the end
/// or by a character that is not a letter.
pub proof fn lemma_term_scan(s: Seq<char>, p: int, d: Seq<char>, w: Seq<char>, u: TimeUnit)
    requires
        0 <= p,
        p + d.len() + w.len() <= s.len(),
        d.len() > 0,
        all_digits(d),
        w.len() > 0,
        all_letters(w),
        unit_of_word(w) == Some(u),
        s.subrange(p, p + d.len()) == d,
        s.subrange(p + d.len(), p + d.len() + w.len()) == w,
        p + d.len() + w.len() < s.len() ==> !is_letter(s[p + d.len() + w.len()]),
    ensures
        run_end(s, p, CharClass::Space) == p,
        run_end(s, p, CharClass::Digit) == p + d.len(),
        run_end(s, p + d.len(), CharClass::Space) == p + d.len(),
        crate::parser::opt_unit(s, p + d.len()) == Scan::Done(u, p + d.len() + w.len()),
        p + d.len() + w.len() < s.len() && !crate::text::is_space(s[p + d.len() + w.len()])
            ==> run_end(s, p + d.len() + w.len(), CharClass::Space) == p + d.len() + w.len(),
{
    let p1 = p + d.len();
    let p2 = p1 + w.len();
    assert(s[p] == d[0]);
    assert(crate::text::is_digit(d[0]));
    lemma_run_end_span(s, p, p, CharClass::Space);
    assert forall|m: int| p <= m < p1 implies in_class(#[trigger] s[m], CharClass::Digit) by {
        assert(s[m] == s.subrange(p, p1)[m - p]);
        assert(crate::text::is_digit(d[m - p]));
    }
    assert(s[p1] == w[0]) by {
        assert(s[p1] == s.subrange(p1, p2)[0]);
    }
    assert(is_letter(w[0]));
    lemma_run_end_span(s, p, p1, CharClass::Digit);
    lemma_run_end_span(s, p1, p1, CharClass::Space);
    assert forall|m: int| p1 <= m < p2 implies in_class(#[trigger] s[m], CharClass::Letter) by {
        assert(s[m] == s.subrange(p1, p2)[m - p1]);
        assert(is_letter(w[m - p1]));
    }
    lemma_run_end_span(s, p1, p2, CharClass::Letter);
    if p2 < s.len() && !crate::text::is_space(s[p2]) {
        lemma_run_end_span(s, p2, p2, CharClass::Space);
    }
}

/// Two terms joined by an operator: a sum is checked, a product is the fixed-point
/// product (exact to the nanosecond, rounded down), and a result beyond `u64::MAX`
/// nanoseconds is an overflow error, never a wrapped value.
pub proof fn lemma_two_terms(
    d1: Seq<char>,
    w1: Seq<char>,
    u1: TimeUnit,
    op: CondUnit,
    d2: Seq<char>,
    w2: Seq<char>,
    u2: TimeUnit,
)
    requires
        d1.len() > 0,
        all_digits(d1),
        w1.len() > 0,
        all_letters(w1),
        unit_of_word(w1) == Some(u1),
        d2.len() > 0,
        all_digits(d2),
        w2.len() > 0,
        all_letters(w2),
        unit_of_word(w2) == Some(u2),
        d1.len() + w1.len() + 1 + d2.len() + w2.len() <= usize::MAX,
    ensures
        evaluate(d1 + w1 + seq![op_char(op)] + d2 + w2) == match term_value(d1, u1) {
            Err(e) => Err(Fault::Leading(e)),
            Ok(x) => match term_value(d2, u2) {
                Err(e) => Err(Fault::Eval(e)),
                Ok(y) => match apply_op(op, x, y) {
                    Ok(n) => Ok::<nat, Fault>(n),
                    Err(e) => Err(Fault::Eval(e)),
                },
            },
        },
{
    let s = d1 + w1 + seq![op_char(op)] + d2 + w2;
    let p1 = d1.len() as int;
    let p2 = p1 + w1.len();
    let p3 = p2 + 1;
    let p4 = p3 + d2.len();
    let n = s.len() as int;
    assert(s.subrange(0, p1) =~= d1);
    assert(s.subrange(p1, p2) =~= w1);
    assert(s[p2] == op_char(op));
    lemma_term_scan(s, 0, d1, w1, u1);
    assert(s.subrange(p3, p4) =~= d2);
    assert(s.subrange(p4, n) =~= w2);
    lemma_term_scan(s, p3, d2, w2, u2);
    lemma_chain_at_end(s);
    let t0 = crate::parser::Term { from: 0, to: p1 as usize, op: CondUnit::Plus, unit: u1 };
    let t1 = crate::parser::Term { from: p3 as usize, to: p4 as usize, op, unit: u2 };
    assert(lead_term(s, 0) == Scan::Done(t0, p2));
    assert(crate::parser::opt_op(s, p2) == Scan::Done(op, p3));
    assert(crate::parser::chain_item(s, p2) == Scan::Done(Some(t1), n));
    assert(chain(s, p2) == Scan::Done(seq![t1], n)) by {
        assert(seq![t1] + Seq::<crate::parser::Term>::empty() =~= seq![t1]);
    }
    let vs = crate::eval::views(s, seq![t1]);
    assert(vs =~= seq![(d2, op, u2)]);
    assert(vs.drop_last() =~= Seq::<TermView>::empty());
    assert(fold_chain(Seq::<TermView>::empty()) == Ok::<(CondUnit, nat), crate::calc::Cause>(
        (CondUnit::Star, 1_000_000_000),
    ));
    match term_value(d2, u2) {
        Ok(y) => {
            if op == CondUnit::Star {
                assert(1_000_000_000 * y / 1_000_000_000 == y) by (nonlinear_arith);
            }
            assert(apply_op(op, start_value(op), y) == Ok::<nat, crate::calc::Cause>(y));
            assert(fold_chain(vs) == Ok::<(CondUnit, nat), crate::calc::Cause>((op, y)));
        },
        Err(e) => {
            assert(fold_chain(vs) == Err::<(CondUnit, nat), crate::calc::Cause>(e));
        },
    }
}

} // verus!
