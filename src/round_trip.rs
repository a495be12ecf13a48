use vstd::arithmetic::div_mod::{lemma_div_denominator, lemma_fundamental_div_mod, lemma_mod_mod};
use vstd::prelude::*;

use crate::calc::{all_digits, apply_op, digits_value, fold_chain, term_value, CondUnit, TermView};
use crate::eval::{combine, evaluate, views, Fault};
use crate::ext::{accrued, human_text, unit_text};
use crate::laws::{all_letters, lemma_chain_at_end, lemma_run_end_span, lemma_single_term};
use crate::parser::{chain, chain_item, lead_term, opt_op, opt_unit, Scan, Term};
use crate::render::{decimal, digit_text, spaces};
use crate::text::{is_digit, lower_seq, run_end, CharClass};
use crate::unit::{nanos_per_unit, unit_of_word, TimeUnit};

verus! {

proof fn lemma_digit_text(d: nat)
    requires
        d < 10,
    ensures
        digit_text(d).len() == 1,
        crate::text::is_digit(digit_text(d)[0]),
        crate::calc::digit_value(digit_text(d)[0]) == d,
{
    reveal_strlit("0");
    reveal_strlit("1");
    reveal_strlit("2");
    reveal_strlit("3");
    reveal_strlit("4");
    reveal_strlit("5");
    reveal_strlit("6");
    reveal_strlit("7");
    reveal_strlit("8");
    reveal_strlit("9");
}

/// Decimal notation reads back as the number it writes.
pub proof fn lemma_decimal_reads_back(v: nat)
    ensures
        decimal(v).len() > 0,
        all_digits(decimal(v)),
        digits_value(decimal(v)) == v,
    decreases v,
{
    if v < 10 {
        lemma_digit_text(v);
        assert(decimal(v).drop_last() =~= Seq::<char>::empty());
        assert(digits_value(Seq::<char>::empty()) == 0);
        assert(decimal(v).last() == decimal(v)[0]);
    } else {
        lemma_decimal_reads_back(v / 10);
        lemma_digit_text(v % 10);
        let t = decimal(v);
        assert(t.drop_last() =~= decimal(v / 10));
        assert(t.last() == digit_text(v % 10)[0]);
        assert(v == (v / 10) * 10 + v % 10);
        assert forall|i: int| 0 <= i < t.len() implies crate::text::is_digit(#[trigger] t[i]) by {
            if i < t.len() - 1 {
                assert(t[i] == decimal(v / 10)[i]);
            }
        }
    }
}

/// The abbreviation a unit is written with names that unit again.
pub proof fn lemma_unit_text_names(u: TimeUnit)
    ensures
        unit_text(u).len() > 0,
        all_letters(unit_text(u)),
        unit_of_word(unit_text(u)) == Some(u),
{
    reveal_strlit("y");
    reveal_strlit("year");
    reveal_strlit("years");
    reveal_strlit("mon");
    reveal_strlit("month");
    reveal_strlit("months");
    reveal_strlit("w");
    reveal_strlit("week");
    reveal_strlit("weeks");
    reveal_strlit("d");
    reveal_strlit("day");
    reveal_strlit("days");
    reveal_strlit("h");
    reveal_strlit("hr");
    reveal_strlit("hour");
    reveal_strlit("hours");
    reveal_strlit("m");
    reveal_strlit("min");
    reveal_strlit("minute");
    reveal_strlit("minutes");
    reveal_strlit("s");
    reveal_strlit("sec");
    reveal_strlit("second");
    reveal_strlit("seconds");
    reveal_strlit("ms");
    reveal_strlit("msec");
    reveal_strlit("millisecond");
    reveal_strlit("milliseconds");
    reveal_strlit("µs");
    reveal_strlit("µsec");
    reveal_strlit("µsecond");
    reveal_strlit("us");
    reveal_strlit("usec");
    reveal_strlit("usecond");
    reveal_strlit("microsecond");
    reveal_strlit("microseconds");
    reveal_strlit("ns");
    reveal_strlit("nsec");
    reveal_strlit("nanosecond");
    reveal_strlit("nanoseconds");
    let w = unit_text(u);
    assert(lower_seq(w) =~= w);
    match u {
        TimeUnit::Year => {
            assert(w =~= "y"@);
            assert(lower_seq(w) == "y"@);
        },
        TimeUnit::Month => {
            assert(w =~= "mon"@);
            assert(lower_seq(w) == "mon"@);
        },
        TimeUnit::Week => {
            assert(w =~= "w"@);
            assert(lower_seq(w) == "w"@);
            assert(w[0] != "y"@[0]);
        },
        TimeUnit::Day => {
            assert(w =~= "d"@);
            assert(lower_seq(w) == "d"@);
            assert(w[0] != "y"@[0]);
            assert(w[0] != "w"@[0]);
        },
        TimeUnit::Hour => {
            assert(w =~= "h"@);
            assert(lower_seq(w) == "h"@);
            assert(w[0] != "y"@[0]);
            assert(w[0] != "w"@[0]);
            assert(w[0] != "d"@[0]);
        },
        TimeUnit::Minute => {
            assert(w =~= "min"@);
            assert(lower_seq(w) == "min"@);
            assert(w[1] != "mon"@[1]);
            assert(w[0] != "day"@[0]);
        },
        TimeUnit::Second => {
            assert(w =~= "s"@);
            assert(lower_seq(w) == "s"@);
            assert(w[0] != "y"@[0]);
            assert(w[0] != "w"@[0]);
            assert(w[0] != "d"@[0]);
            assert(w[0] != "h"@[0]);
            assert(w[0] != "m"@[0]);
        },
        TimeUnit::MilliSecond => {
            assert(w =~= "ms"@);
            assert(lower_seq(w) == "ms"@);
            assert(w[0] != "hr"@[0]);
        },
        TimeUnit::MicroSecond => {
            assert(w =~= "µs"@);
            assert(lower_seq(w) == "µs"@);
            assert(w[0] != "hr"@[0]);
            assert(w[0] != "ms"@[0]);
        },
        TimeUnit::NanoSecond => {
            assert(w =~= "ns"@);
            assert(lower_seq(w) == "ns"@);
            assert(w[0] != "hr"@[0]);
            assert(w[0] != "ms"@[0]);
            assert(w[0] != "µs"@[0]);
            assert(w[0] != "us"@[0]);
        },
    }
}

/// A number and its unit, one part of a formatted duration.
pub type Piece = (nat, TimeUnit);

pub open spec fn piece_text(p: Piece) -> Seq<char> {
    decimal(p.0) + unit_text(p.1)
}

/// The pieces written one after another, separated by single spaces.
pub open spec fn joined(ps: Seq<Piece>) -> Seq<char>
    decreases ps.len(),
{
    if ps.len() == 0 {
        Seq::empty()
    } else if ps.len() == 1 {
        piece_text(ps[0])
    } else {
        piece_text(ps[0]) + seq![' '] + joined(ps.drop_first())
    }
}

/// The nanoseconds that the pieces add up to.
pub open spec fn total(ps: Seq<Piece>) -> nat
    decreases ps.len(),
{
    if ps.len() == 0 {
        0
    } else {
        total(ps.drop_last()) + ps.last().0 * nanos_per_unit(ps.last().1)
    }
}

pub open spec fn plus_views(ps: Seq<Piece>) -> Seq<TermView> {
    ps.map_values(|p: Piece| (decimal(p.0), CondUnit::Plus, p.1))
}

proof fn lemma_piece_text(p: Piece)
    ensures
        piece_text(p).len() == decimal(p.0).len() + unit_text(p.1).len(),
        decimal(p.0).len() > 0,
        unit_text(p.1).len() > 0,
        is_digit(piece_text(p)[0]),
{
    lemma_decimal_reads_back(p.0);
    lemma_unit_text_names(p.1);
    assert(piece_text(p)[0] == decimal(p.0)[0]);
}

/// Scanning a piece that stands at `p` of `s`, followed by the end or by a space and a
/// digit.
proof fn lemma_piece_at(s: Seq<char>, p: int, pc: Piece)
    requires
        0 <= p,
        p + piece_text(pc).len() <= s.len(),
        s.subrange(p, p + piece_text(pc).len()) == piece_text(pc),
        p + piece_text(pc).len() == s.len() || (s[p + piece_text(pc).len()] == ' ' && p
            + piece_text(pc).len() + 1 < s.len() && is_digit(s[p + piece_text(pc).len() + 1])),
    ensures
        run_end(s, p, CharClass::Space) == p,
        run_end(s, p, CharClass::Digit) == p + decimal(pc.0).len(),
        run_end(s, p + decimal(pc.0).len(), CharClass::Space) == p + decimal(pc.0).len(),
        opt_unit(s, p + decimal(pc.0).len()) == Scan::Done(pc.1, p + piece_text(pc).len()),
        run_end(s, p + piece_text(pc).len(), CharClass::Space) == if p + piece_text(pc).len()
            == s.len() {
            p + piece_text(pc).len()
        } else {
            p + piece_text(pc).len() + 1
        },
        s.subrange(p, p + decimal(pc.0).len()) == decimal(pc.0),
        opt_op(s, p) == Scan::Done(CondUnit::Plus, p),
{
    lemma_piece_text(pc);
    lemma_decimal_reads_back(pc.0);
    lemma_unit_text_names(pc.1);
    let dv = decimal(pc.0);
    let w = unit_text(pc.1);
    let p1 = p + dv.len();
    let e = p1 + w.len();
    assert(s.subrange(p, p1) =~= dv) by {
        assert forall|i: int| 0 <= i < dv.len() implies s.subrange(p, p1)[i] == dv[i] by {
            assert(s.subrange(p, p1)[i] == s.subrange(p, e)[i]);
        }
    }
    assert(s.subrange(p1, e) =~= w) by {
        assert forall|i: int| 0 <= i < w.len() implies s.subrange(p1, e)[i] == w[i] by {
            assert(s.subrange(p1, e)[i] == s.subrange(p, e)[i + dv.len()]);
        }
    }
    crate::laws::lemma_term_scan(s, p, dv, w, pc.1);
    if e < s.len() {
        assert(s[e + 1] == s[e + 1]);
        lemma_run_end_span(s, e, e + 1, CharClass::Space);
    }
}

proof fn lemma_joined_starts(ps: Seq<Piece>)
    requires
        ps.len() > 0,
    ensures
        joined(ps).len() >= piece_text(ps[0]).len(),
        joined(ps).subrange(0, piece_text(ps[0]).len() as int) == piece_text(ps[0]),
        ps.len() == 1 ==> joined(ps).len() == piece_text(ps[0]).len(),
        ps.len() > 1 ==> joined(ps)[piece_text(ps[0]).len() as int] == ' ' && joined(ps).len()
            > piece_text(ps[0]).len() + 1 && is_digit(joined(ps)[piece_text(ps[0]).len() + 1int]),
    decreases ps.len(),
{
    let t = piece_text(ps[0]);
    assert(joined(ps).subrange(0, t.len() as int) =~= t);
    if ps.len() > 1 {
        lemma_piece_text(ps[1]);
        lemma_joined_starts(ps.drop_first());
        assert(joined(ps.drop_first())[0] == piece_text(ps.drop_first()[0])[0]);
    }
}

/// From the start of a run of space-separated pieces to the end of the input, the chain
/// holds one `+` term for each piece.
proof fn lemma_chain_pieces(pre: Seq<char>, ps: Seq<Piece>)
    requires
        (pre + joined(ps)).len() <= usize::MAX,
    ensures
        chain(pre + joined(ps), pre.len() as int) matches Scan::Done(ts, e) && e == (pre
            + joined(ps)).len() && views(pre + joined(ps), ts) == plus_views(ps),
    decreases ps.len(),
{
    let s = pre + joined(ps);
    let q = pre.len() as int;
    if ps.len() == 0 {
        assert(s =~= pre);
        lemma_chain_at_end(s);
        assert(views(s, Seq::empty()) =~= plus_views(ps));
    } else {
        let pc = ps[0];
        let t = piece_text(pc);
        let e = q + t.len();
        lemma_joined_starts(ps);
        lemma_piece_text(pc);
        assert(s.subrange(q, e) =~= joined(ps).subrange(0, t.len() as int));
        if ps.len() > 1 {
            assert(s[e] == joined(ps)[t.len() as int]);
            assert(s[e + 1] == joined(ps)[t.len() + 1int]);
        }
        lemma_piece_at(s, q, pc);
        let dl = decimal(pc.0).len();
        let term = Term { from: q as usize, to: (q + dl) as usize, op: CondUnit::Plus, unit: pc.1 };
        let next = if ps.len() > 1 {
            e + 1
        } else {
            e
        };
        assert(chain_item(s, q) == Scan::Done(Some(term), next));
        if ps.len() == 1 {
            assert(next == s.len());
            lemma_chain_at_end(s);
            assert(chain(s, q) == Scan::Done(seq![term], next)) by {
                assert(seq![term] + Seq::<Term>::empty() =~= seq![term]);
            }
            assert(views(s, seq![term]) =~= plus_views(ps));
        } else {
            let pre2 = pre + t + seq![' '];
            let rest = ps.drop_first();
            assert(s =~= pre2 + joined(rest));
            assert(pre2.len() == next);
            lemma_chain_pieces(pre2, rest);
            let ts = chain(s, next)->Done_0;
            assert(chain(s, q) == Scan::Done(seq![term] + ts, s.len() as int));
            assert(views(s, ts) == plus_views(rest));
            assert(views(s, ts).len() == ts.len());
            assert(ts.len() == rest.len());
            assert(views(s, seq![term] + ts) =~= plus_views(ps)) by {
                assert forall|i: int| 0 <= i < ps.len() implies views(s, seq![term] + ts)[i]
                    == plus_views(ps)[i] by {
                    if i > 0 {
                        assert(views(s, seq![term] + ts)[i] == views(s, ts)[i - 1]);
                        assert(plus_views(rest)[i - 1] == plus_views(ps)[i]);
                    }
                }
            }
        }
    }
}

proof fn lemma_total_first(ps: Seq<Piece>)
    requires
        ps.len() > 0,
    ensures
        total(ps) == ps[0].0 * nanos_per_unit(ps[0].1) + total(ps.drop_first()),
        total(ps.drop_first()) <= total(ps),
    decreases ps.len(),
{
    if ps.len() > 1 {
        lemma_total_first(ps.drop_last());
        assert(ps.drop_last().drop_first() =~= ps.drop_first().drop_last());
        assert(ps.drop_last()[0] == ps[0]);
        assert(ps.drop_first().last() == ps.last());
    } else {
        assert(ps.drop_last() =~= Seq::<Piece>::empty());
        assert(ps.drop_first() =~= Seq::<Piece>::empty());
    }
}

/// A chain of `+` terms for the pieces folds to their total, when that fits.
proof fn lemma_fold_pieces(ps: Seq<Piece>)
    requires
        ps.len() > 0,
        total(ps) <= u64::MAX,
    ensures
        fold_chain(plus_views(ps)) == Ok::<(CondUnit, nat), crate::calc::Cause>(
            (CondUnit::Plus, total(ps)),
        ),
    decreases ps.len(),
{
    let vs = plus_views(ps);
    let last = ps.last();
    lemma_decimal_reads_back(last.0);
    let ns = nanos_per_unit(last.1);
    assert(ns >= 1);
    assert(last.0 <= last.0 * ns) by (nonlinear_arith)
        requires
            ns >= 1,
    ;
    assert(vs.drop_last() =~= plus_views(ps.drop_last()));
    assert(vs.last() == (decimal(last.0), CondUnit::Plus, last.1));
    assert(term_value(decimal(last.0), last.1) == Ok::<nat, crate::calc::Cause>(last.0 * ns));
    if ps.len() > 1 {
        lemma_fold_pieces(ps.drop_last());
    } else {
        assert(ps.drop_last() =~= Seq::<Piece>::empty());
        assert(plus_views(ps.drop_last()) =~= Seq::<TermView>::empty());
    }
}

/// Space-separated pieces read back as their total, when that fits.
proof fn lemma_evaluate_joined(ps: Seq<Piece>)
    requires
        ps.len() > 0,
        total(ps) <= u64::MAX,
        joined(ps).len() <= usize::MAX,
    ensures
        evaluate(joined(ps)) == Ok::<nat, Fault>(total(ps)),
{
    let s = joined(ps);
    let pc = ps[0];
    let t = piece_text(pc);
    let e = t.len() as int;
    lemma_joined_starts(ps);
    lemma_piece_text(pc);
    if ps.len() > 1 {
        assert(s[e] == joined(ps)[t.len() as int]);
    }
    lemma_piece_at(s, 0, pc);
    let dl = decimal(pc.0).len();
    let next = if ps.len() > 1 {
        e + 1
    } else {
        e
    };
    let t0 = Term { from: 0, to: dl as usize, op: CondUnit::Plus, unit: pc.1 };
    assert(lead_term(s, 0) == Scan::Done(t0, next));
    lemma_decimal_reads_back(pc.0);
    lemma_total_first(ps);
    let x = pc.0 * nanos_per_unit(pc.1);
    assert(pc.0 <= x) by (nonlinear_arith)
        requires
            x == pc.0 * nanos_per_unit(pc.1),
            nanos_per_unit(pc.1) >= 1,
    ;
    assert(term_value(decimal(pc.0), pc.1) == Ok::<nat, crate::calc::Cause>(x));
    let rest = ps.drop_first();
    if ps.len() == 1 {
        lemma_chain_at_end(s);
        assert(views(s, Seq::empty()) =~= Seq::<TermView>::empty());
        assert(rest =~= Seq::<Piece>::empty());
    } else {
        let pre = t + seq![' '];
        assert(s =~= pre + joined(rest));
        lemma_chain_pieces(pre, rest);
        lemma_fold_pieces(rest);
        let ts = chain(s, next)->Done_0;
        assert(combine(x, views(s, ts)) == apply_op(CondUnit::Plus, x, total(rest)));
    }
}

pub open spec fn add_piece(ps: Seq<Piece>, v: nat, u: TimeUnit) -> Seq<Piece> {
    if v == 0 {
        ps
    } else {
        ps.push((v, u))
    }
}

/// The pieces that the formatter writes for `seconds` and `nanos`, in order.
pub open spec fn human_pieces(seconds: nat, nanos: nat) -> Seq<Piece> {
    let ydays = seconds % 31_536_000;
    let mdays = ydays % 2_592_000;
    let wdays = mdays % 604_800;
    let day_secs = wdays % 86_400;
    let ps = add_piece(Seq::empty(), seconds / 31_536_000, TimeUnit::Year);
    let ps = add_piece(ps, ydays / 2_592_000, TimeUnit::Month);
    let ps = add_piece(ps, mdays / 604_800, TimeUnit::Week);
    let ps = add_piece(ps, wdays / 86_400, TimeUnit::Day);
    let ps = add_piece(ps, day_secs / 3600, TimeUnit::Hour);
    let ps = add_piece(ps, day_secs % 3600 / 60, TimeUnit::Minute);
    let ps = add_piece(ps, day_secs % 60, TimeUnit::Second);
    let ps = add_piece(ps, nanos / 1_000_000, TimeUnit::MilliSecond);
    let ps = add_piece(ps, nanos / 1000 % 1000, TimeUnit::MicroSecond);
    add_piece(ps, nanos % 1000, TimeUnit::NanoSecond)
}

proof fn lemma_joined_push(ps: Seq<Piece>, p: Piece)
    ensures
        joined(ps.push(p)) == if ps.len() == 0 {
            piece_text(p)
        } else {
            joined(ps) + seq![' '] + piece_text(p)
        },
    decreases ps.len(),
{
    if ps.len() == 0 {
        assert(ps.push(p) =~= seq![p]);
    } else if ps.len() == 1 {
        assert(ps.push(p).drop_first() =~= seq![p]);
        assert(joined(seq![p]) == piece_text(p));
        assert(joined(ps) == piece_text(ps[0]));
        assert(ps.push(p)[0] == ps[0]);
    } else {
        assert(ps.push(p).drop_first() =~= ps.drop_first().push(p));
        assert(ps.push(p)[0] == ps[0]);
        lemma_joined_push(ps.drop_first(), p);
        assert(joined(ps.push(p)) =~= joined(ps) + seq![' '] + piece_text(p));
    }
}

proof fn lemma_accrued(ps: Seq<Piece>, v: nat, u: TimeUnit)
    ensures
        accrued(joined(ps), v, u) == joined(add_piece(ps, v, u)),
        total(add_piece(ps, v, u)) == total(ps) + v * nanos_per_unit(u),
{
    reveal_strlit(" ");
    if v > 0 {
        lemma_joined_push(ps, (v, u));
        if ps.len() > 0 {
            lemma_piece_text(ps[0]);
            lemma_joined_starts(ps);
            assert(joined(ps).len() > 0);
        } else {
            assert(joined(ps) =~= Seq::<char>::empty());
        }
        assert(ps.push((v, u)).drop_last() =~= ps);
    }
}

proof fn lemma_human_pieces(seconds: nat, nanos: nat)
    ensures
        !(seconds == 0 && nanos == 0) ==> human_text(seconds, nanos) == joined(
            human_pieces(seconds, nanos),
        ),
        total(human_pieces(seconds, nanos)) == seconds * 1_000_000_000 + nanos,
{
    let ydays = seconds % 31_536_000;
    let mdays = ydays % 2_592_000;
    let wdays = mdays % 604_800;
    let day_secs = wdays % 86_400;
    let p0 = Seq::<Piece>::empty();
    assert(joined(p0) =~= Seq::<char>::empty());
    let p1 = add_piece(p0, seconds / 31_536_000, TimeUnit::Year);
    lemma_accrued(p0, seconds / 31_536_000, TimeUnit::Year);
    let p2 = add_piece(p1, ydays / 2_592_000, TimeUnit::Month);
    lemma_accrued(p1, ydays / 2_592_000, TimeUnit::Month);
    let p3 = add_piece(p2, mdays / 604_800, TimeUnit::Week);
    lemma_accrued(p2, mdays / 604_800, TimeUnit::Week);
    let p4 = add_piece(p3, wdays / 86_400, TimeUnit::Day);
    lemma_accrued(p3, wdays / 86_400, TimeUnit::Day);
    let p5 = add_piece(p4, day_secs / 3600, TimeUnit::Hour);
    lemma_accrued(p4, day_secs / 3600, TimeUnit::Hour);
    let p6 = add_piece(p5, day_secs % 3600 / 60, TimeUnit::Minute);
    lemma_accrued(p5, day_secs % 3600 / 60, TimeUnit::Minute);
    let p7 = add_piece(p6, day_secs % 60, TimeUnit::Second);
    lemma_accrued(p6, day_secs % 60, TimeUnit::Second);
    let p8 = add_piece(p7, nanos / 1_000_000, TimeUnit::MilliSecond);
    lemma_accrued(p7, nanos / 1_000_000, TimeUnit::MilliSecond);
    let p9 = add_piece(p8, nanos / 1000 % 1000, TimeUnit::MicroSecond);
    lemma_accrued(p8, nanos / 1000 % 1000, TimeUnit::MicroSecond);
    lemma_accrued(p9, nanos % 1000, TimeUnit::NanoSecond);
    // the parts add back up to the whole
    lemma_fundamental_div_mod(seconds as int, 31_536_000);
    lemma_fundamental_div_mod(ydays as int, 2_592_000);
    lemma_fundamental_div_mod(mdays as int, 604_800);
    lemma_fundamental_div_mod(wdays as int, 86_400);
    lemma_fundamental_div_mod(day_secs as int, 3600);
    lemma_fundamental_div_mod((day_secs % 3600) as int, 60);
    lemma_mod_mod(day_secs as int, 60, 60);
    lemma_fundamental_div_mod(nanos as int, 1000);
    lemma_fundamental_div_mod((nanos / 1000) as int, 1000);
    lemma_div_denominator(nanos as int, 1000, 1000);
    let y = seconds / 31_536_000;
    let mo = ydays / 2_592_000;
    let w = mdays / 604_800;
    let d = wdays / 86_400;
    let h = day_secs / 3600;
    let mi = day_secs % 3600 / 60;
    let sec = day_secs % 60;
    assert(seconds == y * 31_536_000 + mo * 2_592_000 + w * 604_800 + d * 86_400 + h * 3600 + mi
        * 60 + sec);
    assert(nanos == nanos / 1_000_000 * 1_000_000 + nanos / 1000 % 1000 * 1000 + nanos % 1000);
    assert(total(human_pieces(seconds, nanos)) == y * nanos_per_unit(TimeUnit::Year) + mo
        * nanos_per_unit(TimeUnit::Month) + w * nanos_per_unit(TimeUnit::Week) + d
        * nanos_per_unit(TimeUnit::Day) + h * nanos_per_unit(TimeUnit::Hour) + mi
        * nanos_per_unit(TimeUnit::Minute) + sec * nanos_per_unit(TimeUnit::Second) + nanos
        / 1_000_000 * 1_000_000 + nanos / 1000 % 1000 * 1000 + nanos % 1000);
    assert(seconds * 1_000_000_000 == y * 31_536_000_000_000_000 + mo * 2_592_000_000_000_000 + w
        * 604_800_000_000_000 + d * 86_400_000_000_000 + h * 3_600_000_000_000 + mi
        * 60_000_000_000 + sec * 1_000_000_000) by (nonlinear_arith)
        requires
            seconds == y * 31_536_000 + mo * 2_592_000 + w * 604_800 + d * 86_400 + h * 3600 + mi
                * 60 + sec,
    ;
}

/// Formatting a duration and parsing the text gives the same duration back.
pub proof fn lemma_round_trip(n: nat)
    requires
        n <= u64::MAX,
        human_text(n / 1_000_000_000, n % 1_000_000_000).len() <= usize::MAX,
    ensures
        evaluate(human_text(n / 1_000_000_000, n % 1_000_000_000)) == Ok::<nat, Fault>(n),
{
    let secs = n / 1_000_000_000;
    let nanos = n % 1_000_000_000;
    lemma_fundamental_div_mod(n as int, 1_000_000_000);
    lemma_human_pieces(secs, nanos);
    if n == 0 {
        reveal_strlit("0s");
        reveal_strlit("0");
        reveal_strlit("s");
        lemma_unit_text_names(TimeUnit::Second);
        lemma_decimal_reads_back(0);
        assert(decimal(0) == "0"@);
        assert(spaces(0) + "0"@ + spaces(0) + "s"@ + spaces(0) =~= "0s"@);
        lemma_single_term(0, "0"@, 0, "s"@, 0, TimeUnit::Second);
    } else {
        let ps = human_pieces(secs, nanos);
        if ps.len() == 0 {
            assert(total(ps) == 0);
        }
        lemma_evaluate_joined(ps);
    }
}

} // verus!
