//! What every program states, whatever the horizon and options.

use vstd::prelude::*;
use crate::horizon::{in_group_of, partitions_by_day, slot_day, DayGroup, SlotTimes};
use crate::layout::{Bound, Shape, VarKind};
use crate::options::Options;
use crate::program::{
    cost_at, cost_count, cost_term, cost_terms, days_within, day_row, daily_rows, family_at,
    family_range, family_row, family_rows, forced_rows, heater_window, leading_costs, leading_rows,
    program_objective, program_rows, spacing_start, term, CostFamily, RowFamily, RowView, Sense, Term,
    COST_FAMILIES, ROW_FAMILIES,
};
use crate::symbols::{
    Amount, Coef, Factor, CURTAILMENT_PENALTY_MILLIS, LOAD_SHEDDING_PENALTY_MILLIS, SOC_SHORTFALL_PENALTY_MILLIS,
};

verus! {

/// The setting every law speaks of: a program built by `build_model`.
pub open spec fn buildable(s: Shape, o: Options, days: Seq<DayGroup>) -> bool {
    &&& s.wf()
    &&& s.slots >= 1
    &&& s.heater == o.heater
    &&& days_within(days, s.slots as int)
}

proof fn lemma_leading_rows_grow(s: Shape, o: Options, n: int, m: int, p: int)
    requires
        0 <= n <= m,
        0 <= p < leading_rows(s, o, n).len(),
    ensures
        p < leading_rows(s, o, m).len(),
        leading_rows(s, o, m)[p] == leading_rows(s, o, n)[p],
    decreases m - n,
{
    if n < m {
        lemma_leading_rows_grow(s, o, n, m - 1, p);
    }
}

/// Row `i` of family number `k` is a row of the program.
proof fn lemma_family_row_in_program(s: Shape, o: Options, days: Seq<DayGroup>, k: int, i: int)
    requires
        0 <= k < ROW_FAMILIES,
        family_range(s, o, family_at(k)).0 <= i < family_range(s, o, family_at(k)).1,
    ensures
        program_rows(s, o, days).contains(family_row(s, family_at(k), i)),
{
    let lo = family_range(s, o, family_at(k)).0;
    let p = leading_rows(s, o, k).len() + (i - lo);
    assert(leading_rows(s, o, k + 1)[p] == family_rows(s, o, family_at(k))[i - lo]);
    lemma_leading_rows_grow(s, o, k + 1, ROW_FAMILIES as int, p);
    assert(program_rows(s, o, days)[p] == family_row(s, family_at(k), i));
}

proof fn lemma_leading_costs_grow(s: Shape, o: Options, n: int, m: int, p: int)
    requires
        0 <= n <= m,
        0 <= p < leading_costs(s, o, n).len(),
    ensures
        p < leading_costs(s, o, m).len(),
        leading_costs(s, o, m)[p] == leading_costs(s, o, n)[p],
    decreases m - n,
{
    if n < m {
        lemma_leading_costs_grow(s, o, n, m - 1, p);
    }
}

/// Term `i` of cost family number `k` is a term of the objective.
proof fn lemma_cost_term_in_objective(s: Shape, o: Options, k: int, i: int)
    requires
        0 <= k < COST_FAMILIES,
        0 <= i < cost_count(s, o, cost_at(k)),
    ensures
        program_objective(s, o).contains(cost_term(s, cost_at(k), i)),
{
    let p = leading_costs(s, o, k).len() + i;
    assert(leading_costs(s, o, k + 1)[p] == cost_terms(s, o, cost_at(k))[i]);
    lemma_leading_costs_grow(s, o, k + 1, COST_FAMILIES as int, p);
}

/// The battery evolves by its recurrence: the program starts the state of
/// charge at its initial value, and for every slot `t` it holds
/// `soc[t+1] - soc[t] - chargeEfficiency * charge[t] + discharge[t] / dischargeEfficiency = 0`.
pub proof fn battery_recurrence_holds(s: Shape, o: Options, days: Seq<DayGroup>, t: int)
    requires
        buildable(s, o, days),
        0 <= t < s.slots,
    ensures
        program_rows(s, o, days).contains(
            RowView {
                terms: seq![term(s, VarKind::Soc(0), Coef::Int(1))],
                sense: Sense::Eq,
                rhs: Amount::InitialSoc,
            },
        ),
        program_rows(s, o, days).contains(
            RowView {
                terms: seq![
                    term(s, VarKind::Soc((t + 1) as usize), Coef::Int(1)),
                    term(s, VarKind::Soc(t as usize), Coef::Int(-1i64)),
                    term(s, VarKind::Charge(t as usize), Coef::Minus(Factor::ChargeEfficiency)),
                    term(s, VarKind::Discharge(t as usize), Coef::Plus(Factor::DischargeLoss)),
                ],
                sense: Sense::Eq,
                rhs: Amount::Int(0),
            },
        ),
{
    lemma_family_row_in_program(s, o, days, 0, 0);
    lemma_family_row_in_program(s, o, days, 2, t);
}

/// Every slot balances supply and demand:
/// `charge + export + curtailment - discharge - import - shedding (+ heaterEnergy * heaterOn) = generation - load`,
/// and every unit of curtailment or load shedding pays its full fixed penalty in
/// the objective.
pub proof fn energy_balance_holds(s: Shape, o: Options, days: Seq<DayGroup>, t: int)
    requires
        buildable(s, o, days),
        0 <= t < s.slots,
    ensures
        program_rows(s, o, days).contains(
            RowView {
                terms: seq![
                    term(s, VarKind::Charge(t as usize), Coef::Int(1)),
                    term(s, VarKind::Export(t as usize), Coef::Int(1)),
                    term(s, VarKind::Curtailment(t as usize), Coef::Int(1)),
                    term(s, VarKind::Discharge(t as usize), Coef::Int(-1i64)),
                    term(s, VarKind::Import(t as usize), Coef::Int(-1i64)),
                    term(s, VarKind::LoadShedding(t as usize), Coef::Int(-1i64)),
                ] + if s.heater {
                    seq![term(s, VarKind::HeaterOn(t as usize), Coef::Plus(Factor::HeaterSlotEnergy))]
                } else {
                    Seq::empty()
                },
                sense: Sense::Eq,
                rhs: Amount::NetGeneration(t as usize),
            },
        ),
        program_objective(s, o).contains(
            term(s, VarKind::Curtailment(t as usize), Coef::Thousandths(CURTAILMENT_PENALTY_MILLIS)),
        ),
        program_objective(s, o).contains(
            term(s, VarKind::LoadShedding(t as usize), Coef::Thousandths(LOAD_SHEDDING_PENALTY_MILLIS)),
        ),
{
    lemma_family_row_in_program(s, o, days, 1, t);
    lemma_cost_term_in_objective(s, o, 4, t);
    lemma_cost_term_in_objective(s, o, 5, t);
}

/// Every accounting day that owes heating energy has the requirement row
/// `sum over its slots of heaterEnergy * heaterOn >= requirement`, the first day
/// owing what is left after the energy delivered earlier that day.
pub proof fn daily_requirement_holds(s: Shape, o: Options, days: Seq<DayGroup>, g: int)
    requires
        buildable(s, o, days),
        s.heater,
        o.daily_minimum,
        0 <= g < days.len(),
        g == 0 ==> o.first_day_outstanding,
    ensures
        program_rows(s, o, days).contains(
            RowView {
                terms: Seq::new(
                    days[g].slots@.len(),
                    |j: int| term(s, VarKind::HeaterOn(days[g].slots@[j]), Coef::Plus(Factor::HeaterSlotEnergy)),
                ),
                sense: Sense::Ge,
                rhs: if g == 0 {
                    Amount::FirstDayRequirement
                } else {
                    Amount::DailyRequirement
                },
            },
        ),
{
    let first: int = if o.first_day_outstanding { 0 } else { 1 };
    let p = leading_rows(s, o, ROW_FAMILIES as int).len() + forced_rows(s, o.forced_on@).len() + (g - first);
    assert(daily_rows(s, o, days)[g - first] == day_row(s, days, g));
    assert(program_rows(s, o, days)[p] == day_row(s, days, g));
}

proof fn lemma_var(s: Shape, k: VarKind)
    requires
        s.wf(),
        s.allocated(k),
    ensures
        s.var(k) as int == s.position(k),
{
}

/// The state of charge at every boundary `b` lies in `[0, capacity]` and at
/// least at the minimum less a shortfall that pays the fixed shortfall penalty;
/// at the start of every slot it is at most the maximum.
pub proof fn soc_limits_hold(s: Shape, o: Options, days: Seq<DayGroup>, b: int)
    requires
        buildable(s, o, days),
        0 <= b <= s.slots,
    ensures
        VarKind::Soc(b as usize).bound() == Bound::UpTo(Amount::Capacity),
        program_rows(s, o, days).contains(
            RowView {
                terms: seq![
                    term(s, VarKind::Soc(b as usize), Coef::Int(1)),
                    term(s, VarKind::SocShortfall(b as usize), Coef::Int(1)),
                ],
                sense: Sense::Ge,
                rhs: Amount::MinSoc,
            },
        ),
        program_objective(s, o).contains(
            term(s, VarKind::SocShortfall(b as usize), Coef::Thousandths(SOC_SHORTFALL_PENALTY_MILLIS)),
        ),
        b < s.slots ==> program_rows(s, o, days).contains(
            RowView { terms: seq![term(s, VarKind::Soc(b as usize), Coef::Int(1))], sense: Sense::Le, rhs: Amount::MaxSoc },
        ),
{
    lemma_family_row_in_program(s, o, days, 3, b);
    lemma_cost_term_in_objective(s, o, 10, b);
    if b < s.slots {
        lemma_family_row_in_program(s, o, days, 4, b);
    }
}

/// The integer value of a coefficient; zero for a symbolic one.
pub open spec fn int_value(c: Coef) -> int {
    match c {
        Coef::Int(k) => k as int,
        _ => 0,
    }
}

/// The left-hand side of a row under values `x`, counting integer coefficients.
pub open spec fn lhs(terms: Seq<Term>, x: Seq<int>) -> int
    decreases terms.len(),
{
    if terms.len() == 0 {
        0
    } else {
        lhs(terms.drop_last(), x) + int_value(terms.last().coef) * x[terms.last().var as int]
    }
}

proof fn lemma_lhs_push(terms: Seq<Term>, tm: Term, x: Seq<int>)
    ensures
        lhs(terms.push(tm), x) == lhs(terms, x) + int_value(tm.coef) * x[tm.var as int],
{
    assert(terms.push(tm).drop_last() =~= terms);
}

/// A row whose coefficients and right-hand side are all integers.
pub open spec fn integral(r: RowView) -> bool {
    &&& forall|j: int| 0 <= j < r.terms.len() ==> #[trigger] r.terms[j].coef is Int
    &&& r.rhs is Int
}

/// Values `x` satisfy an integral row.
pub open spec fn satisfies(r: RowView, x: Seq<int>) -> bool {
    let v = lhs(r.terms, x);
    let b = match r.rhs {
        Amount::Int(k) => k as int,
        _ => 0,
    };
    match r.sense {
        Sense::Eq => v == b,
        Sense::Le => v <= b,
        Sense::Ge => v >= b,
    }
}

/// Values `x` lie in every variable's domain (upper bounds that are amounts
/// aside).
pub open spec fn within_bounds(s: Shape, x: Seq<int>) -> bool {
    &&& x.len() == s.var_count()
    &&& forall|k: VarKind| #[trigger] s.allocated(k) ==> {
        let v = x[s.position(k)];
        match k.bound() {
            Bound::Binary => 0 <= v <= 1,
            _ => 0 <= v,
        }
    }
}

proof fn lemma_window_sum(s: Shape, x: Seq<int>, lo: int, len: int, i: int)
    requires
        s.wf(),
        s.heater,
        within_bounds(s, x),
        0 <= lo,
        0 <= len,
        lo + len <= s.slots,
    ensures
        lhs(heater_window(s, lo, len), x) >= 0,
        lo <= i < lo + len ==> lhs(heater_window(s, lo, len), x) >= x[s.position(VarKind::HeaterOn(i as usize))],
    decreases len,
{
    if len > 0 {
        let w = heater_window(s, lo, len);
        assert(w.drop_last() =~= heater_window(s, lo, len - 1));
        lemma_window_sum(s, x, lo, len - 1, i);
        let k = VarKind::HeaterOn((lo + len - 1) as usize);
        assert(s.allocated(k));
        assert(w.last() == term(s, k, Coef::Int(1)));
        assert(0 <= x[s.position(k)]);
    }
}

/// A heater start at slot `t` leaves the heater off throughout the `S` slots
/// before it (`S` the spacing span): for integer values within the variables'
/// domains that satisfy every integral row of the program.
pub proof fn spacing_excludes_recent_heating(
    s: Shape,
    o: Options,
    days: Seq<DayGroup>,
    x: Seq<int>,
    t: int,
    i: int,
)
    requires
        buildable(s, o, days),
        s.spacing_span > 0,
        within_bounds(s, x),
        forall|j: int|
            0 <= j < program_rows(s, o, days).len() && integral(#[trigger] program_rows(s, o, days)[j])
                ==> satisfies(program_rows(s, o, days)[j], x),
        1 <= t < s.slots,
        x[s.position(VarKind::HeaterStart(t as usize))] == 1,
        0 <= i < t,
        t - s.spacing_span <= i,
    ensures
        x[s.position(VarKind::HeaterOn(i as usize))] == 0,
{
    assert(s.heater);
    let row = family_row(s, RowFamily::Spacing, t);
    lemma_family_row_in_program(s, o, days, 15, t);
    let j = choose|j: int| 0 <= j < program_rows(s, o, days).len() && program_rows(s, o, days)[j] == row;
    let lo = spacing_start(s, t);
    let w = heater_window(s, lo, t - lo);
    let st = term(s, VarKind::HeaterStart(t as usize), Coef::Int(s.spacing_span as i64));
    assert(row.terms =~= w.push(st));
    lemma_var(s, VarKind::HeaterStart(t as usize));
    lemma_lhs_push(w, st, x);
    assert(int_value(st.coef) == s.spacing_span);
    assert(x[st.var as int] == 1);
    assert(int_value(st.coef) * x[st.var as int] == s.spacing_span) by (nonlinear_arith)
        requires
            int_value(st.coef) == s.spacing_span,
            x[st.var as int] == 1;
    assert(lhs(row.terms, x) == lhs(w, x) + s.spacing_span);
    assert(integral(row));
    assert(satisfies(row, x));
    assert(lhs(w, x) <= 0);
    lemma_window_sum(s, x, lo, t - lo, i);
    assert(s.allocated(VarKind::HeaterOn(i as usize)));
}

/// A heater that turns on at slot `t` after being off at `t - 1` counts a
/// start, and so had no heating in the spacing span before `t`: for integer
/// values within the variables' domains that satisfy every integral row.
pub proof fn activation_follows_rest(
    s: Shape,
    o: Options,
    days: Seq<DayGroup>,
    x: Seq<int>,
    t: int,
    i: int,
)
    requires
        buildable(s, o, days),
        s.heater,
        within_bounds(s, x),
        forall|j: int|
            0 <= j < program_rows(s, o, days).len() && integral(#[trigger] program_rows(s, o, days)[j])
                ==> satisfies(program_rows(s, o, days)[j], x),
        1 <= t < s.slots,
        x[s.position(VarKind::HeaterOn(t as usize))] == 1,
        x[s.position(VarKind::HeaterOn((t - 1) as usize))] == 0,
    ensures
        x[s.position(VarKind::HeaterStart(t as usize))] == 1,
        s.spacing_span > 0 && 0 <= i < t && t - s.spacing_span <= i ==> x[s.position(VarKind::HeaterOn(i as usize))]
            == 0,
{
    let row = family_row(s, RowFamily::HeaterEdge, t);
    lemma_family_row_in_program(s, o, days, 11, t);
    let j = choose|j: int| 0 <= j < program_rows(s, o, days).len() && program_rows(s, o, days)[j] == row;
    let a = term(s, VarKind::HeaterStart(t as usize), Coef::Int(1));
    let b = term(s, VarKind::HeaterOn(t as usize), Coef::Int(-1i64));
    let c = term(s, VarKind::HeaterOn((t - 1) as usize), Coef::Int(1));
    lemma_var(s, VarKind::HeaterStart(t as usize));
    lemma_var(s, VarKind::HeaterOn(t as usize));
    lemma_var(s, VarKind::HeaterOn((t - 1) as usize));
    let e = Seq::<Term>::empty();
    assert(row.terms =~= e.push(a).push(b).push(c));
    lemma_lhs_push(e, a, x);
    lemma_lhs_push(e.push(a), b, x);
    lemma_lhs_push(e.push(a).push(b), c, x);
    let v = x[a.var as int];
    assert(x[b.var as int] == 1 && x[c.var as int] == 0);
    assert(lhs(e, x) == 0);
    assert(int_value(a.coef) == 1 && int_value(b.coef) == -1 && int_value(c.coef) == 1);
    assert(lhs(e.push(a), x) == v);
    assert(lhs(e.push(a).push(b), x) == v - 1);
    assert(lhs(row.terms, x) == v - 1);
    assert(integral(row));
    assert(satisfies(row, x));
    assert(s.allocated(VarKind::HeaterStart(t as usize)));
    if s.spacing_span > 0 && 0 <= i < t && t - s.spacing_span <= i {
        spacing_excludes_recent_heating(s, o, days, x, t, i);
    }
}

proof fn lemma_window_heats(s: Shape, x: Seq<int>, lo: int, len: int)
    requires
        s.wf(),
        s.heater,
        within_bounds(s, x),
        0 <= lo,
        0 <= len,
        lo + len <= s.slots,
        lhs(heater_window(s, lo, len), x) >= 1,
    ensures
        exists|i: int| lo <= i < lo + len && #[trigger] x[s.position(VarKind::HeaterOn(i as usize))] == 1,
    decreases len,
{
    let w = heater_window(s, lo, len);
    assert(w.drop_last() =~= heater_window(s, lo, len - 1));
    let k = VarKind::HeaterOn((lo + len - 1) as usize);
    assert(s.allocated(k));
    assert(w.last() == term(s, k, Coef::Int(1)));
    if x[s.position(k)] != 1 {
        lemma_window_heats(s, x, lo, len - 1);
        let i = choose|i: int| lo <= i < lo + len - 1 && #[trigger] x[s.position(VarKind::HeaterOn(i as usize))] == 1;
    } else {
        assert(x[s.position(VarKind::HeaterOn((lo + len - 1) as usize))] == 1);
    }
}

/// Every comfort window, of either width, has a slot with the heater on, or
/// its miss variable is positive (and penalised when a comfort penalty is set):
/// for integer values within the variables' domains that satisfy every integral
/// row.
pub proof fn comfort_window_heats_or_pays(
    s: Shape,
    o: Options,
    days: Seq<DayGroup>,
    x: Seq<int>,
    w: int,
    wide: bool,
)
    requires
        buildable(s, o, days),
        within_bounds(s, x),
        forall|j: int|
            0 <= j < program_rows(s, o, days).len() && integral(#[trigger] program_rows(s, o, days)[j])
                ==> satisfies(program_rows(s, o, days)[j], x),
        0 <= w < (if wide { s.wide_gap_windows } else { s.gap_windows }),
    ensures
        ({
            let miss = if wide { VarKind::WideGapMiss(w as usize) } else { VarKind::GapMiss(w as usize) };
            let span = if wide { s.wide_gap_span } else { s.gap_span };
            &&& x[s.position(miss)] >= 1 || exists|i: int|
                w <= i < w + span && #[trigger] x[s.position(VarKind::HeaterOn(i as usize))] == 1
            &&& o.comfort_penalty ==> program_objective(s, o).contains(
                term(s, miss, Coef::Plus(Factor::ComfortPenalty)),
            )
        }),
{
    let miss = if wide { VarKind::WideGapMiss(w as usize) } else { VarKind::GapMiss(w as usize) };
    let span: int = if wide { s.wide_gap_span as int } else { s.gap_span as int };
    let k: int = if wide { 14 } else { 13 };
    let f = family_at(k);
    let row = family_row(s, f, w);
    assert(s.heater);
    lemma_family_row_in_program(s, o, days, k, w);
    let j = choose|j: int| 0 <= j < program_rows(s, o, days).len() && program_rows(s, o, days)[j] == row;
    let win = heater_window(s, w, span);
    assert(row.terms.drop_last() =~= win);
    assert(s.allocated(miss));
    lemma_var(s, miss);
    assert(int_value(row.terms.last().coef) == 1);
    assert(row.terms.last().var as int == s.position(miss));
    assert(lhs(row.terms, x) == lhs(win, x) + x[s.position(miss)]);
    assert(integral(row));
    assert(satisfies(row, x));
    assert(s.allocated(miss));
    if x[s.position(miss)] < 1 {
        lemma_window_heats(s, x, w, span);
    }
    if o.comfort_penalty {
        lemma_cost_term_in_objective(s, o, k + 1, w);
    }
}

/// The sequence is strictly increasing.
pub open spec fn increasing(a: Seq<int>) -> bool {
    forall|i: int, j: int| 0 <= i < j < a.len() ==> #[trigger] a[i] < #[trigger] a[j]
}

/// Two strictly increasing sequences with the same elements are equal.
proof fn lemma_increasing_unique(a: Seq<int>, b: Seq<int>)
    requires
        increasing(a),
        increasing(b),
        forall|v: int| a.contains(v) <==> b.contains(v),
    ensures
        a == b,
    decreases a.len(),
{
    if a.len() == 0 {
        if b.len() > 0 {
            assert(b.contains(b[0]));
        }
        assert(a =~= b);
    } else {
        assert(a.contains(a[0]));
        assert(b.len() > 0);
        assert(b.contains(b[0]));
        let i = choose|i: int| 0 <= i < b.len() && b[i] == a[0];
        let j = choose|j: int| 0 <= j < a.len() && a[j] == b[0];
        assert(a[0] == b[0]) by {
            if i > 0 {
                assert(b[0] < b[i]);
            }
            if j > 0 {
                assert(a[0] < a[j]);
            }
        }
        let a1 = a.subrange(1, a.len() as int);
        let b1 = b.subrange(1, b.len() as int);
        assert forall|v: int| a1.contains(v) <==> b1.contains(v) by {
            if a1.contains(v) {
                let k = choose|k: int| 0 <= k < a1.len() && a1[k] == v;
                assert(a[k + 1] == v && a[0] < v);
                assert(a.contains(v));
                let m = choose|m: int| 0 <= m < b.len() && b[m] == v;
                assert(m != 0);
                assert(b1[m - 1] == v);
            }
            if b1.contains(v) {
                let k = choose|k: int| 0 <= k < b1.len() && b1[k] == v;
                assert(b[k + 1] == v && b[0] < v);
                assert(b.contains(v));
                let m = choose|m: int| 0 <= m < a.len() && a[m] == v;
                assert(m != 0);
                assert(a1[m - 1] == v);
            }
        }
        lemma_increasing_unique(a1, b1);
        assert(a =~= seq![a[0]] + a1);
        assert(b =~= seq![b[0]] + b1);
    }
}

pub open spec fn group_days_of(groups: Seq<DayGroup>) -> Seq<int> {
    groups.map_values(|g: DayGroup| g.day as int)
}

pub open spec fn members_of(g: DayGroup) -> Seq<int> {
    g.slots@.map_values(|t: usize| t as int)
}

/// A day is a group's day exactly when some slot is accounted to it.
proof fn lemma_group_days_are_slot_days(slots: Seq<SlotTimes>, defer_hours: u32, groups: Seq<DayGroup>, v: int)
    requires
        partitions_by_day(groups, slots, defer_hours),
    ensures
        group_days_of(groups).contains(v) <==> exists|t: int| 0 <= t < slots.len() && #[trigger] slot_day(slots, defer_hours, t) == v,
{
    if group_days_of(groups).contains(v) {
        let g = choose|g: int| 0 <= g < group_days_of(groups).len() && group_days_of(groups)[g] == v;
        let t = groups[g].slots@[0];
        assert(t < slots.len() && slot_day(slots, defer_hours, t as int) == groups[g].day);
    }
    if exists|t: int| 0 <= t < slots.len() && #[trigger] slot_day(slots, defer_hours, t) == v {
        let t = choose|t: int| 0 <= t < slots.len() && #[trigger] slot_day(slots, defer_hours, t) == v;
        assert(in_group_of(groups, slot_day(slots, defer_hours, t), t));
        let g = choose|g: int| 0 <= g < groups.len() && groups[g].day == slot_day(slots, defer_hours, t)
            && #[trigger] groups[g].slots@.contains(t as usize);
        assert(group_days_of(groups)[g] == v);
    }
}

/// A slot is a member of group `g` exactly when it is accounted to its day.
proof fn lemma_members_are_slots_of_day(slots: Seq<SlotTimes>, defer_hours: u32, groups: Seq<DayGroup>, g: int, v: int)
    requires
        partitions_by_day(groups, slots, defer_hours),
        slots.len() <= usize::MAX,
        0 <= g < groups.len(),
    ensures
        members_of(groups[g]).contains(v) <==> 0 <= v < slots.len() && slot_day(slots, defer_hours, v) == groups[g].day,
{
    if members_of(groups[g]).contains(v) {
        let j = choose|j: int| 0 <= j < members_of(groups[g]).len() && members_of(groups[g])[j] == v;
        assert(groups[g].slots@[j] < slots.len());
    }
    if 0 <= v < slots.len() && slot_day(slots, defer_hours, v) == groups[g].day {
        assert(in_group_of(groups, slot_day(slots, defer_hours, v), v));
        let h = choose|h: int| 0 <= h < groups.len() && groups[h].day == slot_day(slots, defer_hours, v)
            && #[trigger] groups[h].slots@.contains(v as usize);
        assert(h == g) by {
            if h < g {
                assert(groups[h].day < groups[g].day);
            }
            if g < h {
                assert(groups[g].day < groups[h].day);
            }
        }
        let j = choose|j: int| 0 <= j < groups[g].slots@.len() && groups[g].slots@[j] == v as usize;
        assert(members_of(groups[g])[j] == v);
    }
}

/// Identical input gives an identical program: any two groupings of one
/// horizon by accounting day agree, so the rows built on them are the same.
/// Re-solving the same input therefore hands the solver the same problem.
pub proof fn program_is_determined(
    s: Shape,
    o: Options,
    slots: Seq<SlotTimes>,
    g1: Seq<DayGroup>,
    g2: Seq<DayGroup>,
)
    requires
        slots.len() <= usize::MAX,
        partitions_by_day(g1, slots, o.defer_hours),
        partitions_by_day(g2, slots, o.defer_hours),
    ensures
        g1.len() == g2.len(),
        forall|g: int| 0 <= g < g1.len() ==> (#[trigger] g1[g]).day == g2[g].day && g1[g].slots@ == g2[g].slots@,
        program_rows(s, o, g1) == program_rows(s, o, g2),
{
    let d = o.defer_hours;
    assert forall|v: int| group_days_of(g1).contains(v) <==> group_days_of(g2).contains(v) by {
        lemma_group_days_are_slot_days(slots, d, g1, v);
        lemma_group_days_are_slot_days(slots, d, g2, v);
    }
    lemma_increasing_unique(group_days_of(g1), group_days_of(g2));
    assert(g1.len() == group_days_of(g1).len());
    assert forall|g: int| 0 <= g < g1.len() implies (#[trigger] g1[g]).day == g2[g].day && g1[g].slots@ == g2[g].slots@ by {
        assert(group_days_of(g1)[g] == group_days_of(g2)[g]);
        assert(g1[g].day == g2[g].day);
        assert forall|v: int| members_of(g1[g]).contains(v) <==> members_of(g2[g]).contains(v) by {
            lemma_members_are_slots_of_day(slots, d, g1, g, v);
            lemma_members_are_slots_of_day(slots, d, g2, g, v);
        }
        assert(increasing(members_of(g1[g])));
        assert(increasing(members_of(g2[g])));
        lemma_increasing_unique(members_of(g1[g]), members_of(g2[g]));
        assert(g1[g].slots@ =~= g2[g].slots@) by {
            assert(members_of(g1[g]).len() == members_of(g2[g]).len());
            assert forall|j: int| 0 <= j < g1[g].slots@.len() implies g1[g].slots@[j] == g2[g].slots@[j] by {
                assert(members_of(g1[g])[j] == members_of(g2[g])[j]);
            }
        }
    }
    assert(daily_rows(s, o, g1) =~= daily_rows(s, o, g2)) by {
        assert forall|g: int| 0 <= g < g1.len() implies day_row(s, g1, g) == day_row(s, g2, g) by {
            assert(g1[g].slots@ == g2[g].slots@);
            assert(day_row(s, g1, g).terms =~= day_row(s, g2, g).terms);
        }
    }
}

} // verus!
