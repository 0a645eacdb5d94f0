//! The program: constraint rows and objective terms over the layout's variables.

use vstd::prelude::*;
use crate::horizon::DayGroup;
use crate::layout::{Shape, VarKind};
use crate::options::Options;
use crate::symbols::{
    Amount, Coef, Factor, CURTAILMENT_PENALTY_MILLIS, IMPORT_BREACH_PENALTY_MILLIS,
    LOAD_SHEDDING_PENALTY_MILLIS, SOC_SHORTFALL_PENALTY_MILLIS,
};

verus! {

/// A coefficient applied to the variable at position `var`.
#[derive(Clone, Copy, Debug, PartialEq, Eq, Structural)]
pub struct Term {
    pub var: usize,
    pub coef: Coef,
}

/// How a row's left-hand side relates to its right-hand side.
#[derive(Clone, Copy, Debug, PartialEq, Eq, Structural)]
pub enum Sense {
    Eq,
    Le,
    Ge,
}

/// One linear constraint: the sum of `terms` related to `rhs` by `sense`.
#[derive(Debug)]
pub struct Row {
    pub terms: Vec<Term>,
    pub sense: Sense,
    pub rhs: Amount,
}

/// A row's mathematical content.
pub struct RowView {
    pub terms: Seq<Term>,
    pub sense: Sense,
    pub rhs: Amount,
}

impl View for Row {
    type V = RowView;

    open spec fn view(&self) -> RowView {
        RowView { terms: self.terms@, sense: self.sense, rhs: self.rhs }
    }
}

pub open spec fn rows_view(rows: Seq<Row>) -> Seq<RowView> {
    rows.map_values(|r: Row| r@)
}

/// The term of variable `k` with coefficient `c`.
pub open spec fn term(s: Shape, k: VarKind, c: Coef) -> Term {
    Term { var: s.var(k), coef: c }
}

fn mk_term(s: &Shape, k: VarKind, c: Coef) -> (r: Term)
    requires
        s.wf(),
        s.allocated(k),
    ensures
        r == term(*s, k, c),
        r.var < s.var_count(),
{
    Term { var: s.index(k), coef: c }
}

/// The families of rows that stand one per index.
#[derive(Clone, Copy, Debug, PartialEq, Eq, Structural)]
pub enum RowFamily {
    /// The state of charge at the first boundary is the initial one.
    Initial,
    /// Energy balance of slot `t`.
    Balance,
    /// Battery recurrence over slot `t`.
    Battery,
    /// Soft minimum state of charge at boundary `b`.
    SocFloor,
    /// Hard maximum state of charge at the start of slot `t`.
    SocCeiling,
    /// Import within the fuse allowance, a breach aside.
    Fuse,
    /// Import within the hard cap.
    ImportCap,
    /// Export within the hard cap.
    ExportCap,
    /// No export.
    NoExport,
    /// No ramping before the first slot: row 0 for ramping up, row 1 for down.
    RampStart,
    /// Ramping between slot `t - 1` and slot `t`.
    Ramp,
    /// A heater start is counted where the heater turns on.
    HeaterEdge,
    /// Deviation from the target state of charge: row 0 below, row 1 above.
    Target,
    /// Comfort window starting at slot `w`.
    Gap,
    /// Wide comfort window starting at slot `w`.
    WideGap,
    /// No heater start at slot `t` after heating in the preceding span.
    Spacing,
}

/// Terms with coefficient one on the heater variables of slots `lo .. lo + len`.
pub open spec fn heater_window(s: Shape, lo: int, len: int) -> Seq<Term> {
    Seq::new(len as nat, |j: int| term(s, VarKind::HeaterOn((lo + j) as usize), Coef::Int(1)))
}

/// First slot of the spacing window before slot `t`.
pub open spec fn spacing_start(s: Shape, t: int) -> int {
    if t > s.spacing_span {
        t - s.spacing_span
    } else {
        0
    }
}

/// Row `i` of family `f`.
pub open spec fn family_row(s: Shape, f: RowFamily, i: int) -> RowView {
    let u = i as usize;
    let one = Coef::Int(1);
    let minus = Coef::Int(-1i64);
    match f {
        RowFamily::Initial => RowView {
            terms: seq![term(s, VarKind::Soc(0), one)],
            sense: Sense::Eq,
            rhs: Amount::InitialSoc,
        },
        RowFamily::Balance => RowView {
            terms: seq![
                term(s, VarKind::Charge(u), one),
                term(s, VarKind::Export(u), one),
                term(s, VarKind::Curtailment(u), one),
                term(s, VarKind::Discharge(u), minus),
                term(s, VarKind::Import(u), minus),
                term(s, VarKind::LoadShedding(u), minus),
            ] + if s.heater {
                seq![term(s, VarKind::HeaterOn(u), Coef::Plus(Factor::HeaterSlotEnergy))]
            } else {
                Seq::empty()
            },
            sense: Sense::Eq,
            rhs: Amount::NetGeneration(u),
        },
        RowFamily::Battery => RowView {
            terms: seq![
                term(s, VarKind::Soc((i + 1) as usize), one),
                term(s, VarKind::Soc(u), minus),
                term(s, VarKind::Charge(u), Coef::Minus(Factor::ChargeEfficiency)),
                term(s, VarKind::Discharge(u), Coef::Plus(Factor::DischargeLoss)),
            ],
            sense: Sense::Eq,
            rhs: Amount::Int(0),
        },
        RowFamily::SocFloor => RowView {
            terms: seq![term(s, VarKind::Soc(u), one), term(s, VarKind::SocShortfall(u), one)],
            sense: Sense::Ge,
            rhs: Amount::MinSoc,
        },
        RowFamily::SocCeiling => RowView {
            terms: seq![term(s, VarKind::Soc(u), one)],
            sense: Sense::Le,
            rhs: Amount::MaxSoc,
        },
        RowFamily::Fuse => RowView {
            terms: seq![term(s, VarKind::Import(u), one), term(s, VarKind::ImportBreach(u), minus)],
            sense: Sense::Le,
            rhs: Amount::FuseAllowance,
        },
        RowFamily::ImportCap => RowView {
            terms: seq![term(s, VarKind::Import(u), one)],
            sense: Sense::Le,
            rhs: Amount::ImportCap,
        },
        RowFamily::ExportCap => RowView {
            terms: seq![term(s, VarKind::Export(u), one)],
            sense: Sense::Le,
            rhs: Amount::ExportCap,
        },
        RowFamily::NoExport => RowView {
            terms: seq![term(s, VarKind::Export(u), one)],
            sense: Sense::Eq,
            rhs: Amount::Int(0),
        },
        RowFamily::RampStart => RowView {
            terms: if i == 0 {
                seq![term(s, VarKind::RampUp(0), one)]
            } else {
                seq![term(s, VarKind::RampDown(0), one)]
            },
            sense: Sense::Eq,
            rhs: Amount::Int(0),
        },
        RowFamily::Ramp => RowView {
            terms: seq![
                term(s, VarKind::Charge(u), one),
                term(s, VarKind::Discharge(u), minus),
                term(s, VarKind::Charge((i - 1) as usize), minus),
                term(s, VarKind::Discharge((i - 1) as usize), one),
                term(s, VarKind::RampUp(u), minus),
                term(s, VarKind::RampDown(u), one),
            ],
            sense: Sense::Eq,
            rhs: Amount::Int(0),
        },
        RowFamily::HeaterEdge => if i == 0 {
            RowView {
                terms: seq![term(s, VarKind::HeaterStart(0), one), term(s, VarKind::HeaterOn(0), minus)],
                sense: Sense::Eq,
                rhs: Amount::Int(0),
            }
        } else {
            RowView {
                terms: seq![
                    term(s, VarKind::HeaterStart(u), one),
                    term(s, VarKind::HeaterOn(u), minus),
                    term(s, VarKind::HeaterOn((i - 1) as usize), one),
                ],
                sense: Sense::Ge,
                rhs: Amount::Int(0),
            }
        },
        RowFamily::Target => if i == 0 {
            RowView {
                terms: seq![term(s, VarKind::Soc(s.slots), one), term(s, VarKind::TargetUnder, one)],
                sense: Sense::Ge,
                rhs: Amount::TargetSoc,
            }
        } else {
            RowView {
                terms: seq![term(s, VarKind::Soc(s.slots), one), term(s, VarKind::TargetOver, minus)],
                sense: Sense::Le,
                rhs: Amount::TargetSoc,
            }
        },
        RowFamily::Gap => RowView {
            terms: heater_window(s, i, s.gap_span as int).push(term(s, VarKind::GapMiss(u), one)),
            sense: Sense::Ge,
            rhs: Amount::Int(1),
        },
        RowFamily::WideGap => RowView {
            terms: heater_window(s, i, s.wide_gap_span as int).push(term(s, VarKind::WideGapMiss(u), one)),
            sense: Sense::Ge,
            rhs: Amount::Int(1),
        },
        RowFamily::Spacing => RowView {
            terms: heater_window(s, spacing_start(s, i), i - spacing_start(s, i)).push(
                term(s, VarKind::HeaterStart(u), Coef::Int(s.spacing_span as i64)),
            ),
            sense: Sense::Le,
            rhs: Amount::Int(s.spacing_span as i64),
        },
    }
}

/// The indices `[lo, hi)` for which family `f` has a row under `o`.
pub open spec fn family_range(s: Shape, o: Options, f: RowFamily) -> (int, int) {
    let n = s.slots as int;
    match f {
        RowFamily::Initial => (0, 1),
        RowFamily::Balance | RowFamily::Battery | RowFamily::SocCeiling => (0, n),
        RowFamily::SocFloor => (0, n + 1),
        RowFamily::Fuse => (0, if o.fuse_limit { n } else { 0 }),
        RowFamily::ImportCap => (0, if o.import_cap { n } else { 0 }),
        RowFamily::ExportCap => (0, if o.export_cap { n } else { 0 }),
        RowFamily::NoExport => (0, if o.export_enabled { 0 } else { n }),
        RowFamily::RampStart => (0, 2),
        RowFamily::Ramp => (1, n),
        RowFamily::HeaterEdge => (0, if s.heater { n } else { 0 }),
        RowFamily::Target => (0, if o.target { 2 } else { 0 }),
        RowFamily::Gap => (0, s.gap_windows as int),
        RowFamily::WideGap => (0, s.wide_gap_windows as int),
        RowFamily::Spacing => (1, if s.spacing_span > 0 { n } else { 1 }),
    }
}

/// The rows of family `f` under `o`, in index order.
pub open spec fn family_rows(s: Shape, o: Options, f: RowFamily) -> Seq<RowView> {
    let (lo, hi) = family_range(s, o, f);
    Seq::new((hi - lo) as nat, |k: int| family_row(s, f, lo + k))
}

/// Number of row families.
pub const ROW_FAMILIES: usize = 16;

/// The row families in the order their rows appear in a program.
pub open spec fn family_at(i: int) -> RowFamily {
    if i == 0 {
        RowFamily::Initial
    } else if i == 1 {
        RowFamily::Balance
    } else if i == 2 {
        RowFamily::Battery
    } else if i == 3 {
        RowFamily::SocFloor
    } else if i == 4 {
        RowFamily::SocCeiling
    } else if i == 5 {
        RowFamily::Fuse
    } else if i == 6 {
        RowFamily::ImportCap
    } else if i == 7 {
        RowFamily::ExportCap
    } else if i == 8 {
        RowFamily::NoExport
    } else if i == 9 {
        RowFamily::RampStart
    } else if i == 10 {
        RowFamily::Ramp
    } else if i == 11 {
        RowFamily::HeaterEdge
    } else if i == 12 {
        RowFamily::Target
    } else if i == 13 {
        RowFamily::Gap
    } else if i == 14 {
        RowFamily::WideGap
    } else {
        RowFamily::Spacing
    }
}

/// The rows of the first `n` families.
pub open spec fn leading_rows(s: Shape, o: Options, n: int) -> Seq<RowView>
    decreases n,
{
    if n <= 0 {
        Seq::empty()
    } else {
        leading_rows(s, o, n - 1) + family_rows(s, o, family_at(n - 1))
    }
}

/// The row that keeps the heater on in slot `t`.
pub open spec fn forced_row(s: Shape, t: int) -> RowView {
    RowView {
        terms: seq![term(s, VarKind::HeaterOn(t as usize), Coef::Int(1))],
        sense: Sense::Eq,
        rhs: Amount::Int(1),
    }
}

/// One row per entry of `forced` that names a slot of the horizon, in list
/// order; none without a heater.
pub open spec fn forced_rows(s: Shape, forced: Seq<usize>) -> Seq<RowView>
    decreases forced.len(),
{
    if forced.len() == 0 {
        Seq::empty()
    } else {
        let rest = forced_rows(s, forced.drop_last());
        if s.heater && forced.last() < s.slots {
            rest.push(forced_row(s, forced.last() as int))
        } else {
            rest
        }
    }
}

/// The heating requirement of accounting day `g`.
pub open spec fn day_row(s: Shape, days: Seq<DayGroup>, g: int) -> RowView {
    RowView {
        terms: Seq::new(
            days[g].slots@.len(),
            |j: int| term(s, VarKind::HeaterOn(days[g].slots@[j]), Coef::Plus(Factor::HeaterSlotEnergy)),
        ),
        sense: Sense::Ge,
        rhs: if g == 0 {
            Amount::FirstDayRequirement
        } else {
            Amount::DailyRequirement
        },
    }
}

/// One requirement row per accounting day that owes heating energy.
pub open spec fn daily_rows(s: Shape, o: Options, days: Seq<DayGroup>) -> Seq<RowView> {
    if s.heater && o.daily_minimum && days.len() > 0 {
        if o.first_day_outstanding {
            Seq::new(days.len(), |g: int| day_row(s, days, g))
        } else {
            Seq::new((days.len() - 1) as nat, |g: int| day_row(s, days, g + 1))
        }
    } else {
        Seq::empty()
    }
}

/// Every row of the program.
pub open spec fn program_rows(s: Shape, o: Options, days: Seq<DayGroup>) -> Seq<RowView> {
    leading_rows(s, o, ROW_FAMILIES as int) + forced_rows(s, o.forced_on@) + daily_rows(s, o, days)
}

/// The families of objective terms that stand one per index.
#[derive(Clone, Copy, Debug, PartialEq, Eq, Structural)]
pub enum CostFamily {
    /// Import at the slot's import price.
    ImportCost,
    /// Export credited at the slot's export price less the threshold.
    ExportCredit,
    /// Wear on charging.
    ChargeWear,
    /// Wear on discharging.
    DischargeWear,
    /// Generation left unused.
    Curtailment,
    /// Load left unserved.
    LoadShedding,
    /// Import beyond the fuse allowance.
    ImportBreach,
    /// Ramping up.
    RampUp,
    /// Ramping down.
    RampDown,
    /// Heater block starts.
    BlockStart,
    /// State of charge below the minimum, at each boundary.
    Shortfall,
    /// Credit for the energy left at the end.
    Terminal,
    /// Ending below the target.
    TargetUnder,
    /// Ending above the target.
    TargetOver,
    /// Violated comfort windows.
    GapMiss,
    /// Violated wide comfort windows.
    WideGapMiss,
}

/// Term `i` of cost family `f`.
pub open spec fn cost_term(s: Shape, f: CostFamily, i: int) -> Term {
    let u = i as usize;
    match f {
        CostFamily::ImportCost => term(s, VarKind::Import(u), Coef::Plus(Factor::ImportPrice(u))),
        CostFamily::ExportCredit => term(s, VarKind::Export(u), Coef::Minus(Factor::ExportMargin(u))),
        CostFamily::ChargeWear => term(s, VarKind::Charge(u), Coef::Plus(Factor::WearCost)),
        CostFamily::DischargeWear => term(s, VarKind::Discharge(u), Coef::Plus(Factor::WearCost)),
        CostFamily::Curtailment => term(s, VarKind::Curtailment(u), Coef::Thousandths(CURTAILMENT_PENALTY_MILLIS)),
        CostFamily::LoadShedding => term(
            s,
            VarKind::LoadShedding(u),
            Coef::Thousandths(LOAD_SHEDDING_PENALTY_MILLIS),
        ),
        CostFamily::ImportBreach => term(
            s,
            VarKind::ImportBreach(u),
            Coef::Thousandths(IMPORT_BREACH_PENALTY_MILLIS),
        ),
        CostFamily::RampUp => term(s, VarKind::RampUp(u), Coef::Plus(Factor::RampingRate)),
        CostFamily::RampDown => term(s, VarKind::RampDown(u), Coef::Plus(Factor::RampingRate)),
        CostFamily::BlockStart => term(s, VarKind::HeaterStart(u), Coef::Plus(Factor::BlockStartPenalty)),
        CostFamily::Shortfall => term(s, VarKind::SocShortfall(u), Coef::Thousandths(SOC_SHORTFALL_PENALTY_MILLIS)),
        CostFamily::Terminal => term(s, VarKind::Soc(s.slots), Coef::Minus(Factor::TerminalValue)),
        CostFamily::TargetUnder => term(s, VarKind::TargetUnder, Coef::Plus(Factor::TargetPenalty)),
        CostFamily::TargetOver => term(s, VarKind::TargetOver, Coef::Plus(Factor::TargetPenalty)),
        CostFamily::GapMiss => term(s, VarKind::GapMiss(u), Coef::Plus(Factor::ComfortPenalty)),
        CostFamily::WideGapMiss => term(s, VarKind::WideGapMiss(u), Coef::Plus(Factor::ComfortPenalty)),
    }
}

/// Number of terms of cost family `f` under `o`.
pub open spec fn cost_count(s: Shape, o: Options, f: CostFamily) -> int {
    let n = s.slots as int;
    match f {
        CostFamily::RampUp | CostFamily::RampDown => if o.ramping_cost { n } else { 0 },
        CostFamily::BlockStart => if s.heater && o.block_start_penalty { n } else { 0 },
        CostFamily::Shortfall => n + 1,
        CostFamily::Terminal => 1,
        CostFamily::TargetUnder => if o.target { 1 } else { 0 },
        CostFamily::TargetOver => if o.target && o.target_positive { 1 } else { 0 },
        CostFamily::GapMiss => if o.comfort_penalty { s.gap_windows as int } else { 0 },
        CostFamily::WideGapMiss => if o.comfort_penalty { s.wide_gap_windows as int } else { 0 },
        _ => n,
    }
}

/// The terms of cost family `f` under `o`, in index order.
pub open spec fn cost_terms(s: Shape, o: Options, f: CostFamily) -> Seq<Term> {
    Seq::new(cost_count(s, o, f) as nat, |i: int| cost_term(s, f, i))
}

/// Number of cost families.
pub const COST_FAMILIES: usize = 16;

/// The cost families in the order their terms appear in the objective.
pub open spec fn cost_at(i: int) -> CostFamily {
    if i == 0 {
        CostFamily::ImportCost
    } else if i == 1 {
        CostFamily::ExportCredit
    } else if i == 2 {
        CostFamily::ChargeWear
    } else if i == 3 {
        CostFamily::DischargeWear
    } else if i == 4 {
        CostFamily::Curtailment
    } else if i == 5 {
        CostFamily::LoadShedding
    } else if i == 6 {
        CostFamily::ImportBreach
    } else if i == 7 {
        CostFamily::RampUp
    } else if i == 8 {
        CostFamily::RampDown
    } else if i == 9 {
        CostFamily::BlockStart
    } else if i == 10 {
        CostFamily::Shortfall
    } else if i == 11 {
        CostFamily::Terminal
    } else if i == 12 {
        CostFamily::TargetUnder
    } else if i == 13 {
        CostFamily::TargetOver
    } else if i == 14 {
        CostFamily::GapMiss
    } else {
        CostFamily::WideGapMiss
    }
}

/// The terms of the first `n` cost families.
pub open spec fn leading_costs(s: Shape, o: Options, n: int) -> Seq<Term>
    decreases n,
{
    if n <= 0 {
        Seq::empty()
    } else {
        leading_costs(s, o, n - 1) + cost_terms(s, o, cost_at(n - 1))
    }
}

/// The objective to minimise: the sum of these terms.
pub open spec fn program_objective(s: Shape, o: Options) -> Seq<Term> {
    leading_costs(s, o, COST_FAMILIES as int)
}

fn heater_window_exec(s: &Shape, lo: usize, len: usize) -> (r: Vec<Term>)
    requires
        s.wf(),
        s.heater,
        lo + len <= s.slots,
    ensures
        r@ == heater_window(*s, lo as int, len as int),
{
    let mut r: Vec<Term> = Vec::new();
    let mut j: usize = 0;
    while j < len
        invariant
            s.wf(),
            s.heater,
            lo + len <= s.slots,
            j <= len,
            r@ == heater_window(*s, lo as int, j as int),
        decreases len - j,
    {
        r.push(mk_term(s, VarKind::HeaterOn(lo + j), Coef::Int(1)));
        j = j + 1;
        assert(r@ =~= heater_window(*s, lo as int, j as int));
    }
    r
}

fn family_row_exec(s: &Shape, o: &Options, f: RowFamily, i: usize) -> (r: Row)
    requires
        s.wf(),
        s.slots >= 1,
        family_range(*s, *o, f).0 <= i < family_range(*s, *o, f).1,
    ensures
        r@ == family_row(*s, f, i as int),
{
    let one = Coef::Int(1);
    let minus = Coef::Int(-1);
    let r = match f {
        RowFamily::Initial => Row {
            terms: vec![mk_term(s, VarKind::Soc(0), one)],
            sense: Sense::Eq,
            rhs: Amount::InitialSoc,
        },
        RowFamily::Balance => {
            let mut terms = vec![
                mk_term(s, VarKind::Charge(i), one),
                mk_term(s, VarKind::Export(i), one),
                mk_term(s, VarKind::Curtailment(i), one),
                mk_term(s, VarKind::Discharge(i), minus),
                mk_term(s, VarKind::Import(i), minus),
                mk_term(s, VarKind::LoadShedding(i), minus),
            ];
            if s.heater {
                terms.push(mk_term(s, VarKind::HeaterOn(i), Coef::Plus(Factor::HeaterSlotEnergy)));
            }
            Row { terms, sense: Sense::Eq, rhs: Amount::NetGeneration(i) }
        },
        RowFamily::Battery => Row {
            terms: vec![
                mk_term(s, VarKind::Soc(i + 1), one),
                mk_term(s, VarKind::Soc(i), minus),
                mk_term(s, VarKind::Charge(i), Coef::Minus(Factor::ChargeEfficiency)),
                mk_term(s, VarKind::Discharge(i), Coef::Plus(Factor::DischargeLoss)),
            ],
            sense: Sense::Eq,
            rhs: Amount::Int(0),
        },
        RowFamily::SocFloor => Row {
            terms: vec![mk_term(s, VarKind::Soc(i), one), mk_term(s, VarKind::SocShortfall(i), one)],
            sense: Sense::Ge,
            rhs: Amount::MinSoc,
        },
        RowFamily::SocCeiling => Row {
            terms: vec![mk_term(s, VarKind::Soc(i), one)],
            sense: Sense::Le,
            rhs: Amount::MaxSoc,
        },
        RowFamily::Fuse => Row {
            terms: vec![mk_term(s, VarKind::Import(i), one), mk_term(s, VarKind::ImportBreach(i), minus)],
            sense: Sense::Le,
            rhs: Amount::FuseAllowance,
        },
        RowFamily::ImportCap => Row {
            terms: vec![mk_term(s, VarKind::Import(i), one)],
            sense: Sense::Le,
            rhs: Amount::ImportCap,
        },
        RowFamily::ExportCap => Row {
            terms: vec![mk_term(s, VarKind::Export(i), one)],
            sense: Sense::Le,
            rhs: Amount::ExportCap,
        },
        RowFamily::NoExport => Row {
            terms: vec![mk_term(s, VarKind::Export(i), one)],
            sense: Sense::Eq,
            rhs: Amount::Int(0),
        },
        RowFamily::RampStart => {
            let k = if i == 0 { VarKind::RampUp(0) } else { VarKind::RampDown(0) };
            Row { terms: vec![mk_term(s, k, one)], sense: Sense::Eq, rhs: Amount::Int(0) }
        },
        RowFamily::Ramp => Row {
            terms: vec![
                mk_term(s, VarKind::Charge(i), one),
                mk_term(s, VarKind::Discharge(i), minus),
                mk_term(s, VarKind::Charge(i - 1), minus),
                mk_term(s, VarKind::Discharge(i - 1), one),
                mk_term(s, VarKind::RampUp(i), minus),
                mk_term(s, VarKind::RampDown(i), one),
            ],
            sense: Sense::Eq,
            rhs: Amount::Int(0),
        },
        RowFamily::HeaterEdge => if i == 0 {
            Row {
                terms: vec![mk_term(s, VarKind::HeaterStart(0), one), mk_term(s, VarKind::HeaterOn(0), minus)],
                sense: Sense::Eq,
                rhs: Amount::Int(0),
            }
        } else {
            Row {
                terms: vec![
                    mk_term(s, VarKind::HeaterStart(i), one),
                    mk_term(s, VarKind::HeaterOn(i), minus),
                    mk_term(s, VarKind::HeaterOn(i - 1), one),
                ],
                sense: Sense::Ge,
                rhs: Amount::Int(0),
            }
        },
        RowFamily::Target => if i == 0 {
            Row {
                terms: vec![mk_term(s, VarKind::Soc(s.slots), one), mk_term(s, VarKind::TargetUnder, one)],
                sense: Sense::Ge,
                rhs: Amount::TargetSoc,
            }
        } else {
            Row {
                terms: vec![mk_term(s, VarKind::Soc(s.slots), one), mk_term(s, VarKind::TargetOver, minus)],
                sense: Sense::Le,
                rhs: Amount::TargetSoc,
            }
        },
        RowFamily::Gap => {
            let mut terms = heater_window_exec(s, i, s.gap_span as usize);
            terms.push(mk_term(s, VarKind::GapMiss(i), one));
            Row { terms, sense: Sense::Ge, rhs: Amount::Int(1) }
        },
        RowFamily::WideGap => {
            let mut terms = heater_window_exec(s, i, s.wide_gap_span as usize);
            terms.push(mk_term(s, VarKind::WideGapMiss(i), one));
            Row { terms, sense: Sense::Ge, rhs: Amount::Int(1) }
        },
        RowFamily::Spacing => {
            let lo: usize = if i as u64 > s.spacing_span { i - s.spacing_span as usize } else { 0 };
            let mut terms = heater_window_exec(s, lo, i - lo);
            terms.push(mk_term(s, VarKind::HeaterStart(i), Coef::Int(s.spacing_span as i64)));
            Row { terms, sense: Sense::Le, rhs: Amount::Int(s.spacing_span as i64) }
        },
    };
    assert(r@.terms =~= family_row(*s, f, i as int).terms);
    r
}

fn family_range_exec(s: &Shape, o: &Options, f: RowFamily) -> (r: (usize, usize))
    requires
        s.wf(),
        s.slots >= 1,
    ensures
        r.0 == family_range(*s, *o, f).0,
        r.1 == family_range(*s, *o, f).1,
        r.0 <= r.1,
{
    let n = s.slots;
    match f {
        RowFamily::Initial => (0, 1),
        RowFamily::Balance | RowFamily::Battery | RowFamily::SocCeiling => (0, n),
        RowFamily::SocFloor => (0, n + 1),
        RowFamily::Fuse => (0, if o.fuse_limit { n } else { 0 }),
        RowFamily::ImportCap => (0, if o.import_cap { n } else { 0 }),
        RowFamily::ExportCap => (0, if o.export_cap { n } else { 0 }),
        RowFamily::NoExport => (0, if o.export_enabled { 0 } else { n }),
        RowFamily::RampStart => (0, 2),
        RowFamily::Ramp => (1, n),
        RowFamily::HeaterEdge => (0, if s.heater { n } else { 0 }),
        RowFamily::Target => (0, if o.target { 2 } else { 0 }),
        RowFamily::Gap => (0, s.gap_windows),
        RowFamily::WideGap => (0, s.wide_gap_windows),
        RowFamily::Spacing => (1, if s.spacing_span > 0 { n } else { 1 }),
    }
}

fn family_rows_exec(s: &Shape, o: &Options, f: RowFamily) -> (r: Vec<Row>)
    requires
        s.wf(),
        s.slots >= 1,
    ensures
        rows_view(r@) == family_rows(*s, *o, f),
{
    let (lo, hi) = family_range_exec(s, o, f);
    let mut r: Vec<Row> = Vec::new();
    let mut i: usize = lo;
    while i < hi
        invariant
            s.wf(),
            s.slots >= 1,
            lo == family_range(*s, *o, f).0,
            hi == family_range(*s, *o, f).1,
            lo <= i <= hi,
            rows_view(r@) == Seq::new((i - lo) as nat, |k: int| family_row(*s, f, lo + k)),
        decreases hi - i,
    {
        let row = family_row_exec(s, o, f, i);
        let ghost prior = r@;
        r.push(row);
        assert(rows_view(r@) =~= rows_view(prior).push(r@[r.len() - 1]@));
        i = i + 1;
        assert(rows_view(r@) =~= Seq::new((i - lo) as nat, |k: int| family_row(*s, f, lo + k)));
    }
    r
}

fn family_at_exec(i: usize) -> (r: RowFamily)
    ensures
        r == family_at(i as int),
{
    if i == 0 {
        RowFamily::Initial
    } else if i == 1 {
        RowFamily::Balance
    } else if i == 2 {
        RowFamily::Battery
    } else if i == 3 {
        RowFamily::SocFloor
    } else if i == 4 {
        RowFamily::SocCeiling
    } else if i == 5 {
        RowFamily::Fuse
    } else if i == 6 {
        RowFamily::ImportCap
    } else if i == 7 {
        RowFamily::ExportCap
    } else if i == 8 {
        RowFamily::NoExport
    } else if i == 9 {
        RowFamily::RampStart
    } else if i == 10 {
        RowFamily::Ramp
    } else if i == 11 {
        RowFamily::HeaterEdge
    } else if i == 12 {
        RowFamily::Target
    } else if i == 13 {
        RowFamily::Gap
    } else if i == 14 {
        RowFamily::WideGap
    } else {
        RowFamily::Spacing
    }
}

proof fn lemma_rows_view_append(a: Seq<Row>, b: Seq<Row>)
    ensures
        rows_view(a + b) == rows_view(a) + rows_view(b),
{
    assert(rows_view(a + b) =~= rows_view(a) + rows_view(b));
}

fn forced_rows_exec(s: &Shape, forced: &Vec<usize>) -> (r: Vec<Row>)
    requires
        s.wf(),
    ensures
        rows_view(r@) == forced_rows(*s, forced@),
{
    let mut r: Vec<Row> = Vec::new();
    let mut k: usize = 0;
    while k < forced.len()
        invariant
            s.wf(),
            k <= forced.len(),
            rows_view(r@) == forced_rows(*s, forced@.subrange(0, k as int)),
        decreases forced.len() - k,
    {
        let t = forced[k];
        let ghost prior = r@;
        if s.heater && t < s.slots {
            r.push(Row { terms: vec![mk_term(s, VarKind::HeaterOn(t), Coef::Int(1))], sense: Sense::Eq, rhs: Amount::Int(1) });
            assert(r@ == prior.push(r@[r.len() - 1]));
            assert(rows_view(r@) =~= rows_view(prior).push(r@[r.len() - 1]@));
            assert(r@[r.len() - 1]@.terms =~= forced_row(*s, t as int).terms);
        }
        k = k + 1;
        assert(forced@.subrange(0, k as int).drop_last() =~= forced@.subrange(0, k - 1));
    }
    assert(forced@.subrange(0, forced.len() as int) =~= forced@);
    r
}

/// The accounting days name only slots of the horizon.
pub open spec fn days_within(days: Seq<DayGroup>, slots: int) -> bool {
    forall|g: int, j: int|
        0 <= g < days.len() && 0 <= j < days[g].slots@.len() ==> #[trigger] days[g].slots@[j] < slots
}

fn day_row_exec(s: &Shape, days: &Vec<DayGroup>, g: usize) -> (r: Row)
    requires
        s.wf(),
        s.heater,
        g < days.len(),
        days_within(days@, s.slots as int),
    ensures
        r@ == day_row(*s, days@, g as int),
{
    let members = &days[g].slots;
    let mut terms: Vec<Term> = Vec::new();
    let mut j: usize = 0;
    while j < members.len()
        invariant
            s.wf(),
            s.heater,
            g < days.len(),
            days_within(days@, s.slots as int),
            members@ == days@[g as int].slots@,
            j <= members.len(),
            terms@ == Seq::new(j as nat, |m: int| term(*s, VarKind::HeaterOn(members@[m]), Coef::Plus(Factor::HeaterSlotEnergy))),
        decreases members.len() - j,
    {
        assert(members@[j as int] < s.slots);
        terms.push(mk_term(s, VarKind::HeaterOn(members[j]), Coef::Plus(Factor::HeaterSlotEnergy)));
        j = j + 1;
        assert(terms@ =~= Seq::new(j as nat, |m: int| term(*s, VarKind::HeaterOn(members@[m]), Coef::Plus(Factor::HeaterSlotEnergy))));
    }
    let rhs = if g == 0 { Amount::FirstDayRequirement } else { Amount::DailyRequirement };
    let r = Row { terms, sense: Sense::Ge, rhs };
    assert(r@.terms =~= day_row(*s, days@, g as int).terms);
    r
}

fn daily_rows_exec(s: &Shape, o: &Options, days: &Vec<DayGroup>) -> (r: Vec<Row>)
    requires
        s.wf(),
        days_within(days@, s.slots as int),
    ensures
        rows_view(r@) == daily_rows(*s, *o, days@),
{
    let mut r: Vec<Row> = Vec::new();
    if s.heater && o.daily_minimum && days.len() > 0 {
        let first: usize = if o.first_day_outstanding { 0 } else { 1 };
        let mut g: usize = first;
        while g < days.len()
            invariant
                s.wf(),
                s.heater,
                days_within(days@, s.slots as int),
                first <= g <= days.len(),
                rows_view(r@) == Seq::new((g - first) as nat, |k: int| day_row(*s, days@, first + k)),
            decreases days.len() - g,
        {
            let ghost prior = r@;
            r.push(day_row_exec(s, days, g));
            assert(rows_view(r@) =~= rows_view(prior).push(r@[r.len() - 1]@));
            g = g + 1;
            assert(rows_view(r@) =~= Seq::new((g - first) as nat, |k: int| day_row(*s, days@, first + k)));
        }
        assert(rows_view(r@) =~= daily_rows(*s, *o, days@));
    } else {
        assert(rows_view(r@) =~= daily_rows(*s, *o, days@));
    }
    r
}

fn cost_term_exec(s: &Shape, o: &Options, f: CostFamily, i: usize) -> (r: Term)
    requires
        s.wf(),
        0 <= i < cost_count(*s, *o, f),
    ensures
        r == cost_term(*s, f, i as int),
{
    match f {
        CostFamily::ImportCost => mk_term(s, VarKind::Import(i), Coef::Plus(Factor::ImportPrice(i))),
        CostFamily::ExportCredit => mk_term(s, VarKind::Export(i), Coef::Minus(Factor::ExportMargin(i))),
        CostFamily::ChargeWear => mk_term(s, VarKind::Charge(i), Coef::Plus(Factor::WearCost)),
        CostFamily::DischargeWear => mk_term(s, VarKind::Discharge(i), Coef::Plus(Factor::WearCost)),
        CostFamily::Curtailment => mk_term(s, VarKind::Curtailment(i), Coef::Thousandths(CURTAILMENT_PENALTY_MILLIS)),
        CostFamily::LoadShedding => mk_term(
            s,
            VarKind::LoadShedding(i),
            Coef::Thousandths(LOAD_SHEDDING_PENALTY_MILLIS),
        ),
        CostFamily::ImportBreach => mk_term(
            s,
            VarKind::ImportBreach(i),
            Coef::Thousandths(IMPORT_BREACH_PENALTY_MILLIS),
        ),
        CostFamily::RampUp => mk_term(s, VarKind::RampUp(i), Coef::Plus(Factor::RampingRate)),
        CostFamily::RampDown => mk_term(s, VarKind::RampDown(i), Coef::Plus(Factor::RampingRate)),
        CostFamily::BlockStart => mk_term(s, VarKind::HeaterStart(i), Coef::Plus(Factor::BlockStartPenalty)),
        CostFamily::Shortfall => mk_term(
            s,
            VarKind::SocShortfall(i),
            Coef::Thousandths(SOC_SHORTFALL_PENALTY_MILLIS),
        ),
        CostFamily::Terminal => mk_term(s, VarKind::Soc(s.slots), Coef::Minus(Factor::TerminalValue)),
        CostFamily::TargetUnder => mk_term(s, VarKind::TargetUnder, Coef::Plus(Factor::TargetPenalty)),
        CostFamily::TargetOver => mk_term(s, VarKind::TargetOver, Coef::Plus(Factor::TargetPenalty)),
        CostFamily::GapMiss => mk_term(s, VarKind::GapMiss(i), Coef::Plus(Factor::ComfortPenalty)),
        CostFamily::WideGapMiss => mk_term(s, VarKind::WideGapMiss(i), Coef::Plus(Factor::ComfortPenalty)),
    }
}

fn cost_count_exec(s: &Shape, o: &Options, f: CostFamily) -> (r: usize)
    requires
        s.wf(),
    ensures
        r == cost_count(*s, *o, f),
{
    let n = s.slots;
    match f {
        CostFamily::RampUp | CostFamily::RampDown => if o.ramping_cost { n } else { 0 },
        CostFamily::BlockStart => if s.heater && o.block_start_penalty { n } else { 0 },
        CostFamily::Shortfall => n + 1,
        CostFamily::Terminal => 1,
        CostFamily::TargetUnder => if o.target { 1 } else { 0 },
        CostFamily::TargetOver => if o.target && o.target_positive { 1 } else { 0 },
        CostFamily::GapMiss => if o.comfort_penalty { s.gap_windows } else { 0 },
        CostFamily::WideGapMiss => if o.comfort_penalty { s.wide_gap_windows } else { 0 },
        _ => n,
    }
}

fn cost_at_exec(i: usize) -> (r: CostFamily)
    ensures
        r == cost_at(i as int),
{
    if i == 0 {
        CostFamily::ImportCost
    } else if i == 1 {
        CostFamily::ExportCredit
    } else if i == 2 {
        CostFamily::ChargeWear
    } else if i == 3 {
        CostFamily::DischargeWear
    } else if i == 4 {
        CostFamily::Curtailment
    } else if i == 5 {
        CostFamily::LoadShedding
    } else if i == 6 {
        CostFamily::ImportBreach
    } else if i == 7 {
        CostFamily::RampUp
    } else if i == 8 {
        CostFamily::RampDown
    } else if i == 9 {
        CostFamily::BlockStart
    } else if i == 10 {
        CostFamily::Shortfall
    } else if i == 11 {
        CostFamily::Terminal
    } else if i == 12 {
        CostFamily::TargetUnder
    } else if i == 13 {
        CostFamily::TargetOver
    } else if i == 14 {
        CostFamily::GapMiss
    } else {
        CostFamily::WideGapMiss
    }
}

/// The objective's terms under `o`.
fn objective_exec(s: &Shape, o: &Options) -> (r: Vec<Term>)
    requires
        s.wf(),
    ensures
        r@ == program_objective(*s, *o),
{
    let mut r: Vec<Term> = Vec::new();
    let mut c: usize = 0;
    while c < COST_FAMILIES
        invariant
            s.wf(),
            c <= COST_FAMILIES,
            r@ == leading_costs(*s, *o, c as int),
        decreases COST_FAMILIES - c,
    {
        let f = cost_at_exec(c);
        let count = cost_count_exec(s, o, f);
        let ghost before = r@;
        let mut i: usize = 0;
        while i < count
            invariant
                s.wf(),
                count == cost_count(*s, *o, f),
                i <= count,
                r@ == before + Seq::new(i as nat, |k: int| cost_term(*s, f, k)),
            decreases count - i,
        {
            r.push(cost_term_exec(s, o, f, i));
            i = i + 1;
            assert(r@ =~= before + Seq::new(i as nat, |k: int| cost_term(*s, f, k)));
        }
        c = c + 1;
        assert(r@ =~= leading_costs(*s, *o, c as int));
    }
    r
}

/// A built program: its sizes, the accounting days its heating rows follow,
/// its objective (minimised) and its rows.
#[derive(Debug)]
pub struct Model {
    pub shape: Shape,
    pub days: Vec<DayGroup>,
    pub objective: Vec<Term>,
    pub rows: Vec<Row>,
}

/// Builds the program for `s` under `o`, with heating requirements per day of
/// `days`.
pub fn build_model(s: &Shape, o: &Options, days: Vec<DayGroup>) -> (m: Model)
    requires
        s.wf(),
        s.slots >= 1,
        s.heater == o.heater,
        days_within(days@, s.slots as int),
    ensures
        m.shape == *s,
        m.days@ == days@,
        m.objective@ == program_objective(*s, *o),
        rows_view(m.rows@) == program_rows(*s, *o, days@),
{
    let mut rows: Vec<Row> = Vec::new();
    let mut f: usize = 0;
    while f < ROW_FAMILIES
        invariant
            s.wf(),
            s.slots >= 1,
            f <= ROW_FAMILIES,
            rows_view(rows@) == leading_rows(*s, *o, f as int),
        decreases ROW_FAMILIES - f,
    {
        let mut more = family_rows_exec(s, o, family_at_exec(f));
        let ghost (a, b) = (rows@, more@);
        rows.append(&mut more);
        proof { lemma_rows_view_append(a, b); }
        f = f + 1;
    }
    let mut forced = forced_rows_exec(s, &o.forced_on);
    let ghost (a, b) = (rows@, forced@);
    rows.append(&mut forced);
    proof { lemma_rows_view_append(a, b); }
    let mut daily = daily_rows_exec(s, o, &days);
    let ghost (a, b) = (rows@, daily@);
    rows.append(&mut daily);
    proof { lemma_rows_view_append(a, b); }
    let objective = objective_exec(s, o);
    Model { shape: *s, days, objective, rows }
}

} // verus!
