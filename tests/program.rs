use kepler::horizon::{HorizonError, SlotTimes};
use kepler::layout::{Bound, Shape, VarKind};
use kepler::options::Options;
use kepler::planner::{plan, Plan};
use kepler::program::{Model, Sense, Term};
use kepler::symbols::{
    Amount, Coef, Factor, CURTAILMENT_PENALTY_MILLIS, IMPORT_BREACH_PENALTY_MILLIS,
    LOAD_SHEDDING_PENALTY_MILLIS, SOC_SHORTFALL_PENALTY_MILLIS,
};

const HOUR: i64 = 3600;

fn hourly(n: usize) -> Vec<SlotTimes> {
    (0..n as i64)
        .map(|k| SlotTimes { start: k * HOUR, end: (k + 1) * HOUR })
        .collect()
}

fn bare_options() -> Options {
    Options {
        heater: false,
        daily_minimum: false,
        first_day_outstanding: false,
        max_gap_seconds: 0,
        comfort_penalty: false,
        min_spacing_seconds: 0,
        block_start_penalty: false,
        ramping_cost: false,
        target: false,
        target_positive: false,
        fuse_limit: false,
        import_cap: false,
        export_cap: false,
        export_enabled: true,
        forced_on: Vec::new(),
        defer_hours: 0,
    }
}

fn program(slots: &Vec<SlotTimes>, o: &Options) -> Model {
    match plan(slots, o) {
        Ok(Plan::Program(m)) => m,
        other => panic!("expected a program, got {:?}", other),
    }
}

/// Numbers for the symbols of a small battery-only case.
struct Numbers {
    load: Vec<f64>,
    pv: Vec<f64>,
    import_price: Vec<f64>,
    initial_soc: f64,
    capacity: f64,
}

impl Numbers {
    fn factor(&self, f: Factor) -> f64 {
        match f {
            Factor::ChargeEfficiency | Factor::DischargeLoss => 1.0,
            Factor::ImportPrice(t) => self.import_price[t],
            _ => 0.0,
        }
    }

    fn coef(&self, c: Coef) -> f64 {
        match c {
            Coef::Int(k) => k as f64,
            Coef::Thousandths(k) => k as f64 / 1000.0,
            Coef::Plus(f) => self.factor(f),
            Coef::Minus(f) => -self.factor(f),
        }
    }

    fn amount(&self, a: Amount) -> f64 {
        match a {
            Amount::Int(k) => k as f64,
            Amount::InitialSoc => self.initial_soc,
            Amount::NetGeneration(t) => self.pv[t] - self.load[t],
            Amount::MaxSoc | Amount::Capacity | Amount::ChargeLimit | Amount::DischargeLimit => {
                self.capacity
            }
            _ => 0.0,
        }
    }

    fn sum(&self, terms: &[Term], x: &[f64]) -> f64 {
        terms.iter().map(|t| self.coef(t.coef) * x[t.var]).sum()
    }

    fn feasible(&self, m: &Model, x: &[f64]) -> bool {
        m.rows.iter().all(|r| {
            let lhs = self.sum(&r.terms, x);
            let rhs = self.amount(r.rhs);
            match r.sense {
                Sense::Eq => (lhs - rhs).abs() < 1e-9,
                Sense::Le => lhs <= rhs + 1e-9,
                Sense::Ge => lhs >= rhs - 1e-9,
            }
        })
    }

    fn cost(&self, m: &Model, x: &[f64]) -> f64 {
        self.sum(&m.objective, x)
    }
}

fn set(m: &Model, x: &mut [f64], k: VarKind, v: f64) {
    x[m.shape.index(k)] = v;
}

/// Integer rows hold for integer values `x`.
fn integral_rows_hold(m: &Model, x: &[i64]) -> bool {
    m.rows.iter().all(|r| {
        let mut lhs: i64 = 0;
        for t in &r.terms {
            match t.coef {
                Coef::Int(k) => lhs += k * x[t.var],
                _ => return true,
            }
        }
        match (r.sense, r.rhs) {
            (Sense::Eq, Amount::Int(b)) => lhs == b,
            (Sense::Le, Amount::Int(b)) => lhs <= b,
            (Sense::Ge, Amount::Int(b)) => lhs >= b,
            _ => true,
        }
    })
}

#[test]
fn empty_horizon_needs_no_solve() {
    assert!(matches!(plan(&Vec::new(), &bare_options()), Ok(Plan::Empty)));
}

#[test]
fn plan_reports_horizon_errors() {
    let degenerate = vec![SlotTimes { start: 10, end: 5 }];
    assert!(matches!(plan(&degenerate, &bare_options()), Err(HorizonError::DegenerateSlot)));
    let uneven = vec![SlotTimes { start: 0, end: HOUR }, SlotTimes { start: HOUR, end: 3 * HOUR }];
    assert!(matches!(plan(&uneven, &bare_options()), Err(HorizonError::UnevenSlots)));
}

#[test]
fn shape_window_sizes() {
    let mut o = bare_options();
    o.heater = true;
    o.min_spacing_seconds = 9000;
    o.max_gap_seconds = 4 * 3600;
    let s = Shape::new(&o, 10, 3600);
    assert_eq!(s.spacing_span, 3);
    assert_eq!(s.gap_span, 4);
    assert_eq!(s.gap_windows, 7);
    assert_eq!(s.wide_gap_span, 6);
    assert_eq!(s.wide_gap_windows, 5);
    let short = Shape::new(&o, 3, 3600);
    assert_eq!(short.gap_windows, 0);
    assert_eq!(short.wide_gap_windows, 0);
    o.heater = false;
    let off = Shape::new(&o, 10, 3600);
    assert_eq!(off.spacing_span, 0);
    assert_eq!(off.gap_span, 0);
    assert_eq!(off.gap_windows, 0);
}

#[test]
fn variable_table_is_consistent() {
    let mut o = bare_options();
    o.heater = true;
    o.max_gap_seconds = 2 * 3600;
    let s = Shape::new(&o, 5, 3600);
    let kinds = s.kinds();
    assert_eq!(kinds.len(), s.count());
    assert_eq!(s.count(), 11 * 5 + 2 * 5 + 4 + 4 + 3);
    for (i, k) in kinds.iter().enumerate() {
        assert_eq!(s.index(*k), i);
    }
    assert_eq!(kinds[s.index(VarKind::Soc(5))], VarKind::Soc(5));
    assert_eq!(VarKind::HeaterOn(0).bound(), Bound::Binary);
    assert_eq!(VarKind::Charge(0).bound(), Bound::UpTo(Amount::ChargeLimit));
    assert_eq!(VarKind::Soc(0).bound(), Bound::UpTo(Amount::Capacity));
    assert_eq!(VarKind::Import(0).bound(), Bound::NonNegative);
}

#[test]
fn fixed_penalties_keep_their_values() {
    assert_eq!(SOC_SHORTFALL_PENALTY_MILLIS, 1_000_000);
    assert_eq!(CURTAILMENT_PENALTY_MILLIS, 100);
    assert_eq!(LOAD_SHEDDING_PENALTY_MILLIS, 10_000_000);
    assert_eq!(IMPORT_BREACH_PENALTY_MILLIS, 5_000_000);
}

#[test]
fn program_rows_and_terms_for_one_slot() {
    let m = program(&hourly(1), &bare_options());
    let s = m.shape;
    // initial, balance, battery, two floors, ceiling, two ramp starts
    assert_eq!(m.rows.len(), 8);
    let battery = &m.rows[2];
    assert_eq!(battery.sense, Sense::Eq);
    assert_eq!(battery.rhs, Amount::Int(0));
    assert_eq!(
        battery.terms,
        vec![
            Term { var: s.index(VarKind::Soc(1)), coef: Coef::Int(1) },
            Term { var: s.index(VarKind::Soc(0)), coef: Coef::Int(-1) },
            Term { var: s.index(VarKind::Charge(0)), coef: Coef::Minus(Factor::ChargeEfficiency) },
            Term { var: s.index(VarKind::Discharge(0)), coef: Coef::Plus(Factor::DischargeLoss) },
        ]
    );
    assert!(m.objective.contains(&Term {
        var: s.index(VarKind::Curtailment(0)),
        coef: Coef::Thousandths(CURTAILMENT_PENALTY_MILLIS),
    }));
    assert!(m.objective.contains(&Term {
        var: s.index(VarKind::LoadShedding(0)),
        coef: Coef::Thousandths(LOAD_SHEDDING_PENALTY_MILLIS),
    }));
    assert!(m.objective.contains(&Term {
        var: s.index(VarKind::Soc(1)),
        coef: Coef::Minus(Factor::TerminalValue),
    }));
}

#[test]
fn optional_rows_follow_options() {
    let base = program(&hourly(3), &bare_options()).rows.len();
    let mut o = bare_options();
    o.fuse_limit = true;
    o.import_cap = true;
    o.export_cap = true;
    o.export_enabled = false;
    o.target = true;
    let m = program(&hourly(3), &o);
    assert_eq!(m.rows.len(), base + 4 * 3 + 2);
    let no_export = m.rows.iter().filter(|r| r.sense == Sense::Eq && r.terms.len() == 1
        && r.terms[0].var == m.shape.index(VarKind::Export(1))).count();
    assert_eq!(no_export, 1);
}

#[test]
fn ramp_terms_only_with_ramping_cost() {
    let m = program(&hourly(2), &bare_options());
    let up = Term { var: m.shape.index(VarKind::RampUp(1)), coef: Coef::Plus(Factor::RampingRate) };
    assert!(!m.objective.contains(&up));
    let mut o = bare_options();
    o.ramping_cost = true;
    let m = program(&hourly(2), &o);
    assert!(m.objective.contains(&up));
}

#[test]
fn single_slot_import_covers_load() {
    let m = program(&hourly(1), &bare_options());
    let n = Numbers { load: vec![1.0], pv: vec![0.0], import_price: vec![1.0], initial_soc: 5.0, capacity: 100.0 };
    let mut x = vec![0.0; m.shape.count()];
    set(&m, &mut x, VarKind::Soc(0), 5.0);
    set(&m, &mut x, VarKind::Soc(1), 5.0);
    set(&m, &mut x, VarKind::Import(0), 1.0);
    assert!(n.feasible(&m, &x));
    assert_eq!(n.cost(&m, &x), 1.0);
    set(&m, &mut x, VarKind::Import(0), 0.0);
    assert!(!n.feasible(&m, &x));
}

#[test]
fn cheap_slot_recharges_battery() {
    let m = program(&hourly(2), &bare_options());
    let n = Numbers {
        load: vec![1.0, 1.0],
        pv: vec![0.0, 0.0],
        import_price: vec![2.0, 0.5],
        initial_soc: 1.0,
        capacity: 10.0,
    };
    let mut idle = vec![0.0; m.shape.count()];
    for b in 0..3 {
        set(&m, &mut idle, VarKind::Soc(b), 1.0);
    }
    set(&m, &mut idle, VarKind::Import(0), 1.0);
    set(&m, &mut idle, VarKind::Import(1), 1.0);
    assert!(n.feasible(&m, &idle));
    assert_eq!(n.cost(&m, &idle), 2.5);

    let mut shifted = vec![0.0; m.shape.count()];
    set(&m, &mut shifted, VarKind::Soc(0), 1.0);
    set(&m, &mut shifted, VarKind::Discharge(0), 1.0);
    set(&m, &mut shifted, VarKind::Soc(1), 0.0);
    set(&m, &mut shifted, VarKind::Import(1), 2.0);
    set(&m, &mut shifted, VarKind::Charge(1), 1.0);
    set(&m, &mut shifted, VarKind::Soc(2), 1.0);
    set(&m, &mut shifted, VarKind::RampUp(1), 2.0);
    assert!(n.feasible(&m, &shifted));
    assert_eq!(n.cost(&m, &shifted), 1.0);
    assert!(n.cost(&m, &shifted) < n.cost(&m, &idle));
}

fn heater_case() -> Model {
    let mut o = bare_options();
    o.heater = true;
    o.min_spacing_seconds = 3 * 3600;
    o.forced_on = vec![2, 9];
    program(&hourly(4), &o)
}

fn heater_values(m: &Model, on: [i64; 4], start: [i64; 4]) -> Vec<i64> {
    let mut x = vec![0; m.shape.count()];
    for t in 0..4 {
        x[m.shape.index(VarKind::HeaterOn(t))] = on[t];
        x[m.shape.index(VarKind::HeaterStart(t))] = start[t];
    }
    x
}

#[test]
fn forced_slot_with_spacing() {
    let m = heater_case();
    let s = m.shape;
    assert_eq!(s.spacing_span, 3);
    let forced = m.rows.iter().filter(|r| {
        r.sense == Sense::Eq && r.rhs == Amount::Int(1) && r.terms.len() == 1
    }).count();
    assert_eq!(forced, 1);
    let spacing_at_2: Vec<&kepler::program::Row> = m.rows.iter().filter(|r| {
        r.sense == Sense::Le && r.terms.last() == Some(&Term { var: s.index(VarKind::HeaterStart(2)), coef: Coef::Int(3) })
    }).collect();
    assert_eq!(spacing_at_2.len(), 1);
    assert_eq!(spacing_at_2[0].rhs, Amount::Int(3));
    assert_eq!(spacing_at_2[0].terms[0].var, s.index(VarKind::HeaterOn(0)));
    assert_eq!(spacing_at_2[0].terms[1].var, s.index(VarKind::HeaterOn(1)));

    assert!(integral_rows_hold(&m, &heater_values(&m, [0, 0, 1, 0], [0, 0, 1, 0])));
    assert!(!integral_rows_hold(&m, &heater_values(&m, [0, 0, 0, 0], [0, 0, 0, 0])));
    assert!(!integral_rows_hold(&m, &heater_values(&m, [1, 0, 1, 0], [1, 0, 1, 0])));
    assert!(!integral_rows_hold(&m, &heater_values(&m, [0, 0, 1, 1], [0, 0, 1, 1])));
    assert!(!integral_rows_hold(&m, &heater_values(&m, [0, 0, 1, 0], [0, 0, 0, 0])));
}

#[test]
fn daily_requirement_rows_per_day() {
    let mut o = bare_options();
    o.heater = true;
    o.daily_minimum = true;
    let slots: Vec<SlotTimes> = (0..4)
        .map(|k| SlotTimes { start: 86400 - 2 * HOUR + k * HOUR, end: 86400 - HOUR + k * HOUR })
        .collect();
    let m = program(&slots, &o);
    let daily: Vec<&kepler::program::Row> = m.rows.iter().filter(|r| {
        r.rhs == Amount::DailyRequirement || r.rhs == Amount::FirstDayRequirement
    }).collect();
    assert_eq!(daily.len(), 1);
    assert_eq!(daily[0].rhs, Amount::DailyRequirement);
    assert_eq!(daily[0].sense, Sense::Ge);
    assert_eq!(
        daily[0].terms,
        vec![
            Term { var: m.shape.index(VarKind::HeaterOn(2)), coef: Coef::Plus(Factor::HeaterSlotEnergy) },
            Term { var: m.shape.index(VarKind::HeaterOn(3)), coef: Coef::Plus(Factor::HeaterSlotEnergy) },
        ]
    );
    o.first_day_outstanding = true;
    let m = program(&slots, &o);
    let first = m.rows.iter().filter(|r| r.rhs == Amount::FirstDayRequirement).count();
    assert_eq!(first, 1);
}

#[test]
fn comfort_windows_cover_horizon() {
    let mut o = bare_options();
    o.heater = true;
    o.max_gap_seconds = 2 * 3600;
    o.comfort_penalty = true;
    let m = program(&hourly(4), &o);
    assert_eq!(m.shape.gap_windows, 3);
    assert_eq!(m.shape.wide_gap_windows, 2);
    let windows = m.rows.iter().filter(|r| r.sense == Sense::Ge && r.rhs == Amount::Int(1)).count();
    assert_eq!(windows, 5);
    let penalties = m.objective.iter().filter(|t| t.coef == Coef::Plus(Factor::ComfortPenalty)).count();
    assert_eq!(penalties, 5);
    assert!(integral_rows_hold(&m, &heater_values(&m, [0, 1, 1, 0], [0, 1, 0, 0])));
}
