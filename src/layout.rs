//! The program's variables: their sizes, kinds, bounds and positions.

use vstd::prelude::*;
use crate::options::Options;
use crate::symbols::Amount;

verus! {

/// `ceil(a / b)` for `a >= 0`, `b > 0`.
pub open spec fn ceil_div(a: int, b: int) -> int {
    if a <= 0 {
        0
    } else {
        (a - 1) / b + 1
    }
}

/// `ceil_div(a, b)` is the least `k` with `k * b >= a`.
pub proof fn lemma_ceil_div(a: int, b: int)
    requires
        a >= 0,
        b > 0,
    ensures
        ceil_div(a, b) * b >= a,
        ceil_div(a, b) >= 0,
        ceil_div(a, b) > 0 ==> (ceil_div(a, b) - 1) * b < a,
{
    if a > 0 {
        let q = (a - 1) / b;
        let r = (a - 1) % b;
        assert(a - 1 == q * b + r && 0 <= r < b) by (nonlinear_arith)
            requires q == (a - 1) / b, r == (a - 1) % b, b > 0, a > 0;
        assert((q + 1) * b >= a) by (nonlinear_arith)
            requires a - 1 == q * b + r, 0 <= r < b;
        assert(q * b < a) by (nonlinear_arith)
            requires a - 1 == q * b + r, 0 <= r < b;
    }
}

/// Number of windows of `span` consecutive slots in a horizon of `slots`.
pub open spec fn window_count(span: int, slots: int) -> int {
    if 0 < span <= slots {
        slots - span + 1
    } else {
        0
    }
}

/// The sizes a program is built on.
#[derive(Clone, Copy, Debug, PartialEq, Eq, Structural)]
pub struct Shape {
    /// Number of slots in the horizon.
    pub slots: usize,
    /// Heater variables and rules are present.
    pub heater: bool,
    /// Slots before an activation in which the heater must have been off;
    /// zero when there is no spacing rule.
    pub spacing_span: u64,
    /// Slots of one comfort window; zero when there is no comfort rule.
    pub gap_span: u64,
    /// Number of comfort windows.
    pub gap_windows: usize,
    /// Slots of one wide comfort window, one and a half times the gap.
    pub wide_gap_span: u64,
    /// Number of wide comfort windows.
    pub wide_gap_windows: usize,
}

/// The shape for `slots` slots of `slot_seconds` seconds under `o`.
pub open spec fn shape_of(o: Options, slots: int, slot_seconds: int) -> Shape {
    let spacing = if o.heater && o.min_spacing_seconds > 0 {
        ceil_div(o.min_spacing_seconds as int, slot_seconds)
    } else {
        0
    };
    let gap = if o.heater && o.max_gap_seconds > 0 {
        ceil_div(o.max_gap_seconds as int, slot_seconds)
    } else {
        0
    };
    let wide = if o.heater && o.max_gap_seconds > 0 {
        ceil_div(3 * o.max_gap_seconds as int, 2 * slot_seconds)
    } else {
        0
    };
    Shape {
        slots: slots as usize,
        heater: o.heater,
        spacing_span: spacing as u64,
        gap_span: gap as u64,
        gap_windows: window_count(gap, slots) as usize,
        wide_gap_span: wide as u64,
        wide_gap_windows: window_count(wide, slots) as usize,
    }
}

/// The largest horizon whose variables can all be numbered.
pub open spec fn max_slots() -> int {
    (usize::MAX as int - 4) / 16
}

/// Ceiling division on positive integers.
fn ceil_div_exec(a: u128, b: u128) -> (r: u128)
    requires
        a > 0,
        b > 0,
    ensures
        r == ceil_div(a as int, b as int),
{
    (a - 1) / b + 1
}

fn window_count_exec(span: u64, slots: usize) -> (r: usize)
    ensures
        r == window_count(span as int, slots as int),
{
    if 0 < span && span <= slots as u64 {
        slots - span as usize + 1
    } else {
        0
    }
}

impl Shape {
    /// Derives the sizes from the options and the horizon.
    pub fn new(o: &Options, slots: usize, slot_seconds: u64) -> (r: Shape)
        requires
            o.wf(),
            slot_seconds > 0,
            slots <= max_slots(),
        ensures
            r == shape_of(*o, slots as int, slot_seconds as int),
            r.wf(),
    {
        let spacing: u64 = if o.heater && o.min_spacing_seconds > 0 {
            proof { lemma_ceil_div(o.min_spacing_seconds as int, slot_seconds as int); }
            assert(ceil_div(o.min_spacing_seconds as int, slot_seconds as int) <= o.min_spacing_seconds) by (nonlinear_arith)
                requires
                    ceil_div(o.min_spacing_seconds as int, slot_seconds as int) > 0 ==> (ceil_div(o.min_spacing_seconds as int, slot_seconds as int) - 1) * slot_seconds < o.min_spacing_seconds,
                    slot_seconds >= 1,
                    ceil_div(o.min_spacing_seconds as int, slot_seconds as int) >= 0;
            ceil_div_exec(o.min_spacing_seconds as u128, slot_seconds as u128) as u64
        } else {
            0
        };
        let gap: u64 = if o.heater && o.max_gap_seconds > 0 {
            proof { lemma_ceil_div(o.max_gap_seconds as int, slot_seconds as int); }
            assert(ceil_div(o.max_gap_seconds as int, slot_seconds as int) <= o.max_gap_seconds) by (nonlinear_arith)
                requires
                    ceil_div(o.max_gap_seconds as int, slot_seconds as int) > 0 ==> (ceil_div(o.max_gap_seconds as int, slot_seconds as int) - 1) * slot_seconds < o.max_gap_seconds,
                    slot_seconds >= 1,
                    ceil_div(o.max_gap_seconds as int, slot_seconds as int) >= 0;
            ceil_div_exec(o.max_gap_seconds as u128, slot_seconds as u128) as u64
        } else {
            0
        };
        let wide: u64 = if o.heater && o.max_gap_seconds > 0 {
            let a: u128 = 3 * (o.max_gap_seconds as u128);
            let b: u128 = 2 * (slot_seconds as u128);
            proof { lemma_ceil_div(a as int, b as int); }
            assert(ceil_div(a as int, b as int) <= o.max_gap_seconds * 2) by (nonlinear_arith)
                requires
                    ceil_div(a as int, b as int) > 0 ==> (ceil_div(a as int, b as int) - 1) * b < a,
                    a == 3 * o.max_gap_seconds,
                    b >= 2,
                    ceil_div(a as int, b as int) >= 0;
            ceil_div_exec(a, b) as u64
        } else {
            0
        };
        Shape {
            slots,
            heater: o.heater,
            spacing_span: spacing,
            gap_span: gap,
            gap_windows: window_count_exec(gap, slots),
            wide_gap_span: wide,
            wide_gap_windows: window_count_exec(wide, slots),
        }
    }

    /// Sizes small enough for every variable to be numbered and every
    /// coefficient to be held.
    pub open spec fn wf(self) -> bool {
        &&& self.slots <= max_slots()
        &&& self.gap_windows == window_count(self.gap_span as int, self.slots as int)
        &&& self.wide_gap_windows == window_count(self.wide_gap_span as int, self.slots as int)
        &&& self.spacing_span <= i64::MAX
        &&& !self.heater ==> self.spacing_span == 0 && self.gap_span == 0 && self.wide_gap_span == 0
    }
}

/// What a variable stands for. Slot-indexed kinds take a slot, `Soc` and
/// `SocShortfall` a slot boundary (0 to the number of slots), comfort kinds the
/// first slot of their window.
#[derive(Clone, Copy, Debug, PartialEq, Eq, Structural)]
pub enum VarKind {
    Import(usize),
    Export(usize),
    Charge(usize),
    Discharge(usize),
    Curtailment(usize),
    LoadShedding(usize),
    ImportBreach(usize),
    RampUp(usize),
    RampDown(usize),
    HeaterOn(usize),
    HeaterStart(usize),
    Soc(usize),
    SocShortfall(usize),
    TargetUnder,
    TargetOver,
    GapMiss(usize),
    WideGapMiss(usize),
}

/// The domain of a variable.
#[derive(Clone, Copy, Debug, PartialEq, Eq, Structural)]
pub enum Bound {
    /// Zero or more.
    NonNegative,
    /// From zero to the amount.
    UpTo(Amount),
    /// Zero or one.
    Binary,
}

impl VarKind {
    pub open spec fn bound_spec(self) -> Bound {
        match self {
            VarKind::Charge(_) => Bound::UpTo(Amount::ChargeLimit),
            VarKind::Discharge(_) => Bound::UpTo(Amount::DischargeLimit),
            VarKind::Soc(_) => Bound::UpTo(Amount::Capacity),
            VarKind::HeaterOn(_) | VarKind::HeaterStart(_) => Bound::Binary,
            _ => Bound::NonNegative,
        }
    }

    /// The domain of a variable of this kind.
    #[verifier::when_used_as_spec(bound_spec)]
    pub fn bound(self) -> (r: Bound)
        ensures
            r == self.bound_spec(),
    {
        match self {
            VarKind::Charge(_) => Bound::UpTo(Amount::ChargeLimit),
            VarKind::Discharge(_) => Bound::UpTo(Amount::DischargeLimit),
            VarKind::Soc(_) => Bound::UpTo(Amount::Capacity),
            VarKind::HeaterOn(_) | VarKind::HeaterStart(_) => Bound::Binary,
            _ => Bound::NonNegative,
        }
    }
}

impl Shape {
    /// Number of slot-indexed variables before the state-of-charge block.
    pub open spec fn slot_block(self) -> int {
        if self.heater {
            11 * self.slots
        } else {
            9 * self.slots
        }
    }

    /// A variable of this kind is part of the program.
    pub open spec fn allocated(self, k: VarKind) -> bool {
        match k {
            VarKind::Import(t) | VarKind::Export(t) | VarKind::Charge(t) | VarKind::Discharge(t)
            | VarKind::Curtailment(t) | VarKind::LoadShedding(t) | VarKind::ImportBreach(t)
            | VarKind::RampUp(t) | VarKind::RampDown(t) => t < self.slots,
            VarKind::HeaterOn(t) | VarKind::HeaterStart(t) => self.heater && t < self.slots,
            VarKind::Soc(b) | VarKind::SocShortfall(b) => b <= self.slots,
            VarKind::TargetUnder | VarKind::TargetOver => true,
            VarKind::GapMiss(w) => w < self.gap_windows,
            VarKind::WideGapMiss(w) => w < self.wide_gap_windows,
        }
    }

    /// Where a variable of this kind stands: slot-indexed kinds in blocks of
    /// one per slot, in the order of `VarKind`, then the boundary blocks, the
    /// two target slacks and the comfort windows.
    pub open spec fn position(self, k: VarKind) -> int {
        let n = self.slots as int;
        let h = self.slot_block();
        match k {
            VarKind::Import(t) => t as int,
            VarKind::Export(t) => n + t,
            VarKind::Charge(t) => 2 * n + t,
            VarKind::Discharge(t) => 3 * n + t,
            VarKind::Curtailment(t) => 4 * n + t,
            VarKind::LoadShedding(t) => 5 * n + t,
            VarKind::ImportBreach(t) => 6 * n + t,
            VarKind::RampUp(t) => 7 * n + t,
            VarKind::RampDown(t) => 8 * n + t,
            VarKind::HeaterOn(t) => 9 * n + t,
            VarKind::HeaterStart(t) => 10 * n + t,
            VarKind::Soc(b) => h + b,
            VarKind::SocShortfall(b) => h + n + 1 + b,
            VarKind::TargetUnder => h + 2 * n + 2,
            VarKind::TargetOver => h + 2 * n + 3,
            VarKind::GapMiss(w) => h + 2 * n + 4 + w,
            VarKind::WideGapMiss(w) => h + 2 * n + 4 + self.gap_windows + w,
        }
    }

    /// Number of variables.
    pub open spec fn var_count(self) -> int {
        self.slot_block() + 2 * self.slots + 4 + self.gap_windows + self.wide_gap_windows
    }

    /// The position of an allocated variable, as a handle.
    pub open spec fn var(self, k: VarKind) -> usize {
        self.position(k) as usize
    }

    /// Number of variables.
    pub fn count(&self) -> (r: usize)
        requires
            self.wf(),
        ensures
            r == self.var_count(),
    {
        let h: usize = if self.heater { 11 * self.slots } else { 9 * self.slots };
        h + 2 * self.slots + 4 + self.gap_windows + self.wide_gap_windows
    }

    /// The handle of an allocated variable.
    pub fn index(&self, k: VarKind) -> (r: usize)
        requires
            self.wf(),
            self.allocated(k),
        ensures
            r == self.position(k),
            r < self.var_count(),
    {
        let n = self.slots;
        let h: usize = if self.heater { 11 * n } else { 9 * n };
        match k {
            VarKind::Import(t) => t,
            VarKind::Export(t) => n + t,
            VarKind::Charge(t) => 2 * n + t,
            VarKind::Discharge(t) => 3 * n + t,
            VarKind::Curtailment(t) => 4 * n + t,
            VarKind::LoadShedding(t) => 5 * n + t,
            VarKind::ImportBreach(t) => 6 * n + t,
            VarKind::RampUp(t) => 7 * n + t,
            VarKind::RampDown(t) => 8 * n + t,
            VarKind::HeaterOn(t) => 9 * n + t,
            VarKind::HeaterStart(t) => 10 * n + t,
            VarKind::Soc(b) => h + b,
            VarKind::SocShortfall(b) => h + n + 1 + b,
            VarKind::TargetUnder => h + 2 * n + 2,
            VarKind::TargetOver => h + 2 * n + 3,
            VarKind::GapMiss(w) => h + 2 * n + 4 + w,
            VarKind::WideGapMiss(w) => h + 2 * n + 4 + self.gap_windows + w,
        }
    }

    /// The kind of every variable, by position.
    pub fn kinds(&self) -> (r: Vec<VarKind>)
        requires
            self.wf(),
        ensures
            r.len() == self.var_count(),
            forall|i: int| 0 <= i < r.len() ==> self.allocated(#[trigger] r@[i]) && self.position(r@[i]) == i,
    {
        let mut r: Vec<VarKind> = Vec::new();
        let n = self.slots;
        let mut family: usize = 0;
        let families: usize = if self.heater { 11 } else { 9 };
        while family < families
            invariant
                self.wf(),
                n == self.slots,
                families == (if self.heater { 11usize } else { 9usize }),
                family <= families,
                r.len() == family * n,
                forall|i: int| 0 <= i < r.len() ==> self.allocated(#[trigger] r@[i]) && self.position(r@[i]) == i,
            decreases families - family,
        {
            let mut t: usize = 0;
            while t < n
                invariant
                    self.wf(),
                    n == self.slots,
                    family < families,
                    families == (if self.heater { 11usize } else { 9usize }),
                    t <= n,
                    r.len() == family * n + t,
                    forall|i: int| 0 <= i < r.len() ==> self.allocated(#[trigger] r@[i]) && self.position(r@[i]) == i,
                decreases n - t,
            {
                let k = match family {
                    0 => VarKind::Import(t),
                    1 => VarKind::Export(t),
                    2 => VarKind::Charge(t),
                    3 => VarKind::Discharge(t),
                    4 => VarKind::Curtailment(t),
                    5 => VarKind::LoadShedding(t),
                    6 => VarKind::ImportBreach(t),
                    7 => VarKind::RampUp(t),
                    8 => VarKind::RampDown(t),
                    9 => VarKind::HeaterOn(t),
                    _ => VarKind::HeaterStart(t),
                };
                assert(family * n + t < 11 * n) by (nonlinear_arith)
                    requires family < 11, t < n;
                r.push(k);
                t = t + 1;
            }
            assert((family + 1) * n == family * n + n) by (nonlinear_arith);
            family = family + 1;
        }
        let mut b: usize = 0;
        while b <= n
            invariant
                self.wf(),
                n == self.slots,
                b <= n + 1,
                r.len() == self.slot_block() + b,
                forall|i: int| 0 <= i < r.len() ==> self.allocated(#[trigger] r@[i]) && self.position(r@[i]) == i,
            decreases n + 1 - b,
        {
            r.push(VarKind::Soc(b));
            b = b + 1;
        }
        let mut b: usize = 0;
        while b <= n
            invariant
                self.wf(),
                n == self.slots,
                b <= n + 1,
                r.len() == self.slot_block() + n + 1 + b,
                forall|i: int| 0 <= i < r.len() ==> self.allocated(#[trigger] r@[i]) && self.position(r@[i]) == i,
            decreases n + 1 - b,
        {
            r.push(VarKind::SocShortfall(b));
            b = b + 1;
        }
        r.push(VarKind::TargetUnder);
        r.push(VarKind::TargetOver);
        let mut w: usize = 0;
        while w < self.gap_windows
            invariant
                self.wf(),
                n == self.slots,
                w <= self.gap_windows,
                r.len() == self.slot_block() + 2 * n + 4 + w,
                forall|i: int| 0 <= i < r.len() ==> self.allocated(#[trigger] r@[i]) && self.position(r@[i]) == i,
            decreases self.gap_windows - w,
        {
            r.push(VarKind::GapMiss(w));
            w = w + 1;
        }
        let mut w: usize = 0;
        while w < self.wide_gap_windows
            invariant
                self.wf(),
                n == self.slots,
                w <= self.wide_gap_windows,
                r.len() == self.slot_block() + 2 * n + 4 + self.gap_windows + w,
                forall|i: int| 0 <= i < r.len() ==> self.allocated(#[trigger] r@[i]) && self.position(r@[i]) == i,
            decreases self.wide_gap_windows - w,
        {
            r.push(VarKind::WideGapMiss(w));
            w = w + 1;
        }
        r
    }
}

/// Distinct allocated kinds stand at distinct positions.
pub proof fn lemma_positions_distinct(s: Shape, a: VarKind, b: VarKind)
    requires
        s.wf(),
        s.allocated(a),
        s.allocated(b),
        a != b,
    ensures
        s.position(a) != s.position(b),
        0 <= s.position(a) < s.var_count(),
{
}

} // verus!
