//! From a horizon and options to the program to solve.

use vstd::prelude::*;
use crate::horizon::{group_days, partitions_by_day, slot_seconds, uniform, HorizonError, SlotTimes};
use crate::layout::{max_slots, shape_of, Shape};
use crate::options::Options;
use crate::program::{build_model, program_objective, program_rows, rows_view, Model};

verus! {

/// What a horizon asks of the solver.
#[derive(Debug)]
pub enum Plan {
    /// An empty horizon: nothing to solve; the schedule is empty, costs nothing
    /// and is optimal.
    Empty,
    /// The program whose optimum is the schedule.
    Program(Model),
}

/// The program for a horizon of slots under `o`.
pub fn plan(slots: &Vec<SlotTimes>, o: &Options) -> (r: Result<Plan, HorizonError>)
    requires
        o.wf(),
        slots.len() <= max_slots(),
    ensures
        slots.len() == 0 ==> r matches Ok(Plan::Empty),
        slots.len() > 0 ==> {
            &&& (r matches Ok(Plan::Program(_))) <==> slots@[0].length() > 0 && uniform(slots@)
            &&& r == Err::<Plan, HorizonError>(HorizonError::DegenerateSlot) <==> slots@[0].length() <= 0
            &&& r == Err::<Plan, HorizonError>(HorizonError::UnevenSlots) <==> slots@[0].length() > 0
                && !uniform(slots@)
        },
        r matches Ok(Plan::Program(m)) ==> {
            &&& m.shape == shape_of(*o, slots.len() as int, slots@[0].length())
            &&& partitions_by_day(m.days@, slots@, o.defer_hours)
            &&& m.objective@ == program_objective(m.shape, *o)
            &&& rows_view(m.rows@) == program_rows(m.shape, *o, m.days@)
        },
{
    if slots.len() == 0 {
        return Ok(Plan::Empty);
    }
    let seconds = match slot_seconds(slots) {
        Ok(d) => d,
        Err(e) => return Err(e),
    };
    let shape = Shape::new(o, slots.len(), seconds);
    let days = group_days(slots, o.defer_hours);
    let model = build_model(&shape, o, days);
    Ok(Plan::Program(model))
}

} // verus!
