//! Slot timing: uniform slot length and the grouping of slots into accounting days.

use vstd::prelude::*;

verus! {

/// Seconds in one UTC day.
pub const SECONDS_PER_DAY: i64 = 86400;

/// Seconds in one hour.
pub const SECONDS_PER_HOUR: i64 = 3600;

/// The half-open interval `[start, end)` of one forecast slot, in seconds since
/// the Unix epoch.
#[derive(Clone, Copy, Debug, PartialEq, Eq, Structural)]
pub struct SlotTimes {
    pub start: i64,
    pub end: i64,
}

impl SlotTimes {
    pub open spec fn length(self) -> int {
        self.end - self.start
    }
}

/// Why a horizon cannot be turned into a program.
#[derive(Clone, Copy, Debug, PartialEq, Eq, Structural)]
pub enum HorizonError {
    /// The first slot ends no later than it starts.
    DegenerateSlot,
    /// Some slot's length differs from the first slot's.
    UnevenSlots,
}

/// Every slot is as long as the first one.
pub open spec fn uniform(slots: Seq<SlotTimes>) -> bool {
    forall|i: int| 0 <= i < slots.len() ==> #[trigger] slots[i].length() == slots[0].length()
}

/// The common slot length in seconds, checked over the whole horizon.
pub fn slot_seconds(slots: &Vec<SlotTimes>) -> (r: Result<u64, HorizonError>)
    requires
        slots.len() > 0,
    ensures
        r is Ok <==> slots@[0].length() > 0 && uniform(slots@),
        r is Ok ==> r->Ok_0 == slots@[0].length(),
        r == Err::<u64, HorizonError>(HorizonError::DegenerateSlot) <==> slots@[0].length() <= 0,
        r == Err::<u64, HorizonError>(HorizonError::UnevenSlots) <==> slots@[0].length() > 0
            && !uniform(slots@),
{
    let first: i128 = slots[0].end as i128 - slots[0].start as i128;
    if first <= 0 {
        return Err(HorizonError::DegenerateSlot);
    }
    let mut i: usize = 1;
    while i < slots.len()
        invariant
            1 <= i <= slots.len(),
            first > 0,
            first == slots@[0].length(),
            forall|j: int| 0 <= j < i ==> #[trigger] slots@[j].length() == first,
        decreases slots.len() - i,
    {
        let len: i128 = slots[i].end as i128 - slots[i].start as i128;
        if len != first {
            assert(slots@[i as int].length() != slots@[0].length());
            return Err(HorizonError::UnevenSlots);
        }
        i = i + 1;
    }
    Ok(first as u64)
}

/// The UTC day number (days since the epoch) of an instant.
pub open spec fn utc_day(s: int) -> int {
    s / SECONDS_PER_DAY as int
}

/// The UTC hour of day, 0 to 23, of an instant.
pub open spec fn utc_hour(s: int) -> int {
    (s % SECONDS_PER_DAY as int) / SECONDS_PER_HOUR as int
}

/// The day that a slot starting at `s` is accounted to: instants in the first
/// `defer_hours` hours of a UTC day count toward the previous day.
pub open spec fn accounting_day(s: int, defer_hours: int) -> int {
    if defer_hours > 0 && utc_hour(s) < defer_hours {
        utc_day(s) - 1
    } else {
        utc_day(s)
    }
}

/// A multiple of a day larger than any `i64` instant's distance from the epoch.
const EPOCH_SHIFT_DAYS: i128 = 106751991167301;

/// Computes `accounting_day`.
pub fn day_of(s: i64, defer_hours: u32) -> (r: i64)
    ensures
        r == accounting_day(s as int, defer_hours as int),
{
    let shifted: i128 = s as i128 + EPOCH_SHIFT_DAYS * (SECONDS_PER_DAY as i128);
    let day: i128 = shifted / (SECONDS_PER_DAY as i128) - EPOCH_SHIFT_DAYS;
    let hour: i128 = (shifted % (SECONDS_PER_DAY as i128)) / (SECONDS_PER_HOUR as i128);
    assert(day == utc_day(s as int));
    assert(hour == utc_hour(s as int));
    if defer_hours > 0 && hour < defer_hours as i128 {
        (day - 1) as i64
    } else {
        day as i64
    }
}

/// The slots accounted to one day, by index into the horizon, in ascending order.
#[derive(Debug)]
pub struct DayGroup {
    pub day: i64,
    pub slots: Vec<usize>,
}

/// The accounting day of slot `t`.
pub open spec fn slot_day(slots: Seq<SlotTimes>, defer_hours: u32, t: int) -> int {
    accounting_day(slots[t].start as int, defer_hours as int)
}

/// `groups` partitions the slots by accounting day: days strictly ascending,
/// members strictly ascending and accounted to their group's day, and every slot
/// in the group of its day.
pub open spec fn partitions_by_day(groups: Seq<DayGroup>, slots: Seq<SlotTimes>, defer_hours: u32) -> bool {
    &&& forall|g: int, h: int| 0 <= g < h < groups.len() ==> #[trigger] groups[g].day < #[trigger] groups[h].day
    &&& forall|g: int| 0 <= g < groups.len() ==> #[trigger] groups[g].slots@.len() > 0
    &&& forall|g: int, j: int, k: int|
        0 <= g < groups.len() && 0 <= j < k < groups[g].slots@.len() ==> #[trigger] groups[g].slots@[j]
            < #[trigger] groups[g].slots@[k]
    &&& forall|g: int, j: int|
        0 <= g < groups.len() && 0 <= j < groups[g].slots@.len() ==> {
            let t = #[trigger] groups[g].slots@[j];
            t < slots.len() && slot_day(slots, defer_hours, t as int) == groups[g].day
        }
    &&& forall|t: int| 0 <= t < slots.len() ==> #[trigger] in_group_of(groups, slot_day(slots, defer_hours, t), t)
}

/// Some group of `groups` is for `day` and holds slot `t`.
pub open spec fn in_group_of(groups: Seq<DayGroup>, day: int, t: int) -> bool {
    exists|g: int| 0 <= g < groups.len() && groups[g].day == day && #[trigger] groups[g].slots@.contains(t as usize)
}

/// The distinct accounting days of the horizon, ascending.
fn distinct_days(slots: &Vec<SlotTimes>, defer_hours: u32) -> (ds: Vec<i64>)
    ensures
        forall|a: int, b: int| 0 <= a < b < ds.len() ==> #[trigger] ds@[a] < #[trigger] ds@[b],
        forall|t: int| 0 <= t < slots.len() ==> ds@.contains(slot_day(slots@, defer_hours, t) as i64),
{
    let mut ds: Vec<i64> = Vec::new();
    let mut t: usize = 0;
    while t < slots.len()
        invariant
            t <= slots.len(),
            forall|a: int, b: int| 0 <= a < b < ds.len() ==> #[trigger] ds@[a] < #[trigger] ds@[b],
            forall|u: int| 0 <= u < t ==> ds@.contains(slot_day(slots@, defer_hours, u) as i64),
        decreases slots.len() - t,
    {
        let d = day_of(slots[t].start, defer_hours);
        let mut pos: usize = 0;
        while pos < ds.len() && ds[pos] < d
            invariant
                pos <= ds.len(),
                forall|a: int| 0 <= a < pos ==> #[trigger] ds@[a] < d,
            decreases ds.len() - pos,
        {
            pos = pos + 1;
        }
        if pos < ds.len() && ds[pos] == d {
            assert(ds@[pos as int] == d);
        } else {
            let ghost before = ds@;
            ds.insert(pos, d);
            assert(ds@[pos as int] == d);
            assert forall|u: int| 0 <= u < t implies ds@.contains(slot_day(slots@, defer_hours, u) as i64) by {
                let w = choose|k: int| 0 <= k < before.len() && before[k] == slot_day(slots@, defer_hours, u) as i64;
                if w < pos {
                    assert(ds@[w] == before[w]);
                } else {
                    assert(ds@[w + 1] == before[w]);
                }
            }
        }
        t = t + 1;
    }
    ds
}

/// Groups the slots by accounting day, days ascending.
pub fn group_days(slots: &Vec<SlotTimes>, defer_hours: u32) -> (groups: Vec<DayGroup>)
    ensures
        partitions_by_day(groups@, slots@, defer_hours),
{
    let ds = distinct_days(slots, defer_hours);
    let mut groups: Vec<DayGroup> = Vec::new();
    let mut k: usize = 0;
    while k < ds.len()
        invariant
            k <= ds.len(),
            forall|a: int, b: int| 0 <= a < b < ds.len() ==> #[trigger] ds@[a] < #[trigger] ds@[b],
            forall|t: int| 0 <= t < slots.len() ==> ds@.contains(slot_day(slots@, defer_hours, t) as i64),
            forall|g: int, h: int| 0 <= g < h < groups.len() ==> #[trigger] groups@[g].day < #[trigger] groups@[h].day,
            k < ds.len() ==> forall|g: int| 0 <= g < groups.len() ==> #[trigger] groups@[g].day < ds@[k as int],
            forall|g: int| 0 <= g < groups.len() ==> #[trigger] groups@[g].slots@.len() > 0,
            forall|g: int, j: int, m: int|
                0 <= g < groups.len() && 0 <= j < m < groups@[g].slots@.len() ==> #[trigger] groups@[g].slots@[j]
                    < #[trigger] groups@[g].slots@[m],
            forall|g: int, j: int|
                0 <= g < groups.len() && 0 <= j < groups@[g].slots@.len() ==> {
                    let t = #[trigger] groups@[g].slots@[j];
                    t < slots.len() && slot_day(slots@, defer_hours, t as int) == groups@[g].day
                },
            forall|t: int|
                0 <= t < slots.len() && ds@.subrange(0, k as int).contains(slot_day(slots@, defer_hours, t) as i64)
                    ==> #[trigger] in_group_of(groups@, slot_day(slots@, defer_hours, t), t),
        decreases ds.len() - k,
    {
        let d = ds[k];
        let mut members: Vec<usize> = Vec::new();
        let mut t: usize = 0;
        while t < slots.len()
            invariant
                t <= slots.len(),
                forall|j: int, m: int| 0 <= j < m < members.len() ==> #[trigger] members@[j] < #[trigger] members@[m],
                forall|j: int| 0 <= j < members.len() ==> #[trigger] members@[j] < t,
                forall|j: int|
                    0 <= j < members.len() ==> slot_day(slots@, defer_hours, #[trigger] members@[j] as int) == d,
                forall|u: int|
                    0 <= u < t && slot_day(slots@, defer_hours, u) == d ==> #[trigger] members@.contains(u as usize),
            decreases slots.len() - t,
        {
            let ghost prior = members@;
            if day_of(slots[t].start, defer_hours) == d {
                members.push(t);
                assert(members@[members.len() - 1] == t);
                assert forall|u: int| 0 <= u < t && prior.contains(u as usize) implies #[trigger] members@.contains(u as usize) by {
                    let j = choose|j: int| 0 <= j < prior.len() && prior[j] == u as usize;
                    assert(members@[j] == prior[j]);
                }
            }
            t = t + 1;
        }
        let ghost before = groups@;
        if members.len() > 0 {
            groups.push(DayGroup { day: d, slots: members });
            assert(groups@[groups.len() - 1].day == d);
        }
        assert forall|u: int|
            0 <= u < slots.len() && ds@.subrange(0, k + 1).contains(slot_day(slots@, defer_hours, u) as i64)
                implies #[trigger] in_group_of(groups@, slot_day(slots@, defer_hours, u), u) by {
            let a = choose|a: int| 0 <= a < k + 1 && #[trigger] ds@.subrange(0, k + 1)[a] == slot_day(slots@, defer_hours, u) as i64;
            if a < k {
                assert(ds@.subrange(0, k as int)[a] == ds@[a]);
                assert(in_group_of(before, slot_day(slots@, defer_hours, u), u));
                let g = choose|g: int|
                    0 <= g < before.len() && before[g].day == slot_day(slots@, defer_hours, u)
                        && #[trigger] before[g].slots@.contains(u as usize);
                assert(groups@[g] == before[g]);
            } else {
                assert(members@.contains(u as usize));
                assert(groups@[groups.len() - 1].slots@.contains(u as usize));
            }
        }
        k = k + 1;
    }
    assert forall|t: int| 0 <= t < slots.len() implies #[trigger] in_group_of(groups@, slot_day(slots@, defer_hours, t), t) by {
        assert(ds@.subrange(0, ds.len() as int) =~= ds@);
    }
    groups
}

} // verus!
