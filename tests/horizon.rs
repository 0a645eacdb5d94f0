use kepler::horizon::{day_of, group_days, slot_seconds, HorizonError, SlotTimes};

const DAY: i64 = 86400;
const HOUR: i64 = 3600;

fn hourly(start: i64, n: usize) -> Vec<SlotTimes> {
    (0..n as i64)
        .map(|k| SlotTimes { start: start + k * HOUR, end: start + (k + 1) * HOUR })
        .collect()
}

#[test]
fn uniform_slots_give_their_length() {
    let slots: Vec<SlotTimes> = (0..4)
        .map(|k| SlotTimes { start: k * 900, end: (k + 1) * 900 })
        .collect();
    assert_eq!(slot_seconds(&slots), Ok(900));
}

#[test]
fn degenerate_first_slot_is_rejected() {
    let slots = vec![SlotTimes { start: 100, end: 100 }, SlotTimes { start: 100, end: 200 }];
    assert_eq!(slot_seconds(&slots), Err(HorizonError::DegenerateSlot));
    let backwards = vec![SlotTimes { start: 200, end: 100 }];
    assert_eq!(slot_seconds(&backwards), Err(HorizonError::DegenerateSlot));
}

#[test]
fn uneven_slots_are_rejected() {
    let slots = vec![
        SlotTimes { start: 0, end: 900 },
        SlotTimes { start: 900, end: 1800 },
        SlotTimes { start: 1800, end: 3600 },
    ];
    assert_eq!(slot_seconds(&slots), Err(HorizonError::UnevenSlots));
}

#[test]
fn day_of_follows_utc_days() {
    assert_eq!(day_of(0, 0), 0);
    assert_eq!(day_of(DAY - 1, 0), 0);
    assert_eq!(day_of(DAY, 0), 1);
    assert_eq!(day_of(-1, 0), -1);
    assert_eq!(day_of(-DAY, 0), -1);
    assert_eq!(day_of(-DAY - 1, 0), -2);
    // 2024-01-02T00:00:00Z is day 19724.
    assert_eq!(day_of(1_704_153_600, 0), 19724);
}

#[test]
fn day_of_defers_early_hours() {
    let jan2 = 1_704_153_600;
    assert_eq!(day_of(jan2 + 3 * HOUR, 4), 19723);
    assert_eq!(day_of(jan2 + 3 * HOUR + 3599, 4), 19723);
    assert_eq!(day_of(jan2 + 4 * HOUR, 4), 19724);
    assert_eq!(day_of(jan2 + 3 * HOUR, 0), 19724);
    assert_eq!(day_of(jan2 + 23 * HOUR, 24), 19723);
    assert_eq!(day_of(i64::MIN, 0), -106751991167301);
    assert_eq!(day_of(i64::MAX, 0), 106751991167300);
}

#[test]
fn group_days_splits_at_midnight() {
    let slots = hourly(DAY - 2 * HOUR, 4);
    let groups = group_days(&slots, 0);
    assert_eq!(groups.len(), 2);
    assert_eq!(groups[0].day, 0);
    assert_eq!(groups[0].slots, vec![0, 1]);
    assert_eq!(groups[1].day, 1);
    assert_eq!(groups[1].slots, vec![2, 3]);
}

#[test]
fn group_days_moves_deferred_hours_back() {
    let slots = hourly(DAY - 2 * HOUR, 8);
    let groups = group_days(&slots, 3);
    assert_eq!(groups.len(), 2);
    assert_eq!(groups[0].day, 0);
    assert_eq!(groups[0].slots, vec![0, 1, 2, 3, 4]);
    assert_eq!(groups[1].day, 1);
    assert_eq!(groups[1].slots, vec![5, 6, 7]);
}

#[test]
fn group_days_orders_days_whatever_the_slot_order() {
    let slots = vec![
        SlotTimes { start: 2 * DAY, end: 2 * DAY + HOUR },
        SlotTimes { start: 0, end: HOUR },
        SlotTimes { start: 2 * DAY + HOUR, end: 2 * DAY + 2 * HOUR },
    ];
    let groups = group_days(&slots, 0);
    assert_eq!(groups.len(), 2);
    assert_eq!(groups[0].day, 0);
    assert_eq!(groups[0].slots, vec![1]);
    assert_eq!(groups[1].day, 2);
    assert_eq!(groups[1].slots, vec![0, 2]);
}

#[test]
fn group_days_of_empty_horizon_is_empty() {
    assert!(group_days(&Vec::new(), 4).is_empty());
}

#[test]
fn widest_slot_length_fits() {
    let slots = vec![SlotTimes { start: i64::MIN, end: i64::MAX }];
    assert_eq!(slot_seconds(&slots), Ok(u64::MAX));
}
