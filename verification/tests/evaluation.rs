use lunaluz_schedules::schedules::{
    midnight, ConstantSchedule, PeriodicSchedule, Schedule, VarSchedule,
};
use serde_json::Value;

fn sval(s: &str) -> Value {
    Value::String(s.to_string())
}

fn periodic(
    start: i64,
    period: i64,
    times: Vec<i64>,
    values: Vec<&str>,
    default: &str,
) -> PeriodicSchedule {
    PeriodicSchedule::new(
        "type".to_string(),
        start,
        period,
        times,
        values.into_iter().map(sval).collect(),
        sval(default),
    )
    .expect("schedule should resolve")
}

const HOUR: i64 = 3_600_000;

// Anchor 2025-05-23T00:00:00Z, period 24 h, breakpoints 0/6/12/18 h.
const ANCHOR: i64 = 1_747_958_400_000;

fn day_schedule() -> PeriodicSchedule {
    periodic(
        ANCHOR,
        24 * HOUR,
        vec![0, 6 * HOUR, 12 * HOUR, 18 * HOUR],
        vec!["off", "low", "high", "low"],
        "off",
    )
}

#[test]
fn floor_within_first_cycle() {
    let s = day_schedule();
    // 2025-05-23T05:00:00Z is between the 0 h and 6 h breakpoints
    assert_eq!(s.floor_search(1_747_976_400_000), sval("off"));
    assert_eq!(s.floor_search(ANCHOR), sval("off"));
    assert_eq!(s.floor_search(ANCHOR + 6 * HOUR), sval("low"));
    assert_eq!(s.floor_search(ANCHOR + 6 * HOUR - 1), sval("off"));
    assert_eq!(s.floor_search(ANCHOR + 23 * HOUR), sval("low"));
}

#[test]
fn floor_in_later_cycle() {
    let s = day_schedule();
    // 2025-05-24T13:00:00Z falls in the 12 h..18 h band of the next day
    assert_eq!(s.floor_search(1_748_091_600_000), sval("high"));
}

#[test]
fn pre_anchor_returns_default() {
    let s = day_schedule();
    // 2025-05-22T23:00:00Z precedes the anchor
    assert_eq!(s.floor_search(1_747_954_800_000), sval("off"));
    assert_eq!(s.floor_search(ANCHOR - 1), sval("off"));
    assert_eq!(s.floor_search(i64::MIN), sval("off"));
}

#[test]
fn six_hour_cycle_repeats() {
    // Period 6 h, breakpoints 0 h and 3 h, values "A" and "B", anchor T0
    let t0: i64 = 1_000_000_000_000;
    let s = periodic(t0, 6 * HOUR, vec![0, 3 * HOUR], vec!["A", "B"], "Z");
    assert_eq!(s.floor_search(t0 + 2 * HOUR), sval("A"));
    assert_eq!(s.floor_search(t0 + 4 * HOUR), sval("B"));
    assert_eq!(s.floor_search(t0 + 6 * HOUR), sval("A"));
}

#[test]
fn periodicity_across_many_cycles() {
    let s = day_schedule();
    for hours in [0i64, 5, 7, 13, 19, 23] {
        let t = ANCHOR + hours * HOUR;
        let day = 24 * HOUR;
        for k in [1i64, 2, 30, 365, 10_000] {
            assert_eq!(s.floor_search(t), s.floor_search(t + k * day));
        }
    }
}

#[test]
fn batch_matches_pointwise_evaluation() {
    let s = day_schedule();
    let times: Vec<i64> = vec![
        ANCHOR - 5 * HOUR,
        ANCHOR,
        ANCHOR + 7 * HOUR,
        ANCHOR + 13 * HOUR,
        ANCHOR + 48 * HOUR + 1,
        ANCHOR + 5 * HOUR,  // out of order on purpose
    ];
    let batch = s.floor_multi_search(&times);
    assert_eq!(batch.len(), times.len());
    for (i, t) in times.iter().enumerate() {
        assert_eq!(batch[i], s.floor_search(*t));
    }
}

#[test]
fn constant_schedule_ignores_time() {
    let c = ConstantSchedule::new("type".to_string(), sval("fixed"));
    assert_eq!(c.floor_search(i64::MIN), sval("fixed"));
    assert_eq!(c.floor_search(0), sval("fixed"));
    assert_eq!(c.floor_search(i64::MAX), sval("fixed"));
    let batch = c.floor_multi_search(&[i64::MIN, -1, 0, 1, i64::MAX]);
    assert_eq!(batch, vec![sval("fixed"); 5]);
}

#[test]
fn schedule_enum_dispatches() {
    let s = Schedule::Periodic(day_schedule());
    assert_eq!(s.floor_search(ANCHOR + 13 * HOUR), sval("high"));
    assert_eq!(s.var_type(), "type".to_string());
    let c = Schedule::Constant(ConstantSchedule::new("other".to_string(), sval("x")));
    assert_eq!(c.floor_search(ANCHOR), sval("x"));
    assert_eq!(c.var_type(), "other".to_string());
}

#[test]
fn empty_breakpoints_always_default() {
    let s = periodic(0, HOUR, vec![], vec![], "d");
    assert_eq!(s.floor_search(-1), sval("d"));
    assert_eq!(s.floor_search(0), sval("d"));
    assert_eq!(s.floor_search(123_456_789), sval("d"));
}

#[test]
fn most_recent_start_floors_to_cycle() {
    let s = day_schedule();
    assert_eq!(s.most_recent_start(ANCHOR), ANCHOR);
    assert_eq!(s.most_recent_start(ANCHOR + 1), ANCHOR);
    assert_eq!(s.most_recent_start(ANCHOR + 24 * HOUR), ANCHOR + 24 * HOUR);
    assert_eq!(s.most_recent_start(ANCHOR + 49 * HOUR), ANCHOR + 48 * HOUR);
    assert_eq!(s.fetch_schedule_point(ANCHOR + 49 * HOUR), HOUR);
    assert_eq!(s.fetch_schedule_point(ANCHOR + 24 * HOUR), 0);
}

#[test]
fn sub_day_period_with_offset_times() {
    // A 90-minute cycle: breakpoints at 0 and 60 minutes
    let t0: i64 = 77_777;
    let s = periodic(t0, 90 * 60_000, vec![0, 60 * 60_000], vec!["p", "q"], "d");
    assert_eq!(s.floor_search(t0 + 59 * 60_000), sval("p"));
    assert_eq!(s.floor_search(t0 + 60 * 60_000), sval("q"));
    assert_eq!(s.floor_search(t0 + 90 * 60_000), sval("p"));
    assert_eq!(s.floor_search(t0 + 150 * 60_000), sval("q"));
}

#[test]
fn midnight_floors_to_day_start() {
    // 2025-05-23T12:34:56Z floors to 2025-05-23T00:00:00Z
    assert_eq!(midnight(1_748_003_696_000), 1_747_958_400_000);
    assert_eq!(midnight(1_747_958_400_000), 1_747_958_400_000);
    assert_eq!(midnight(0), 0);
    assert_eq!(midnight(-1), -86_400_000);
    assert_eq!(midnight(86_399_999), 0);
}
