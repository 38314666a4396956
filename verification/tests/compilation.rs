use lunaluz_schedules::lunaluz::{
    EntryFault, LunaLuz, ScheduleEntry, ScheduleHeader, ScheduleInfo, ScheduleParents,
    ScheduleType, VarDataType, VariableTypeSpec,
};
use lunaluz_schedules::schedules::{
    compile, parse_schedules, CompileError, ExperimentMetadata, Schedule, VarSchedule,
};
use serde_json::Value;

const HOUR: i64 = 3_600_000;

fn jval(s: &str) -> Value {
    Value::String(s.to_string())
}

fn spec_of(default: &str) -> VariableTypeSpec {
    VariableTypeSpec {
        var_type: VarDataType::Nominal,
        default: jval(default),
        description: "a test variable type".to_string(),
        categories: None,
    }
}

fn header(var_type: &str) -> ScheduleHeader {
    ScheduleHeader { variable_type: var_type.to_string(), schedule_type: None }
}

fn bare_entry(var_type: &str) -> ScheduleEntry {
    ScheduleEntry {
        header: header(var_type),
        value: None,
        period: None,
        times: None,
        values: None,
        offset_time: None,
    }
}

fn periodic_entry(var_type: &str, period: i64, times: Vec<i64>, values: Vec<&str>) -> ScheduleEntry {
    ScheduleEntry {
        header: header(var_type),
        value: None,
        period: Some(period),
        times: Some(times),
        values: Some(values.into_iter().map(jval).collect()),
        offset_time: None,
    }
}

fn meta(start_date: i64) -> ExperimentMetadata {
    ExperimentMetadata { start_date, timezone: 0, start_offset: 0 }
}

fn one_spec(default: &str) -> Vec<(String, VariableTypeSpec)> {
    vec![("led".to_string(), spec_of(default))]
}

#[test]
fn constant_entry_compiles_to_its_value() {
    let mut e = bare_entry("led");
    e.value = Some(jval("bright"));
    let entries = vec![("lamp".to_string(), e)];
    let m = compile(entries, &one_spec("off"), &meta(0)).expect("compiles");
    let s = m.get(&"lamp".to_string()).expect("present");
    assert_eq!(s.floor_search(0), jval("bright"));
    assert_eq!(s.floor_search(i64::MAX), jval("bright"));
    assert_eq!(s.var_type(), "led".to_string());
}

#[test]
fn default_entry_uses_type_default() {
    let entries = vec![("lamp".to_string(), bare_entry("led"))];
    let m = compile(entries, &one_spec("dim"), &meta(0)).expect("compiles");
    let s = m.get(&"lamp".to_string()).expect("present");
    assert_eq!(s.floor_search(12345), jval("dim"));
}

#[test]
fn periodic_entry_anchors_at_start_date() {
    let start: i64 = 5_000_000;
    let e = periodic_entry("led", 6 * HOUR, vec![0, 3 * HOUR], vec!["A", "B"]);
    let entries = vec![("lamp".to_string(), e)];
    let m = compile(entries, &one_spec("Z"), &meta(start)).expect("compiles");
    let s = m.get(&"lamp".to_string()).expect("present");
    assert_eq!(s.floor_search(start - 1), jval("Z"));
    assert_eq!(s.floor_search(start + 2 * HOUR), jval("A"));
    assert_eq!(s.floor_search(start + 4 * HOUR), jval("B"));
    assert_eq!(s.floor_search(start + 6 * HOUR), jval("A"));
}

#[test]
fn offset_time_shifts_non_t24_anchor() {
    let start: i64 = 1_000_000;
    let mut e = periodic_entry("led", 6 * HOUR, vec![0], vec!["on"]);
    e.offset_time = Some(2 * HOUR);
    let entries = vec![("lamp".to_string(), e)];
    let m = compile(entries, &one_spec("off"), &meta(start)).expect("compiles");
    let s = m.get(&"lamp".to_string()).expect("present");
    assert_eq!(s.floor_search(start + 2 * HOUR - 1), jval("off"));
    assert_eq!(s.floor_search(start + 2 * HOUR), jval("on"));
}

#[test]
fn t24_offset_time_is_rejected() {
    let mut e = periodic_entry("led", 24 * HOUR, vec![0], vec!["on"]);
    e.offset_time = Some(HOUR);
    let entries = vec![("lamp".to_string(), e)];
    let err = compile(entries, &one_spec("off"), &meta(0)).unwrap_err();
    assert!(matches!(err, CompileError::InvalidOffsetForT24(n) if n == "lamp"));
}

#[test]
fn unsorted_breakpoints_are_rejected() {
    let e = periodic_entry("led", 24 * HOUR, vec![6 * HOUR, 0], vec!["a", "b"]);
    let entries = vec![("lamp".to_string(), e)];
    let err = compile(entries, &one_spec("off"), &meta(0)).unwrap_err();
    assert!(matches!(err, CompileError::UnsortedBreakpoints(n) if n == "lamp"));
}

#[test]
fn equal_breakpoints_are_rejected() {
    let e = periodic_entry("led", 24 * HOUR, vec![0, 0], vec!["a", "b"]);
    let entries = vec![("lamp".to_string(), e)];
    let err = compile(entries, &one_spec("off"), &meta(0)).unwrap_err();
    assert!(matches!(err, CompileError::UnsortedBreakpoints(_)));
}

#[test]
fn length_mismatch_is_rejected() {
    let e = periodic_entry("led", 24 * HOUR, vec![0, HOUR], vec!["a"]);
    let entries = vec![("lamp".to_string(), e)];
    let err = compile(entries, &one_spec("off"), &meta(0)).unwrap_err();
    assert!(matches!(err, CompileError::LengthMismatch(n) if n == "lamp"));
}

#[test]
fn nonpositive_period_is_rejected() {
    for period in [0i64, -HOUR] {
        let e = periodic_entry("led", period, vec![0], vec!["a"]);
        let entries = vec![("lamp".to_string(), e)];
        let err = compile(entries, &one_spec("off"), &meta(0)).unwrap_err();
        assert!(matches!(err, CompileError::InvalidDuration(_)));
    }
}

#[test]
fn negative_breakpoint_is_rejected() {
    let e = periodic_entry("led", 24 * HOUR, vec![-1, 0], vec!["a", "b"]);
    let entries = vec![("lamp".to_string(), e)];
    let err = compile(entries, &one_spec("off"), &meta(0)).unwrap_err();
    assert!(matches!(err, CompileError::InvalidDuration(_)));
}

#[test]
fn negative_offset_time_is_rejected() {
    let mut e = periodic_entry("led", 6 * HOUR, vec![0], vec!["a"]);
    e.offset_time = Some(-1);
    let entries = vec![("lamp".to_string(), e)];
    let err = compile(entries, &one_spec("off"), &meta(0)).unwrap_err();
    assert!(matches!(err, CompileError::InvalidDuration(_)));
}

#[test]
fn unknown_variable_type_is_rejected() {
    let entries = vec![("lamp".to_string(), bare_entry("heater"))];
    let err = compile(entries, &one_spec("off"), &meta(0)).unwrap_err();
    assert!(matches!(err, CompileError::UnknownVariableType(n) if n == "lamp"));
}

#[test]
fn malformed_field_combination_is_rejected() {
    // value together with period/times/values matches no kind
    let mut e = periodic_entry("led", 6 * HOUR, vec![0], vec!["a"]);
    e.value = Some(jval("x"));
    let entries = vec![("lamp".to_string(), e)];
    let err = compile(entries, &one_spec("off"), &meta(0)).unwrap_err();
    assert!(matches!(err, CompileError::MalformedEntry(n) if n == "lamp"));
}

#[test]
fn declared_kind_must_match_inferred() {
    let mut e = bare_entry("led");
    e.value = Some(jval("x"));
    e.header.schedule_type = Some(ScheduleType::Periodic);
    let entries = vec![("lamp".to_string(), e)];
    let err = compile(entries, &one_spec("off"), &meta(0)).unwrap_err();
    assert!(matches!(
        err,
        CompileError::KindMismatch {
            declared: ScheduleType::Periodic,
            inferred: ScheduleType::Constant,
            ..
        }
    ));
}

#[test]
fn matching_declared_kind_is_accepted() {
    let mut e = bare_entry("led");
    e.value = Some(jval("x"));
    e.header.schedule_type = Some(ScheduleType::Constant);
    let entries = vec![("lamp".to_string(), e)];
    assert!(compile(entries, &one_spec("off"), &meta(0)).is_ok());
}

#[test]
fn first_faulty_entry_aborts_compilation() {
    let good = bare_entry("led");
    let bad = bare_entry("heater");
    let entries = vec![
        ("a".to_string(), good.clone()),
        ("b".to_string(), bad),
        ("c".to_string(), good),
    ];
    let err = compile(entries, &one_spec("off"), &meta(0)).unwrap_err();
    assert!(matches!(err, CompileError::UnknownVariableType(n) if n == "b"));
}

#[test]
fn entry_validation_reports_fault() {
    let mut e = bare_entry("led");
    assert!(e.is_valid().is_ok());
    assert_eq!(e.schedule_type(), Some(ScheduleType::Default));
    e.value = Some(jval("x"));
    assert_eq!(e.schedule_type(), Some(ScheduleType::Constant));
    e.period = Some(HOUR);
    assert_eq!(e.schedule_type(), None);
    assert_eq!(e.is_valid(), Err(EntryFault::Malformed));
    assert_eq!(e.variable_type(), "led");
}

fn file_with(
    start_date: &str,
    timezone: i64,
    start_offset: &str,
    schedules: Vec<(String, ScheduleEntry)>,
) -> LunaLuz {
    LunaLuz {
        event_schedules: vec![],
        var_type_specs: vec![("led".to_string(), spec_of("off"))],
        variable_schedules: schedules,
        info: ScheduleInfo {
            version: "1".to_string(),
            timezone,
            start_date: start_date.to_string(),
            start_offset: start_offset.to_string(),
            experiment_name: "exp".to_string(),
            cabinet_id: "cab".to_string(),
            user: "someone".to_string(),
            description: "test file".to_string(),
            parents: ScheduleParents { primary: "root".to_string(), secondary: vec![] },
        },
    }
}

#[test]
fn t24_schedule_aligns_to_local_midnight_plus_offset() {
    // Start 2025-05-23T12:34:56Z, timezone +2 h, start offset 1.5 h:
    // local midnight of the start day is 2025-05-22T22:00:00Z in absolute
    // time; adding the offset gives 2025-05-22T23:30:00Z.
    let e = periodic_entry("led", 24 * HOUR, vec![0], vec!["on"]);
    let file = file_with("2025-05-23T12:34:56Z", 2, "PT1H30M", vec![("lamp".to_string(), e)]);
    let m = parse_schedules(file).expect("compiles");
    let s = m.get(&"lamp".to_string()).expect("present");
    let anchor: i64 = 1_747_956_600_000;
    assert_eq!(s.floor_search(anchor - 1), jval("off"));
    assert_eq!(s.floor_search(anchor), jval("on"));
    assert_eq!(s.floor_search(anchor + 36 * HOUR), jval("on"));
}

#[test]
fn non_t24_schedule_ignores_timezone() {
    // The timezone shifts only T24 schedules; a 6 h cycle anchors at the
    // start date itself.
    let start: i64 = 1_748_003_696_000;  // 2025-05-23T12:34:56Z
    let e = periodic_entry("led", 6 * HOUR, vec![0, 3 * HOUR], vec!["A", "B"]);
    let file = file_with("2025-05-23T12:34:56Z", 5, "PT0S", vec![("lamp".to_string(), e)]);
    let m = parse_schedules(file).expect("compiles");
    let s = m.get(&"lamp".to_string()).expect("present");
    assert_eq!(s.floor_search(start - 1), jval("off"));
    assert_eq!(s.floor_search(start + HOUR), jval("A"));
    assert_eq!(s.floor_search(start + 4 * HOUR), jval("B"));
}

#[test]
fn bad_start_date_is_rejected() {
    let file = file_with("yesterday-ish", 0, "PT0S", vec![]);
    let err = parse_schedules(file).unwrap_err();
    assert!(matches!(err, CompileError::InvalidStartDate(_)));
}

#[test]
fn bad_start_offset_is_rejected() {
    let file = file_with("2025-05-23T00:00:00Z", 0, "sixteen minutes", vec![]);
    let err = parse_schedules(file).unwrap_err();
    assert!(matches!(err, CompileError::InvalidDuration(_)));
}

#[test]
fn start_offset_with_months_is_rejected() {
    let file = file_with("2025-05-23T00:00:00Z", 0, "P2M", vec![]);
    let err = parse_schedules(file).unwrap_err();
    assert!(matches!(err, CompileError::InvalidDuration(_)));
}

#[test]
fn huge_timezone_makes_t24_anchor_unrepresentable() {
    let e = periodic_entry("led", 24 * HOUR, vec![0], vec!["on"]);
    let file = file_with(
        "2025-05-23T00:00:00Z",
        i64::MAX / HOUR,
        "PT0S",
        vec![("lamp".to_string(), e)],
    );
    let err = parse_schedules(file).unwrap_err();
    assert!(matches!(err, CompileError::TimeOutOfRange(n) if n == "lamp"));
}

#[test]
fn huge_offset_time_is_out_of_range() {
    let mut e = periodic_entry("led", 6 * HOUR, vec![0], vec!["on"]);
    e.offset_time = Some(i64::MAX);
    let entries = vec![("lamp".to_string(), e)];
    let err = compile(entries, &one_spec("off"), &meta(i64::MAX / 2)).unwrap_err();
    assert!(matches!(err, CompileError::TimeOutOfRange(_)));
}

#[test]
fn later_entry_replaces_earlier_name() {
    let mut a = bare_entry("led");
    a.value = Some(jval("first"));
    let mut b = bare_entry("led");
    b.value = Some(jval("second"));
    let entries = vec![("lamp".to_string(), a), ("lamp".to_string(), b)];
    let m = compile(entries, &one_spec("off"), &meta(0)).expect("compiles");
    assert_eq!(m.len(), 2);
    let s = m.get(&"lamp".to_string()).expect("present");
    assert_eq!(s.floor_search(0), jval("second"));
}

#[test]
fn whole_file_compiles_all_kinds() {
    let mut constant = bare_entry("led");
    constant.value = Some(jval("steady"));
    let entries = vec![
        ("c".to_string(), constant),
        ("d".to_string(), bare_entry("led")),
        (
            "p".to_string(),
            periodic_entry("led", 6 * HOUR, vec![0, 3 * HOUR], vec!["A", "B"]),
        ),
    ];
    let file = file_with("2025-05-23T00:00:00Z", 0, "PT0S", entries);
    let m = parse_schedules(file).expect("compiles");
    let start: i64 = 1_747_958_400_000;
    assert_eq!(m.get(&"c".to_string()).unwrap().floor_search(start), jval("steady"));
    assert_eq!(m.get(&"d".to_string()).unwrap().floor_search(start), jval("off"));
    assert_eq!(m.get(&"p".to_string()).unwrap().floor_search(start + 3 * HOUR), jval("B"));
    assert!(matches!(m.get(&"p".to_string()).unwrap(), Schedule::Periodic(_)));
    assert!(m.get(&"missing".to_string()).is_none());
}
