//! Resolved schedules and their evaluation, and the compiler that produces
//! them from a timetable document.
//!
//! Instants are milliseconds since the Unix epoch (UTC); durations are
//! milliseconds. A periodic schedule is anchored at an absolute instant; the
//! value in force at a query instant is the value of the latest breakpoint at
//! or before that instant within the current cycle, or the default value if no
//! breakpoint has yet occurred (or the query precedes the anchor).

use vstd::arithmetic::div_mod::{
    lemma_fundamental_div_mod, lemma_mod_decreases, lemma_mod_division_less_than_divisor,
    lemma_mod_multiples_basic, lemma_mod_multiples_vanish,
};
use vstd::prelude::*;

use crate::lunaluz::{EntryFault, ScheduleEntry, ScheduleType, VariableTypeSpec, LunaLuz, T24_PERIOD_MS};

verus! {

/// Milliseconds in one UTC day.
pub const DAY_MS: i64 = 86_400_000;

/// The largest instant (in milliseconds since the epoch) the compiler accepts
/// when aligning a T24 schedule to local midnight. Generous: it covers every
/// calendar date a timetable can express.
pub const MAX_INSTANT: i64 = 8_640_000_000_000_000;

/// The smallest instant the compiler accepts when aligning to local midnight.
pub const MIN_INSTANT: i64 = -8_640_000_000_000_000;

/// The instant at which the UTC day containing `t` starts: the greatest
/// multiple of `DAY_MS` that does not exceed `t`.
pub open spec fn spec_midnight(t: int) -> int {
    t - t % (DAY_MS as int)
}

/// Retrieve the instant for the very start of the day containing `t`.
pub fn midnight(t: i64) -> (r: i64)
    requires
        MIN_INSTANT <= t <= MAX_INSTANT,
    ensures
        r == spec_midnight(t as int),
        r % DAY_MS == 0,
        r <= t < r + DAY_MS,
{
    let rem = match t.checked_rem_euclid(DAY_MS) {
        Some(x) => x,
        None => unreached(),
    };
    t - rem
}

/// Milliseconds in one hour.
pub const HOUR_MS: i64 = 3_600_000;

/// What `chrono::DateTime::parse_from_rfc3339` yields for a string, reduced
/// to whole milliseconds since the Unix epoch: `Some` exactly when the string
/// is a valid RFC 3339 / ISO 8601 extended timestamp. A function of the
/// string alone.
pub uninterp spec fn rfc3339_ms(s: Seq<char>) -> Option<i64>;

/// What `chrono::NaiveDateTime::parse_from_str` yields for a string and a
/// format, taken as UTC and reduced to whole milliseconds since the Unix
/// epoch. A function of the string and format alone.
pub uninterp spec fn naive_fmt_ms(s: Seq<char>, fmt: Seq<char>) -> Option<i64>;

/// What an ISO 8601 duration string denotes, reduced to whole milliseconds:
/// `Some` exactly when `iso8601_duration::Duration::parse` accepts the string
/// and the parsed duration converts to a finite, non-negative, in-range
/// span of time. A function of the string alone.
pub uninterp spec fn iso_duration_ms(s: Seq<char>) -> Option<i64>;

/// Relies on `chrono::DateTime::parse_from_rfc3339`: parsing is a function of
/// the input string alone. The parsed instant is converted to UTC and
/// truncated to whole milliseconds; the error keeps chrono's message.
#[verifier::external_body]
fn parse_rfc3339_ms(input: &str) -> (r: Result<i64, String>)
    ensures
        r is Ok <==> rfc3339_ms(input@) is Some,
        r is Ok ==> rfc3339_ms(input@) == Some(r->Ok_0),
{
    chrono::DateTime::parse_from_rfc3339(input)
        .map(|dt| dt.with_timezone(&chrono::Utc).timestamp_millis())
        .map_err(|e| format!("Error parsing time: {e}"))
}

/// Relies on `chrono::NaiveDateTime::parse_from_str`: parsing is a function
/// of the string and format alone. The result is taken as UTC and truncated
/// to whole milliseconds.
#[verifier::external_body]
fn parse_naive_ms(input: &str, fmt: &str) -> (r: Option<i64>)
    ensures
        r == naive_fmt_ms(input@, fmt@),
{
    chrono::NaiveDateTime::parse_from_str(input, fmt)
        .ok()
        .map(|naive| naive.and_utc().timestamp_millis())
}

/// The instant a timestamp string denotes: RFC 3339 / ISO 8601 extended
/// first, then the known alternative ISO 8601-compatible patterns, in order.
pub open spec fn spec_parse_datetime(s: Seq<char>) -> Option<i64> {
    if rfc3339_ms(s) is Some {
        rfc3339_ms(s)
    } else if naive_fmt_ms(s, "%Y-%m-%dT%H%M%S"@) is Some {
        naive_fmt_ms(s, "%Y-%m-%dT%H%M%S"@)
    } else if naive_fmt_ms(s, "%Y-%m-%dT%H:%M:%S"@) is Some {
        naive_fmt_ms(s, "%Y-%m-%dT%H:%M:%S"@)
    } else if naive_fmt_ms(s, "%Y%m%dT%H%M%S"@) is Some {
        naive_fmt_ms(s, "%Y%m%dT%H%M%S"@)
    } else {
        None
    }
}

/// Parse a timestamp string into milliseconds since the Unix epoch:
/// RFC 3339 / ISO 8601 extended first, then the known alternative ISO
/// 8601-compatible patterns. When every pattern fails, the error from the
/// RFC 3339 attempt is returned.
pub fn parse_datetime_iso8601(input: &str) -> (r: Result<i64, String>)
    ensures
        r is Ok <==> spec_parse_datetime(input@) is Some,
        r is Ok ==> spec_parse_datetime(input@) == Some(r->Ok_0),
{
    // Attempt RFC 3339 / ISO 8601 extended first
    let rfc_err = match parse_rfc3339_ms(input) {
        Ok(ms) => {
            return Ok(ms);
        },
        Err(e) => e,
    };
    // Fallback to known alternative ISO 8601-compatible patterns
    if let Some(ms) = parse_naive_ms(input, "%Y-%m-%dT%H%M%S") {
        return Ok(ms);  // basic with dashes
    }
    if let Some(ms) = parse_naive_ms(input, "%Y-%m-%dT%H:%M:%S") {
        return Ok(ms);  // extended
    }
    if let Some(ms) = parse_naive_ms(input, "%Y%m%dT%H%M%S") {
        return Ok(ms);  // compact basic
    }
    // If all formats fail, return the error from the RFC 3339 attempt
    Err(rfc_err)
}

/// Relies on `iso8601_duration::Duration::parse` (through `str::parse`) and
/// `Duration::num_seconds`, on `std::time::Duration::try_from_secs_f32`, and
/// on `chrono::TimeDelta::from_std` and `TimeDelta::num_milliseconds`: each
/// is a function of its argument alone, and together they read a duration
/// string as whole milliseconds. `num_seconds` is `None` when the duration
/// holds year or month units; `try_from_secs_f32` rejects negative and
/// non-finite spans, so a successful result is non-negative; `from_std`
/// rejects spans beyond `TimeDelta`'s range, on which `num_milliseconds` is
/// total.
#[verifier::external_body]
fn parse_duration_iso8601(dur: &str) -> (r: Result<i64, String>)
    ensures
        r is Ok <==> iso_duration_ms(dur@) is Some,
        r is Ok ==> iso_duration_ms(dur@) == Some(r->Ok_0) && r->Ok_0 >= 0,
{
    let raw: iso8601_duration::Duration = dur.parse().map_err(
        |e| format!("Invalid time duration: {e:?}"),
    )?;
    let secs = raw.num_seconds().ok_or_else(
        || "Duration contains unsupported units (e.g. months, years)".to_string(),
    )?;
    let std_duration = std::time::Duration::try_from_secs_f32(secs).map_err(|e| e.to_string())?;
    chrono::TimeDelta::from_std(std_duration).map(|td| td.num_milliseconds()).map_err(
        |e| format!("Failed to convert std Duration to TimeDelta: {e}"),
    )
}

/// Breakpoints must be strictly ascending for the floor search to be
/// meaningful.
pub open spec fn strictly_ascending(times: Seq<i64>) -> bool {
    forall|i: int, j: int| 0 <= i < j < times.len() ==> times[i] < times[j]
}

/// The value in force at cycle offset `x`: the value of the latest breakpoint
/// at or before `x`, or `default_val` when `x` precedes every breakpoint.
pub open spec fn floor_value(
    times: Seq<i64>,
    values: Seq<serde_json::Value>,
    default_val: serde_json::Value,
    x: int,
) -> serde_json::Value
    recommends
        times.len() == values.len(),
    decreases times.len(),
{
    if times.len() == 0 {
        default_val
    } else if times[times.len() - 1] <= x {
        values[times.len() - 1]
    } else {
        floor_value(times.drop_last(), values.drop_last(), default_val, x)
    }
}

/// The index of the latest breakpoint at or before `x`, or `None` when `x`
/// precedes every breakpoint. A binary search: the one floor-lookup primitive
/// both point and batch evaluation go through.
fn floor_index(times: &Vec<i64>, x: i64) -> (r: Option<usize>)
    requires
        strictly_ascending(times@),
    ensures
        match r {
            None => times@.len() == 0 || x < times@[0],
            Some(i) => i < times@.len() && times@[i as int] <= x && (i + 1 < times@.len()
                ==> x < times@[i as int + 1]),
        },
{
    if times.len() == 0 || x < times[0] {
        return None;
    }
    let mut lo: usize = 0;
    let mut hi: usize = times.len() - 1;
    while lo < hi
        invariant
            lo <= hi < times@.len() <= usize::MAX,
            strictly_ascending(times@),
            times@[lo as int] <= x,
            hi + 1 < times@.len() ==> x < times@[hi as int + 1],
        decreases hi - lo,
    {
        let mid = lo + (hi - lo + 1) / 2;
        if times[mid] <= x {
            lo = mid;
        } else {
            hi = mid - 1;
        }
    }
    Some(lo)
}

/// When breakpoint `i` is the latest one at or before `x`, the floor value at
/// `x` is `values[i]`.
proof fn lemma_floor_value_hit(
    times: Seq<i64>,
    values: Seq<serde_json::Value>,
    default_val: serde_json::Value,
    x: int,
    i: int,
)
    requires
        strictly_ascending(times),
        times.len() == values.len(),
        0 <= i < times.len(),
        times[i] <= x,
        i + 1 < times.len() ==> x < times[i + 1],
    ensures
        floor_value(times, values, default_val, x) == values[i],
    decreases times.len(),
{
    if i + 1 < times.len() {
        assert(x < times[times.len() - 1]);
        lemma_floor_value_hit(times.drop_last(), values.drop_last(), default_val, x, i);
    }
}

/// When `x` precedes every breakpoint (or there is none), the floor value at
/// `x` is the default value.
proof fn lemma_floor_value_miss(
    times: Seq<i64>,
    values: Seq<serde_json::Value>,
    default_val: serde_json::Value,
    x: int,
)
    requires
        strictly_ascending(times),
        times.len() == values.len(),
        times.len() == 0 || x < times[0],
    ensures
        floor_value(times, values, default_val, x) == default_val,
    decreases times.len(),
{
    if times.len() > 0 {
        assert(x < times[times.len() - 1]);
        lemma_floor_value_miss(times.drop_last(), values.drop_last(), default_val, x);
    }
}

/// What every resolved schedule can answer: its variable type's name, the
/// value in force at an instant, and the values in force at a batch of
/// instants (defined as independent per-instant evaluation).
pub trait VarSchedule: Sized {
    /// The schedule's internal invariant.
    spec fn wf(&self) -> bool;

    /// The name of the variable type backing this schedule.
    spec fn spec_var_type(&self) -> Seq<char>;

    /// The value this schedule prescribes at instant `t`.
    spec fn spec_eval(&self, t: int) -> serde_json::Value;

    fn var_type(&self) -> (r: String)
        ensures
            r@ == self.spec_var_type(),
    ;

    fn floor_search(&self, time: i64) -> (r: serde_json::Value)
        requires
            self.wf(),
        ensures
            r == self.spec_eval(time as int),
    ;

    fn floor_multi_search(&self, times: &[i64]) -> (r: Vec<serde_json::Value>)
        requires
            self.wf(),
        ensures
            r@.len() == times@.len(),
            forall|i: int| 0 <= i < times@.len() ==> r@[i] == self.spec_eval(times@[i] as int),
    ;
}

/// A schedule that prescribes one fixed value at every instant.
#[derive(Debug)]
pub struct ConstantSchedule {
    pub var_type: String,
    pub value: serde_json::Value,
}

impl ConstantSchedule {
    pub fn new(var_type: String, value: serde_json::Value) -> (r: Self)
        ensures
            r.var_type == var_type,
            r.value == value,
    {
        Self { var_type, value }
    }
}

impl VarSchedule for ConstantSchedule {
    open spec fn wf(&self) -> bool {
        true
    }

    open spec fn spec_var_type(&self) -> Seq<char> {
        self.var_type@
    }

    open spec fn spec_eval(&self, t: int) -> serde_json::Value {
        self.value
    }

    fn var_type(&self) -> (r: String) {
        self.var_type.clone()
    }

    fn floor_search(&self, _time: i64) -> (r: serde_json::Value) {
        self.value.clone()
    }

    fn floor_multi_search(&self, times: &[i64]) -> (r: Vec<serde_json::Value>) {
        let mut out: Vec<serde_json::Value> = Vec::new();
        let n = times.len();
        let mut k: usize = 0;
        while k < n
            invariant
                k <= n,
                n == times@.len(),
                out@.len() == k,
                forall|i: int| 0 <= i < k ==> out@[i] == self.value,
            decreases n - k,
        {
            out.push(self.value.clone());
            k = k + 1;
        }
        out
    }
}

/// A schedule that repeats a cycle of breakpoints of length `period`,
/// anchored at `start_point`. `times` are the breakpoint offsets within the
/// cycle and `values` the values effective from each breakpoint on;
/// `default_val` is in force before the anchor and before the first breakpoint
/// of a cycle.
#[derive(Debug)]
pub struct PeriodicSchedule {
    pub var_type: String,
    pub start_point: i64,
    pub period: i64,
    pub times: Vec<i64>,
    pub values: Vec<serde_json::Value>,
    pub default_val: serde_json::Value,
}

/// A fault found while resolving a periodic schedule's breakpoints.
#[derive(Debug, Clone, Copy, PartialEq, Eq, Structural)]
pub enum ScheduleFault {
    /// A period or breakpoint is not a valid positive (resp. non-negative)
    /// duration.
    InvalidDuration,
    /// The breakpoint and value arrays differ in length.
    LengthMismatch,
    /// The breakpoints are not strictly ascending.
    UnsortedBreakpoints,
}

/// The first fault in a periodic schedule's raw data, if any: the breakpoint
/// and value arrays must have equal lengths, the breakpoints must be strictly
/// ascending, the period must be positive and the breakpoints non-negative.
pub open spec fn periodic_fault(period: i64, times: Seq<i64>, nvalues: nat) -> Option<
    ScheduleFault,
> {
    if times.len() != nvalues {
        Some(ScheduleFault::LengthMismatch)
    } else if !strictly_ascending(times) {
        Some(ScheduleFault::UnsortedBreakpoints)
    } else if period <= 0 || (times.len() > 0 && times[0] < 0) {
        Some(ScheduleFault::InvalidDuration)
    } else {
        None
    }
}

/// Whether `times` is strictly ascending, checked pairwise.
fn check_strictly_ascending(times: &Vec<i64>) -> (r: bool)
    ensures
        r == strictly_ascending(times@),
{
    let n = times.len();
    if n <= 1 {
        return true;
    }
    let mut i: usize = 1;
    while i < n
        invariant
            1 <= i <= n,
            n == times@.len(),
            forall|a: int, b: int| 0 <= a < b < i ==> times@[a] < times@[b],
        decreases n - i,
    {
        if times[i - 1] >= times[i] {
            assert(!strictly_ascending(times@)) by {
                assert(!(times@[i - 1] < times@[i as int]));
            }
            return false;
        }
        proof {
            assert forall|a: int, b: int| 0 <= a < b < i + 1 implies times@[a] < times@[b] by {
                if b == i && a < i - 1 {
                    assert(times@[a] < times@[i - 1]);
                }
            }
        }
        i = i + 1;
    }
    true
}

impl PeriodicSchedule {
    /// Resolve a periodic schedule from its raw parts, validating the
    /// breakpoint/value invariants: equal array lengths, strictly ascending
    /// breakpoints, a positive period and non-negative breakpoints.
    pub fn new(
        var_type: String,
        start_date: i64,
        period: i64,
        times: Vec<i64>,
        values: Vec<serde_json::Value>,
        default_val: serde_json::Value,
    ) -> (r: Result<Self, ScheduleFault>)
        ensures
            r is Ok <==> periodic_fault(period, times@, values@.len()) is None,
            r is Err ==> Some(r->Err_0) == periodic_fault(period, times@, values@.len()),
            r is Ok ==> ({
                let s = r->Ok_0;
                &&& s.var_type == var_type
                &&& s.start_point == start_date
                &&& s.period == period
                &&& s.times == times
                &&& s.values == values
                &&& s.default_val == default_val
                &&& s.wf()
            }),
    {
        if times.len() != values.len() {
            return Err(ScheduleFault::LengthMismatch);
        }
        if !check_strictly_ascending(&times) {
            return Err(ScheduleFault::UnsortedBreakpoints);
        }
        if period <= 0 || (times.len() > 0 && times[0] < 0) {
            return Err(ScheduleFault::InvalidDuration);
        }
        Ok(
            Self {
                var_type,
                start_point: start_date,
                period,
                times,
                values,
                default_val,
            },
        )
    }

    /// The offset of instant `t` within its cycle.
    pub open spec fn spec_cycle_offset(&self, t: int) -> int {
        (t - self.start_point) % (self.period as int)
    }

    /// The start of the cycle containing `time`: the greatest instant at or
    /// before `time` that is a whole number of periods after the anchor.
    pub fn most_recent_start(&self, time: i64) -> (r: i64)
        requires
            self.wf(),
            time >= self.start_point,
        ensures
            r == time - self.spec_cycle_offset(time as int),
            self.start_point <= r <= time < r + self.period,
            (r - self.start_point) % (self.period as int) == 0,
    {
        let elapsed: u128 = ((time as i128) - (self.start_point as i128)) as u128;
        let p: u128 = self.period as u128;
        let offset: u128 = elapsed % p;
        proof {
            lemma_mod_decreases(elapsed as nat, p as nat);
            lemma_fundamental_div_mod(elapsed as int, p as int);
            lemma_mod_multiples_basic(elapsed as int / p as int, p as int);
        }
        ((time as i128) - (offset as i128)) as i64
    }

    /// The offset of `time` within its cycle, in `[0, period)`.
    pub fn fetch_schedule_point(&self, time: i64) -> (r: i64)
        requires
            self.wf(),
            time >= self.start_point,
        ensures
            r == self.spec_cycle_offset(time as int),
            0 <= r < self.period,
    {
        let most_recent_start = self.most_recent_start(time);
        proof {
            lemma_mod_division_less_than_divisor(
                time - self.start_point,
                self.period as int,
            );
            lemma_mod_decreases((time - self.start_point) as nat, self.period as nat);
        }
        time - most_recent_start
    }
}

impl VarSchedule for PeriodicSchedule {
    open spec fn wf(&self) -> bool {
        &&& self.period > 0
        &&& strictly_ascending(self.times@)
        &&& self.times@.len() == self.values@.len()
    }

    open spec fn spec_var_type(&self) -> Seq<char> {
        self.var_type@
    }

    open spec fn spec_eval(&self, t: int) -> serde_json::Value {
        if t < self.start_point {
            self.default_val
        } else {
            floor_value(self.times@, self.values@, self.default_val, self.spec_cycle_offset(t))
        }
    }

    fn var_type(&self) -> (r: String) {
        self.var_type.clone()
    }

    fn floor_search(&self, time: i64) -> (r: serde_json::Value) {
        if time < self.start_point {
            self.default_val.clone()
        } else {
            let schedule_time = self.fetch_schedule_point(time);
            match floor_index(&self.times, schedule_time) {
                Some(index) => {
                    proof {
                        lemma_floor_value_hit(
                            self.times@,
                            self.values@,
                            self.default_val,
                            schedule_time as int,
                            index as int,
                        );
                    }
                    self.values[index].clone()
                },
                None => {
                    proof {
                        lemma_floor_value_miss(
                            self.times@,
                            self.values@,
                            self.default_val,
                            schedule_time as int,
                        );
                    }
                    self.default_val.clone()
                },
            }
        }
    }

    fn floor_multi_search(&self, times: &[i64]) -> (r: Vec<serde_json::Value>) {
        let mut out: Vec<serde_json::Value> = Vec::new();
        let n = times.len();
        let mut k: usize = 0;
        while k < n
            invariant
                k <= n,
                n == times@.len(),
                self.wf(),
                out@.len() == k,
                forall|i: int| 0 <= i < k ==> out@[i] == self.spec_eval(times@[i] as int),
            decreases n - k,
        {
            let v = self.floor_search(times[k]);
            out.push(v);
            k = k + 1;
        }
        out
    }
}

/// Floor correctness: at a cycle-relative offset `x`, the value in force is
/// the default when `x` precedes every breakpoint, and otherwise the value of
/// breakpoint `i` whenever `times[i] <= x` and `x` precedes breakpoint `i + 1`
/// (in particular, the last breakpoint's value whenever `x` is at or past it).
pub proof fn lemma_floor_correctness(
    times: Seq<i64>,
    values: Seq<serde_json::Value>,
    default_val: serde_json::Value,
    x: int,
)
    requires
        strictly_ascending(times),
        times.len() == values.len(),
    ensures
        (times.len() == 0 || x < times[0]) ==> floor_value(times, values, default_val, x)
            == default_val,
        forall|i: int|
            0 <= i < times.len() && times[i] <= x && (i + 1 == times.len() || x < times[i + 1])
                ==> floor_value(times, values, default_val, x) == values[i],
{
    if times.len() == 0 || x < times[0] {
        lemma_floor_value_miss(times, values, default_val, x);
    }
    assert forall|i: int|
        0 <= i < times.len() && times[i] <= x && (i + 1 == times.len() || x < times[i + 1])
        implies floor_value(times, values, default_val, x) == values[i] by {
        lemma_floor_value_hit(times, values, default_val, x, i);
    }
}

/// Pre-anchor fallback: before the anchor, a periodic schedule prescribes its
/// default value, regardless of its breakpoints.
pub proof fn lemma_pre_anchor_fallback(s: &PeriodicSchedule, t: int)
    requires
        t < s.start_point,
    ensures
        s.spec_eval(t) == s.default_val,
{
}

/// Periodicity: shifting the query instant by a whole number of periods does
/// not change the prescribed value, as long as both instants are at or after
/// the anchor.
pub proof fn lemma_periodicity(s: &PeriodicSchedule, t: int, k: int)
    requires
        s.wf(),
        t >= s.start_point,
        t + k * (s.period as int) >= s.start_point,
    ensures
        s.spec_eval(t + k * (s.period as int)) == s.spec_eval(t),
{
    let p = s.period as int;
    let a = t - s.start_point;
    lemma_mod_multiples_vanish(k, a, p);
    assert(k * p == p * k) by (nonlinear_arith);
    assert(t + k * p - s.start_point == p * k + a);
}

/// Constant invariance: a constant schedule prescribes the same value at
/// every instant, however far in the past or future.
pub proof fn lemma_constant_invariance(s: &ConstantSchedule, t1: int, t2: int)
    ensures
        s.spec_eval(t1) == s.spec_eval(t2),
{
}

/// A resolved schedule: either a fixed constant or a periodic cycle.
#[derive(Debug)]
pub enum Schedule {
    Constant(ConstantSchedule),
    Periodic(PeriodicSchedule),
}

impl VarSchedule for Schedule {
    open spec fn wf(&self) -> bool {
        match self {
            Schedule::Constant(c) => c.wf(),
            Schedule::Periodic(p) => p.wf(),
        }
    }

    open spec fn spec_var_type(&self) -> Seq<char> {
        match self {
            Schedule::Constant(c) => c.spec_var_type(),
            Schedule::Periodic(p) => p.spec_var_type(),
        }
    }

    open spec fn spec_eval(&self, t: int) -> serde_json::Value {
        match self {
            Schedule::Constant(c) => c.spec_eval(t),
            Schedule::Periodic(p) => p.spec_eval(t),
        }
    }

    fn var_type(&self) -> (r: String) {
        match self {
            Schedule::Constant(c) => c.var_type(),
            Schedule::Periodic(p) => p.var_type(),
        }
    }

    fn floor_search(&self, time: i64) -> (r: serde_json::Value) {
        match self {
            Schedule::Constant(c) => c.floor_search(time),
            Schedule::Periodic(p) => p.floor_search(time),
        }
    }

    fn floor_multi_search(&self, times: &[i64]) -> (r: Vec<serde_json::Value>) {
        match self {
            Schedule::Constant(c) => c.floor_multi_search(times),
            Schedule::Periodic(p) => p.floor_multi_search(times),
        }
    }
}

/// The map a sequence of name/schedule pairs denotes, later pairs overriding
/// earlier ones.
pub open spec fn pairs_to_map(s: Seq<(String, Schedule)>) -> Map<Seq<char>, Schedule>
    decreases s.len(),
{
    if s.len() == 0 {
        Map::empty()
    } else {
        pairs_to_map(s.drop_last()).insert(s.last().0@, s.last().1)
    }
}

/// Map from variable name to its resolved schedule. Insertion order is kept;
/// inserting an existing name replaces its schedule.
#[derive(Debug)]
pub struct ScheduleMap {
    pairs: Vec<(String, Schedule)>,
}

impl View for ScheduleMap {
    type V = Map<Seq<char>, Schedule>;

    closed spec fn view(&self) -> Map<Seq<char>, Schedule> {
        pairs_to_map(self.pairs@)
    }
}

impl ScheduleMap {
    /// The name/schedule pairs, in insertion order.
    pub closed spec fn spec_pairs(&self) -> Seq<(String, Schedule)> {
        self.pairs@
    }

    /// Every schedule held satisfies its internal invariant.
    pub open spec fn wf(&self) -> bool {
        forall|i: int|
            0 <= i < self.spec_pairs().len() ==> (#[trigger] self.spec_pairs()[i]).1.wf()
    }

    pub fn new() -> (r: Self)
        ensures
            r@ == Map::<Seq<char>, Schedule>::empty(),
            r.spec_pairs().len() == 0,
            r.wf(),
    {
        ScheduleMap { pairs: Vec::new() }
    }

    pub fn len(&self) -> (r: usize)
        ensures
            r == self.spec_pairs().len(),
    {
        self.pairs.len()
    }

    /// The `i`-th name/schedule pair, in insertion order.
    pub fn pair_at(&self, i: usize) -> (r: &(String, Schedule))
        requires
            i < self.spec_pairs().len(),
        ensures
            *r == self.spec_pairs()[i as int],
    {
        &self.pairs[i]
    }

    /// Insert a schedule under a name, replacing any schedule already held
    /// under it.
    pub fn insert(&mut self, name: String, schedule: Schedule)
        ensures
            final(self)@ == old(self)@.insert(name@, schedule),
            final(self).spec_pairs() == old(self).spec_pairs().push((name, schedule)),
    {
        let ghost t = (name, schedule);
        self.pairs.push((name, schedule));
        proof {
            assert(self.pairs@.drop_last() =~= old(self).pairs@);
            assert(self.pairs@.last() == t);
        }
    }

    /// Look up the schedule held under a name.
    pub fn get(&self, name: &String) -> (r: Option<&Schedule>)
        ensures
            match r {
                Some(s) => self@.dom().contains(name@) && *s == self@[name@] && (self.wf()
                    ==> s.wf()),
                None => !self@.dom().contains(name@),
            },
    {
        let n = self.pairs.len();
        proof {
            assert(self.pairs@.take(n as int) =~= self.pairs@);
        }
        let mut j: usize = n;
        while j > 0
            invariant
                j <= n,
                n == self.pairs@.len(),
                pairs_to_map(self.pairs@).dom().contains(name@) <==> pairs_to_map(
                    self.pairs@.take(j as int),
                ).dom().contains(name@),
                pairs_to_map(self.pairs@).dom().contains(name@) ==> pairs_to_map(
                    self.pairs@.take(j as int),
                )[name@] == pairs_to_map(self.pairs@)[name@],
            decreases j,
        {
            j = j - 1;
            proof {
                assert(self.pairs@.take(j + 1).drop_last() =~= self.pairs@.take(j as int));
                assert(self.pairs@.take(j + 1).last() == self.pairs@[j as int]);
            }
            if self.pairs[j].0 == *name {
                proof {
                    assert(self.wf() ==> (#[trigger] self.spec_pairs()[j as int]).1.wf());
                }
                return Some(&self.pairs[j].1);
            }
        }
        proof {
            assert(self.pairs@.take(0) =~= Seq::<(String, Schedule)>::empty());
        }
        None
    }

    /// Whether a schedule is held under this name.
    pub fn contains_key(&self, name: &String) -> (r: bool)
        ensures
            r == self@.dom().contains(name@),
    {
        self.get(name).is_some()
    }

    /// The held names, in insertion order.
    pub fn keys(&self) -> (r: Vec<String>)
        ensures
            r@.len() == self.spec_pairs().len(),
            forall|i: int| 0 <= i < r@.len() ==> r@[i]@ == self.spec_pairs()[i].0@,
    {
        let mut out: Vec<String> = Vec::new();
        let n = self.pairs.len();
        let mut k: usize = 0;
        while k < n
            invariant
                k <= n,
                n == self.pairs@.len(),
                out@.len() == k,
                forall|i: int| 0 <= i < k ==> out@[i]@ == self.pairs@[i].0@,
            decreases n - k,
        {
            out.push(self.pairs[k].0.clone());
            k = k + 1;
        }
        out
    }
}

/// Every held name is in the denoted map's domain.
pub proof fn lemma_pairs_to_map_contains(s: Seq<(String, Schedule)>, i: int)
    requires
        0 <= i < s.len(),
    ensures
        pairs_to_map(s).dom().contains(s[i].0@),
    decreases s.len(),
{
    if i < s.len() - 1 {
        lemma_pairs_to_map_contains(s.drop_last(), i);
    }
}

/// Every name a schedule map holds is in its domain.
pub proof fn lemma_spec_pairs_in_dom(m: &ScheduleMap, i: int)
    requires
        0 <= i < m.spec_pairs().len(),
    ensures
        m@.dom().contains(m.spec_pairs()[i].0@),
{
    lemma_pairs_to_map_contains(m.spec_pairs(), i);
}

/// The map a sequence of namespace pairs denotes, later pairs overriding
/// earlier ones.
pub open spec fn spaces_to_map(s: Seq<(String, ScheduleMap)>) -> Map<Seq<char>, ScheduleMap>
    decreases s.len(),
{
    if s.len() == 0 {
        Map::empty()
    } else {
        spaces_to_map(s.drop_last()).insert(s.last().0@, s.last().1)
    }
}

/// Map from namespace ID to that namespace's schedule map (used by extensions
/// with private namespaces).
#[derive(Debug)]
pub struct NamespaceMap {
    spaces: Vec<(String, ScheduleMap)>,
}

impl View for NamespaceMap {
    type V = Map<Seq<char>, ScheduleMap>;

    closed spec fn view(&self) -> Map<Seq<char>, ScheduleMap> {
        spaces_to_map(self.spaces@)
    }
}

impl NamespaceMap {
    /// The namespace pairs, in insertion order.
    pub closed spec fn spec_spaces(&self) -> Seq<(String, ScheduleMap)> {
        self.spaces@
    }

    /// Every schedule map held satisfies its invariant.
    pub open spec fn wf(&self) -> bool {
        forall|i: int|
            0 <= i < self.spec_spaces().len() ==> (#[trigger] self.spec_spaces()[i]).1.wf()
    }

    pub fn new() -> (r: Self)
        ensures
            r@ == Map::<Seq<char>, ScheduleMap>::empty(),
            r.spec_spaces().len() == 0,
            r.wf(),
    {
        NamespaceMap { spaces: Vec::new() }
    }

    /// Insert a namespace, replacing any map already held under its ID.
    pub fn insert(&mut self, id: String, schedules: ScheduleMap)
        ensures
            final(self)@ == old(self)@.insert(id@, schedules),
            final(self).spec_spaces() == old(self).spec_spaces().push((id, schedules)),
    {
        let ghost t = (id, schedules);
        self.spaces.push((id, schedules));
        proof {
            assert(self.spaces@.drop_last() =~= old(self).spaces@);
            assert(self.spaces@.last() == t);
        }
    }

    /// Look up a namespace's schedule map by its ID.
    pub fn get(&self, id: &String) -> (r: Option<&ScheduleMap>)
        ensures
            match r {
                Some(m) => self@.dom().contains(id@) && *m == self@[id@] && (self.wf()
                    ==> m.wf()),
                None => !self@.dom().contains(id@),
            },
    {
        let n = self.spaces.len();
        proof {
            assert(self.spaces@.take(n as int) =~= self.spaces@);
        }
        let mut j: usize = n;
        while j > 0
            invariant
                j <= n,
                n == self.spaces@.len(),
                spaces_to_map(self.spaces@).dom().contains(id@) <==> spaces_to_map(
                    self.spaces@.take(j as int),
                ).dom().contains(id@),
                spaces_to_map(self.spaces@).dom().contains(id@) ==> spaces_to_map(
                    self.spaces@.take(j as int),
                )[id@] == spaces_to_map(self.spaces@)[id@],
            decreases j,
        {
            j = j - 1;
            proof {
                assert(self.spaces@.take(j + 1).drop_last() =~= self.spaces@.take(j as int));
                assert(self.spaces@.take(j + 1).last() == self.spaces@[j as int]);
            }
            if self.spaces[j].0 == *id {
                proof {
                    assert(self.wf() ==> (#[trigger] self.spec_spaces()[j as int]).1.wf());
                }
                return Some(&self.spaces[j].1);
            }
        }
        proof {
            assert(self.spaces@.take(0) =~= Seq::<(String, ScheduleMap)>::empty());
        }
        None
    }
}

/// Why compilation of a timetable failed. Compilation is all-or-nothing: the
/// first faulty entry (in input order) aborts the whole compilation.
#[derive(Debug)]
pub enum CompileError {
    /// The entry references a variable type absent from the registry.
    UnknownVariableType(String),
    /// The entry's populated fields match none of the three schedule kinds.
    MalformedEntry(String),
    /// The entry's declared kind disagrees with the kind inferred from its
    /// fields.
    KindMismatch { name: String, declared: ScheduleType, inferred: ScheduleType },
    /// A 24-hour periodic entry declares an offset time.
    InvalidOffsetForT24(String),
    /// The entry's breakpoints are not strictly ascending.
    UnsortedBreakpoints(String),
    /// The entry's breakpoint and value arrays differ in length.
    LengthMismatch(String),
    /// A period, breakpoint or offset is not a valid non-negative (for a
    /// period: positive) duration, or the start offset string cannot be read
    /// as a duration.
    InvalidDuration(String),
    /// The experiment start date string cannot be read as a timestamp.
    InvalidStartDate(String),
    /// An anchor computation leaves the representable instant range.
    TimeOutOfRange(String),
}

/// Experiment-wide metadata after parsing: the absolute start instant (ms
/// since the Unix epoch), the fixed timezone offset in hours (used only to
/// align T24 schedules to local midnight), and the start offset duration in
/// milliseconds (added after that alignment).
#[derive(Debug, Clone, Copy)]
pub struct ExperimentMetadata {
    pub start_date: i64,
    pub timezone: i64,
    pub start_offset: i64,
}

/// The anchor shared by every T24 schedule: local midnight of the start day,
/// plus the start offset, expressed back in absolute time. `None` when the
/// computation leaves the representable instant range.
pub open spec fn spec_t24_anchor(meta: ExperimentMetadata) -> Option<i64> {
    let tz_ms = meta.timezone * (HOUR_MS as int);
    let local = meta.start_date + tz_ms;
    if MIN_INSTANT <= local <= MAX_INSTANT {
        let anchor = spec_midnight(local) + meta.start_offset - tz_ms;
        if i64::MIN <= anchor <= i64::MAX {
            Some(anchor as i64)
        } else {
            None
        }
    } else {
        None
    }
}

/// Compute the T24 anchor for this experiment, if it is representable.
pub fn t24_anchor(meta: &ExperimentMetadata) -> (r: Option<i64>)
    ensures
        r == spec_t24_anchor(*meta),
{
    let tz_ms: i128 = (meta.timezone as i128) * (HOUR_MS as i128);
    proof {
        let tzw = meta.timezone as int;
        assert(tz_ms == tzw * 3_600_000 && -0x8000_0000_0000_0000 <= tzw
            < 0x8000_0000_0000_0000);
        assert((-0x8000_0000_0000_0000 * 3_600_000) <= (tzw * 3_600_000) <= (
        0x8000_0000_0000_0000 * 3_600_000)) by (nonlinear_arith)
            requires
                (-0x8000_0000_0000_0000 <= tzw < 0x8000_0000_0000_0000),
        ;
    }
    let local: i128 = (meta.start_date as i128) + tz_ms;
    if local < MIN_INSTANT as i128 || local > MAX_INSTANT as i128 {
        return None;
    }
    let m = midnight(local as i64);
    let anchor: i128 = (m as i128) + (meta.start_offset as i128) - tz_ms;
    if anchor < i64::MIN as i128 || anchor > i64::MAX as i128 {
        return None;
    }
    Some(anchor as i64)
}

/// The registry entry a type name resolves to, later entries overriding
/// earlier ones.
pub open spec fn spec_lookup_type(
    specs: Seq<(String, VariableTypeSpec)>,
    name: Seq<char>,
) -> Option<VariableTypeSpec>
    decreases specs.len(),
{
    if specs.len() == 0 {
        None
    } else if specs.last().0@ == name {
        Some(specs.last().1)
    } else {
        spec_lookup_type(specs.drop_last(), name)
    }
}

/// Resolve a variable type name against the registry.
fn lookup_type<'a>(specs: &'a Vec<(String, VariableTypeSpec)>, name: &String) -> (r: Option<
    &'a VariableTypeSpec,
>)
    ensures
        match r {
            Some(v) => spec_lookup_type(specs@, name@) == Some(*v),
            None => spec_lookup_type(specs@, name@) is None,
        },
{
    let n = specs.len();
    proof {
        assert(specs@.take(n as int) =~= specs@);
    }
    let mut j: usize = n;
    while j > 0
        invariant
            j <= n,
            n == specs@.len(),
            spec_lookup_type(specs@, name@) == spec_lookup_type(specs@.take(j as int), name@),
        decreases j,
    {
        j = j - 1;
        proof {
            assert(specs@.take(j + 1).drop_last() =~= specs@.take(j as int));
            assert(specs@.take(j + 1).last() == specs@[j as int]);
        }
        if specs[j].0 == *name {
            return Some(&specs[j].1);
        }
    }
    None
}

/// The anchor of a periodic entry: the shared T24 anchor for 24-hour periods,
/// the start date shifted by the entry's offset time when one is declared,
/// and the start date itself otherwise. `None` when the anchor leaves the
/// representable instant range (for T24: when the shared anchor does).
pub open spec fn spec_entry_anchor(
    entry: ScheduleEntry,
    start_date: i64,
    t24: Option<i64>,
) -> Option<i64> {
    if entry.period == Some(T24_PERIOD_MS) {
        t24
    } else if entry.offset_time is Some {
        let anchor = start_date + entry.offset_time->0;
        if i64::MIN <= anchor <= i64::MAX {
            Some(anchor as i64)
        } else {
            None
        }
    } else {
        Some(start_date)
    }
}

/// How one entry compiles: the checks in order, then the resolved schedule.
/// An entry first resolves its variable type (else `UnknownVariableType`),
/// then must be well-formed (`MalformedEntry`, `KindMismatch`,
/// `InvalidOffsetForT24`); a periodic entry must then satisfy the breakpoint
/// invariants (`LengthMismatch`, `UnsortedBreakpoints`, `InvalidDuration`),
/// declare a non-negative offset time (`InvalidDuration`), and have a
/// representable anchor (`TimeOutOfRange`).
pub open spec fn spec_compile_entry(
    name: String,
    entry: ScheduleEntry,
    specs: Seq<(String, VariableTypeSpec)>,
    start_date: i64,
    t24: Option<i64>,
) -> Result<Schedule, CompileError> {
    match spec_lookup_type(specs, entry.header.variable_type@) {
        None => Err(CompileError::UnknownVariableType(name)),
        Some(vspec) => match entry.spec_fault() {
            Some(EntryFault::Malformed) => Err(CompileError::MalformedEntry(name)),
            Some(EntryFault::KindMismatch(declared, inferred)) => Err(
                CompileError::KindMismatch { name, declared, inferred },
            ),
            Some(EntryFault::OffsetForbiddenForT24) => Err(
                CompileError::InvalidOffsetForT24(name),
            ),
            None => match entry.spec_schedule_type()->0 {
                ScheduleType::Constant => Ok(
                    Schedule::Constant(
                        ConstantSchedule {
                            var_type: entry.header.variable_type,
                            value: entry.value->0,
                        },
                    ),
                ),
                ScheduleType::Default => Ok(
                    Schedule::Constant(
                        ConstantSchedule {
                            var_type: entry.header.variable_type,
                            value: vspec.default,
                        },
                    ),
                ),
                ScheduleType::Periodic => match periodic_fault(
                    entry.period->0,
                    entry.times->0@,
                    entry.values->0@.len(),
                ) {
                    Some(ScheduleFault::LengthMismatch) => Err(CompileError::LengthMismatch(name)),
                    Some(ScheduleFault::UnsortedBreakpoints) => Err(
                        CompileError::UnsortedBreakpoints(name),
                    ),
                    Some(ScheduleFault::InvalidDuration) => Err(
                        CompileError::InvalidDuration(name),
                    ),
                    None => {
                        if entry.offset_time is Some && entry.offset_time->0 < 0 {
                            Err(CompileError::InvalidDuration(name))
                        } else {
                            match spec_entry_anchor(entry, start_date, t24) {
                                None => Err(CompileError::TimeOutOfRange(name)),
                                Some(anchor) => Ok(
                                    Schedule::Periodic(
                                        PeriodicSchedule {
                                            var_type: entry.header.variable_type,
                                            start_point: anchor,
                                            period: entry.period->0,
                                            times: entry.times->0,
                                            values: entry.values->0,
                                            default_val: vspec.default,
                                        },
                                    ),
                                ),
                            }
                        }
                    },
                },
            },
        },
    }
}

/// Compile one entry against the registry and the experiment's anchors.
fn compile_entry(
    name: &String,
    entry: ScheduleEntry,
    specs: &Vec<(String, VariableTypeSpec)>,
    start_date: i64,
    t24: Option<i64>,
) -> (r: Result<Schedule, CompileError>)
    ensures
        r == spec_compile_entry(*name, entry, specs@, start_date, t24),
        r is Ok ==> r->Ok_0.wf(),
{
    let vspec = match lookup_type(specs, entry.variable_type()) {
        Some(v) => v,
        None => {
            return Err(CompileError::UnknownVariableType(name.clone()));
        },
    };
    match entry.is_valid() {
        Err(EntryFault::Malformed) => {
            return Err(CompileError::MalformedEntry(name.clone()));
        },
        Err(EntryFault::KindMismatch(declared, inferred)) => {
            return Err(CompileError::KindMismatch { name: name.clone(), declared, inferred });
        },
        Err(EntryFault::OffsetForbiddenForT24) => {
            return Err(CompileError::InvalidOffsetForT24(name.clone()));
        },
        Ok(()) => {},
    }
    let kind = match entry.schedule_type() {
        Some(k) => k,
        None => unreached(),
    };
    let ScheduleEntry { header, value, period, times, values, offset_time } = entry;
    match kind {
        ScheduleType::Constant => {
            let value = match value {
                Some(v) => v,
                None => unreached(),
            };
            Ok(Schedule::Constant(ConstantSchedule::new(header.variable_type, value)))
        },
        ScheduleType::Default => Ok(
            Schedule::Constant(ConstantSchedule::new(header.variable_type, vspec.default.clone())),
        ),
        ScheduleType::Periodic => {
            let period = match period {
                Some(p) => p,
                None => unreached(),
            };
            let times = match times {
                Some(t) => t,
                None => unreached(),
            };
            let values = match values {
                Some(v) => v,
                None => unreached(),
            };
            if times.len() != values.len() {
                return Err(CompileError::LengthMismatch(name.clone()));
            }
            if !check_strictly_ascending(&times) {
                return Err(CompileError::UnsortedBreakpoints(name.clone()));
            }
            if period <= 0 || (times.len() > 0 && times[0] < 0) {
                return Err(CompileError::InvalidDuration(name.clone()));
            }
            if let Some(off) = offset_time {
                if off < 0 {
                    return Err(CompileError::InvalidDuration(name.clone()));
                }
            }
            let anchor: i64 = if period == T24_PERIOD_MS {
                match t24 {
                    Some(a) => a,
                    None => {
                        return Err(CompileError::TimeOutOfRange(name.clone()));
                    },
                }
            } else if let Some(off) = offset_time {
                let wide: i128 = (start_date as i128) + (off as i128);
                if wide < i64::MIN as i128 || wide > i64::MAX as i128 {
                    return Err(CompileError::TimeOutOfRange(name.clone()));
                }
                wide as i64
            } else {
                start_date
            };
            match PeriodicSchedule::new(
                header.variable_type,
                anchor,
                period,
                times,
                values,
                vspec.default.clone(),
            ) {
                Ok(s) => Ok(Schedule::Periodic(s)),
                Err(_) => unreached(),
            }
        },
    }
}

/// How a whole timetable compiles: entries in order, fail-fast on the first
/// faulty one, later entries overriding earlier ones of the same name.
pub open spec fn spec_compile(
    entries: Seq<(String, ScheduleEntry)>,
    specs: Seq<(String, VariableTypeSpec)>,
    start_date: i64,
    t24: Option<i64>,
) -> Result<Map<Seq<char>, Schedule>, CompileError>
    decreases entries.len(),
{
    if entries.len() == 0 {
        Ok(Map::empty())
    } else {
        match spec_compile(entries.drop_last(), specs, start_date, t24) {
            Err(e) => Err(e),
            Ok(m) => match spec_compile_entry(
                entries.last().0,
                entries.last().1,
                specs,
                start_date,
                t24,
            ) {
                Err(e) => Err(e),
                Ok(s) => Ok(m.insert(entries.last().0@, s)),
            },
        }
    }
}

/// Once a prefix of the entries fails to compile, the whole sequence fails
/// with the same error (fail-fast).
proof fn lemma_spec_compile_err_propagates(
    entries: Seq<(String, ScheduleEntry)>,
    specs: Seq<(String, VariableTypeSpec)>,
    start_date: i64,
    t24: Option<i64>,
    i: int,
)
    requires
        0 <= i <= entries.len(),
        spec_compile(entries.take(i), specs, start_date, t24) is Err,
    ensures
        spec_compile(entries, specs, start_date, t24) == spec_compile(
            entries.take(i),
            specs,
            start_date,
            t24,
        ),
    decreases entries.len() - i,
{
    if i < entries.len() {
        assert(entries.take(i + 1).drop_last() =~= entries.take(i));
        lemma_spec_compile_err_propagates(entries, specs, start_date, t24, i + 1);
    } else {
        assert(entries.take(i) =~= entries);
    }
}

/// Compile a timetable's entries against the variable-type registry and the
/// experiment metadata. All-or-nothing: either every entry compiles and the
/// whole resolved map is returned, or the first faulty entry's error is.
pub fn compile(
    entries: Vec<(String, ScheduleEntry)>,
    specs: &Vec<(String, VariableTypeSpec)>,
    meta: &ExperimentMetadata,
) -> (r: Result<ScheduleMap, CompileError>)
    ensures
        ({
            let sc = spec_compile(entries@, specs@, meta.start_date, spec_t24_anchor(*meta));
            match r {
                Ok(m) => sc is Ok && m@ == sc->Ok_0 && m.wf(),
                Err(e) => sc is Err && e == sc->Err_0,
            }
        }),
{
    let ghost all = entries@;
    let t24 = t24_anchor(meta);
    let mut rest = entries;
    let mut out = ScheduleMap::new();
    let ghost start_date = meta.start_date;
    let mut idx: usize = 0;
    proof {
        assert(all.take(0) =~= Seq::<(String, ScheduleEntry)>::empty());
        assert(all.subrange(0, all.len() as int) =~= all);
    }
    let n0 = rest.len();
    while rest.len() > 0
        invariant
            all == entries@,
            n0 == all.len(),
            idx <= all.len() <= usize::MAX,
            rest@ == all.subrange(idx as int, all.len() as int),
            t24 == spec_t24_anchor(*meta),
            start_date == meta.start_date,
            spec_compile(all.take(idx as int), specs@, start_date, t24) is Ok,
            out@ == spec_compile(all.take(idx as int), specs@, start_date, t24)->Ok_0,
            out.wf(),
        decreases rest@.len(),
    {
        let (name, entry) = rest.remove(0);
        proof {
            assert(all[idx as int] == (name, entry));
            assert(all.take(idx + 1).drop_last() =~= all.take(idx as int));
            assert(all.take(idx + 1).last() == all[idx as int]);
            assert(rest@ =~= all.subrange(idx + 1, all.len() as int));
        }
        match compile_entry(&name, entry, specs, meta.start_date, t24) {
            Ok(s) => {
                out.insert(name, s);
            },
            Err(e) => {
                proof {
                    lemma_spec_compile_err_propagates(
                        all,
                        specs@,
                        start_date,
                        t24,
                        idx + 1,
                    );
                }
                return Err(e);
            },
        }
        idx = idx + 1;
    }
    proof {
        assert(all.take(idx as int) =~= all);
    }
    Ok(out)
}

/// Parse a whole timetable document into its resolved schedule map: read the
/// experiment's start date and start offset, then compile every variable
/// schedule entry. All-or-nothing, like `compile`.
pub fn parse_schedules(file: LunaLuz) -> (r: Result<ScheduleMap, CompileError>)
    ensures
        ({
            let sd = spec_parse_datetime(file.info.start_date@);
            let so = iso_duration_ms(file.info.start_offset@);
            let meta = (ExperimentMetadata {
                start_date: sd->0,
                timezone: file.info.timezone,
                start_offset: so->0,
            });
            let sc = spec_compile(
                file.variable_schedules@,
                file.var_type_specs@,
                meta.start_date,
                spec_t24_anchor(meta),
            );
            match r {
                Ok(m) => sd is Some && so is Some && sc is Ok && m@ == sc->Ok_0 && m.wf(),
                Err(e) => {
                    if sd is None {
                        e is InvalidStartDate
                    } else if so is None {
                        e is InvalidDuration
                    } else {
                        sc is Err && e == sc->Err_0
                    }
                },
            }
        }),
{
    let start_date = match parse_datetime_iso8601(file.info.start_date.as_str()) {
        Ok(ms) => ms,
        Err(e) => {
            return Err(CompileError::InvalidStartDate(e));
        },
    };
    let start_offset = match parse_duration_iso8601(file.info.start_offset.as_str()) {
        Ok(ms) => ms,
        Err(e) => {
            return Err(CompileError::InvalidDuration(e));
        },
    };
    let meta = ExperimentMetadata { start_date, timezone: file.info.timezone, start_offset };
    compile(file.variable_schedules, &file.var_type_specs, &meta)
}

} // verus!
