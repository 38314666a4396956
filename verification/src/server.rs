//! Query surface logic: given compiled schedule maps and already-parsed query
//! parameters, produce the response values. Transport, serialization and the
//! process clock live outside this crate; "now" is handed in by the caller.

use vstd::prelude::*;

use crate::schedules::{
    lemma_spec_pairs_in_dom, parse_datetime_iso8601, spec_parse_datetime, NamespaceMap, Schedule,
    ScheduleMap, VarSchedule,
};

verus! {

/// Query parameters for the root endpoint.
pub struct GetVarsParams {
    /// UTC ISO-8601 timestamp; `None` means "now".
    pub time: Option<String>,
    /// Include variable types in the response.
    pub include_types: bool,
    /// Namespace ID (used by extensions with private namespaces).
    pub namespace: Option<String>,
}

/// Body of a batch schedule query.
pub struct ScheduleQuery {
    /// UTC ISO-8601 timestamp; `None` means "now".
    pub time: Option<String>,
    /// UTC ISO-8601 timestamps for a batch query.
    pub times: Option<Vec<String>>,
    /// Names of requested variables; `None` means all.
    pub vars: Option<Vec<String>>,
    /// Namespace ID; `None` means the global namespace.
    pub namespace: Option<String>,
}

/// Response for the root endpoint: the resolved query instant and, per
/// variable, the value in force at it (and optionally the variable's type).
#[derive(Debug)]
pub struct GetScheduleResponse {
    pub time: i64,
    pub values: Vec<(String, serde_json::Value)>,
    pub var_types: Option<Vec<(String, String)>>,
}

/// Response for a batch query: the resolved query instants and, per
/// variable, the values in force at each of them, in order.
#[derive(Debug)]
pub struct PostScheduleResponse {
    pub times: Vec<i64>,
    pub values: Vec<(String, Vec<serde_json::Value>)>,
}

/// Why a query was rejected before evaluation.
#[derive(Debug)]
pub enum QueryError {
    /// A timestamp string could not be parsed (carries the parser's message).
    BadTimestamp(String),
    /// The body set both `time` and `times`.
    BothTimeAndTimes,
    /// One or more requested variables are not in the schedule map.
    UnknownVariables,
    /// The requested namespace is unknown (carries its ID).
    UnknownNamespace(String),
}

/// The schedule map a query addresses: the namespace's map when a namespace
/// ID is given (`None` when that ID is unknown), else the global map.
pub open spec fn spec_chosen(
    schedules: ScheduleMap,
    ext: NamespaceMap,
    namespace: Option<String>,
) -> Option<ScheduleMap> {
    match namespace {
        Some(id) => if ext@.dom().contains(id@) {
            Some(ext@[id@])
        } else {
            None
        },
        None => Some(schedules),
    }
}

/// The instant a query's optional timestamp resolves to: the parsed
/// timestamp when one is given, else `now`.
pub open spec fn spec_query_time(time: Option<String>, now: i64) -> Option<i64> {
    match time {
        Some(s) => spec_parse_datetime(s@),
        None => Some(now),
    }
}

/// The names a batch query asks for: the requested list when one is given,
/// else every held name, in insertion order.
pub open spec fn spec_requested_names(vars: Option<Vec<String>>, m: ScheduleMap) -> Seq<
    Seq<char>,
> {
    match vars {
        Some(vs) => vs@.map_values(|v: String| v@),
        None => m.spec_pairs().map_values(|p: (String, Schedule)| p.0@),
    }
}

/// Select the schedule map a query addresses.
fn select_schedules<'a>(
    schedules: &'a ScheduleMap,
    ext: &'a NamespaceMap,
    namespace: &Option<String>,
) -> (r: Result<&'a ScheduleMap, QueryError>)
    ensures
        match r {
            Ok(m) => spec_chosen(*schedules, *ext, *namespace) == Some(*m) && ((schedules.wf()
                && ext.wf()) ==> m.wf()),
            Err(e) => spec_chosen(*schedules, *ext, *namespace) is None && (e matches
                QueryError::UnknownNamespace(n) && n@ == namespace->0@),
        },
{
    match namespace {
        Some(id) => match ext.get(id) {
            Some(m) => Ok(m),
            None => Err(QueryError::UnknownNamespace(id.clone())),
        },
        None => Ok(schedules),
    }
}

/// Evaluate every variable of a schedule map at one instant, optionally
/// collecting each variable's type name as well.
pub fn get_vars(
    schedules: &ScheduleMap,
    ext: &NamespaceMap,
    params: &GetVarsParams,
    now: i64,
) -> (r: Result<GetScheduleResponse, QueryError>)
    requires
        schedules.wf(),
        ext.wf(),
    ensures
        ({
            let t = spec_query_time(params.time, now);
            let chosen = spec_chosen(*schedules, *ext, params.namespace);
            match r {
                Ok(resp) => {
                    &&& t is Some
                    &&& resp.time == t->0
                    &&& chosen is Some
                    &&& ({
                        let m = chosen->0;
                        &&& resp.values@.len() == m.spec_pairs().len()
                        &&& forall|i: int|
                            0 <= i < m.spec_pairs().len() ==> (#[trigger] resp.values@[i]).0@
                                == m.spec_pairs()[i].0@ && resp.values@[i].1
                                == m.spec_pairs()[i].1.spec_eval(t->0 as int)
                        &&& (params.include_types <==> resp.var_types is Some)
                        &&& (resp.var_types is Some ==> resp.var_types->0@.len()
                            == m.spec_pairs().len())
                        &&& (resp.var_types is Some ==> forall|i: int|
                            0 <= i < m.spec_pairs().len() ==> (#[trigger] resp.var_types->0@[i]).0@
                                == m.spec_pairs()[i].0@ && resp.var_types->0@[i].1@
                                == m.spec_pairs()[i].1.spec_var_type())
                    })
                },
                Err(e) => match e {
                    QueryError::BadTimestamp(_) => t is None,
                    QueryError::UnknownNamespace(n) => t is Some && chosen is None && n@
                        == params.namespace->0@,
                    _ => false,
                },
            }
        }),
{
    // Determine query time
    let time: i64 = match &params.time {
        Some(s) => match parse_datetime_iso8601(s.as_str()) {
            Ok(ms) => ms,
            Err(e) => {
                return Err(QueryError::BadTimestamp(e));
            },
        },
        None => now,
    };
    let m = match select_schedules(schedules, ext, &params.namespace) {
        Ok(m) => m,
        Err(e) => {
            return Err(e);
        },
    };
    // Collect current values and (optionally) variable types
    let mut values: Vec<(String, serde_json::Value)> = Vec::new();
    let mut types: Vec<(String, String)> = Vec::new();
    let n = m.len();
    let mut i: usize = 0;
    while i < n
        invariant
            i <= n,
            n == m.spec_pairs().len(),
            m.wf(),
            values@.len() == i,
            forall|j: int|
                0 <= j < i ==> (#[trigger] values@[j]).0@ == m.spec_pairs()[j].0@ && values@[j].1
                    == m.spec_pairs()[j].1.spec_eval(time as int),
            types@.len() == (if params.include_types {
                i as int
            } else {
                0
            }),
            params.include_types ==> forall|j: int|
                0 <= j < i ==> (#[trigger] types@[j]).0@ == m.spec_pairs()[j].0@ && types@[j].1@
                    == m.spec_pairs()[j].1.spec_var_type(),
        decreases n - i,
    {
        let pair = m.pair_at(i);
        let value = pair.1.floor_search(time);
        values.push((pair.0.clone(), value));
        if params.include_types {
            types.push((pair.0.clone(), pair.1.var_type()));
        }
        i = i + 1;
    }
    let var_types = if params.include_types {
        Some(types)
    } else {
        None
    };
    Ok(GetScheduleResponse { time, values, var_types })
}

/// Evaluate requested (or all) variables of a schedule map at one instant or
/// at a batch of instants. Batch evaluation is the independent per-instant
/// evaluation of each variable's schedule.
#[verifier::loop_isolation(false)]
pub fn post_vars(
    schedules: &ScheduleMap,
    ext: &NamespaceMap,
    payload: &ScheduleQuery,
    now: i64,
) -> (r: Result<PostScheduleResponse, QueryError>)
    requires
        schedules.wf(),
        ext.wf(),
    ensures
        ({
            let both = payload.time is Some && payload.times is Some;
            let chosen = spec_chosen(*schedules, *ext, payload.namespace);
            match r {
                Ok(resp) => {
                    &&& !both
                    &&& chosen is Some
                    &&& ({
                        let m = chosen->0;
                        let names = spec_requested_names(payload.vars, m);
                        &&& (match payload.times {
                            Some(ts) => resp.times@.len() == ts@.len() && forall|j: int|
                                0 <= j < ts@.len() ==> spec_parse_datetime((#[trigger] ts@[j])@)
                                    == Some(resp.times@[j]),
                            None => spec_query_time(payload.time, now) is Some && resp.times@
                                =~= seq![spec_query_time(payload.time, now)->0],
                        })
                        &&& resp.values@.len() == names.len()
                        &&& forall|i: int|
                            0 <= i < names.len() ==> (#[trigger] resp.values@[i]).0@ == names[i]
                                && m@.dom().contains(names[i]) && resp.values@[i].1@.len()
                                == resp.times@.len()
                        &&& forall|i: int, j: int|
                            0 <= i < names.len() && 0 <= j < resp.times@.len()
                                ==> (#[trigger] resp.values@[i].1@[j]) == m@[names[i]].spec_eval(
                                resp.times@[j] as int,
                            )
                    })
                },
                Err(e) => match e {
                    QueryError::BothTimeAndTimes => both,
                    QueryError::UnknownNamespace(n) => !both && chosen is None && n@
                        == payload.namespace->0@,
                    QueryError::UnknownVariables => !both && chosen is Some && payload.vars
                        is Some && (exists|i: int|
                        0 <= i < payload.vars->0@.len() && !chosen->0@.dom().contains(
                            (#[trigger] payload.vars->0@[i])@,
                        )),
                    QueryError::BadTimestamp(_) => {
                        &&& !both
                        &&& chosen is Some
                        &&& (payload.vars is Some ==> forall|i: int|
                            0 <= i < payload.vars->0@.len() ==> chosen->0@.dom().contains(
                                (#[trigger] payload.vars->0@[i])@,
                            ))
                        &&& (match payload.times {
                            Some(ts) => exists|j: int|
                                0 <= j < ts@.len() && spec_parse_datetime((#[trigger] ts@[j])@)
                                    is None,
                            None => payload.time is Some && spec_parse_datetime(
                                payload.time->0@,
                            ) is None,
                        })
                    },
                },
            }
        }),
{
    if payload.time.is_some() && payload.times.is_some() {
        return Err(QueryError::BothTimeAndTimes);
    }
    let m = match select_schedules(schedules, ext, &payload.namespace) {
        Ok(m) => m,
        Err(e) => {
            return Err(e);
        },
    };
    let ghost names = spec_requested_names(payload.vars, *m);
    let vars: Vec<String> = match &payload.vars {
        Some(var_list) => {
            let nv = var_list.len();
            let mut copy: Vec<String> = Vec::new();
            let mut i: usize = 0;
            while i < nv
                invariant
                    i <= nv,
                    copy@.len() == i,
                    forall|j: int|
                        0 <= j < i ==> (#[trigger] copy@[j])@ == var_list@[j]@
                            && m@.dom().contains(var_list@[j]@),
                decreases nv - i,
            {
                if !m.contains_key(&var_list[i]) {
                    return Err(QueryError::UnknownVariables);
                }
                copy.push(var_list[i].clone());
                i = i + 1;
            }
            proof {
                assert(payload.vars->0@ == var_list@);
            }
            copy
        },
        None => {
            proof {
                assert forall|i: int| 0 <= i < m.spec_pairs().len() implies m@.dom().contains(
                    m.spec_pairs()[i].0@,
                ) by {
                    lemma_spec_pairs_in_dom(m, i);
                }
            }
            m.keys()
        },
    };
    assert(vars@.len() == names.len());
    assert(forall|i: int|
        0 <= i < names.len() ==> (#[trigger] vars@[i])@ == names[i] && m@.dom().contains(
            names[i],
        ));
    proof {
        if payload.vars is Some {
            assert forall|i: int| 0 <= i < payload.vars->0@.len() implies m@.dom().contains(
                (#[trigger] payload.vars->0@[i])@,
            ) by {
                assert(vars@[i]@ == names[i]);
            }
        }
    }
    // Resolve the query instants
    let times: Vec<i64> = match &payload.times {
        Some(times_strs) => {
            let nt = times_strs.len();
            let mut parsed: Vec<i64> = Vec::new();
            let mut j: usize = 0;
            while j < nt
                invariant
                    j <= nt,
                    parsed@.len() == j,
                    forall|k: int|
                        0 <= k < j ==> spec_parse_datetime((#[trigger] times_strs@[k])@) == Some(
                            parsed@[k],
                        ),
                decreases nt - j,
            {
                match parse_datetime_iso8601(times_strs[j].as_str()) {
                    Ok(ms) => {
                        parsed.push(ms);
                    },
                    Err(e) => {
                        return Err(QueryError::BadTimestamp(e));
                    },
                }
                j = j + 1;
            }
            parsed
        },
        None => {
            let t: i64 = match &payload.time {
                Some(s) => match parse_datetime_iso8601(s.as_str()) {
                    Ok(ms) => ms,
                    Err(e) => {
                        return Err(QueryError::BadTimestamp(e));
                    },
                },
                None => now,
            };
            let mut single: Vec<i64> = Vec::new();
            single.push(t);
            single
        },
    };
    // Evaluate each requested variable at every instant
    let mut values: Vec<(String, Vec<serde_json::Value>)> = Vec::new();
    let nv = vars.len();
    let mut i: usize = 0;
    while i < nv
        invariant
            i <= nv,
            values@.len() == i,
            forall|k: int|
                0 <= k < i ==> (#[trigger] values@[k]).0@ == names[k] && values@[k].1@.len()
                    == times@.len(),
            forall|k: int, j: int|
                0 <= k < i && 0 <= j < times@.len() ==> (#[trigger] values@[k].1@[j])
                    == m@[names[k]].spec_eval(times@[j] as int),
        decreases nv - i,
    {
        let schedule = match m.get(&vars[i]) {
            Some(s) => s,
            None => unreached(),
        };
        let var_values = schedule.floor_multi_search(times.as_slice());
        values.push((vars[i].clone(), var_values));
        i = i + 1;
    }
    Ok(PostScheduleResponse { times, values })
}

} // verus!
