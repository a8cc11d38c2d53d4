//! Workload analyzers: heavy usage, restarts, pending, failed, unready and
//! OOM-killed classification over workload snapshots.
//!
//! Every analyzer is a pure function of its snapshot arguments and one
//! captured instant `now`; all grace-period comparisons in one run use that
//! single instant.  A workload without a name is skipped.

use vstd::prelude::*;
use vstd::string::StringExecFns;

use crate::base::build_usage_map_from_http;
use crate::base::minutes_between;
use crate::base::pod_status_time;
use crate::base::spec_lookup_usage;
use crate::base::spec_usage_entries;
use crate::base::status_or_now;
use crate::base::usage_for;
use crate::numtext::sat_add;
use crate::numtext::sat_add_i64;
use crate::numtext::trunc_div;
use crate::parsing::any_exceeds;
use crate::parsing::compute_utilization_percentages;
use crate::parsing::parse_cpu_to_millicores;
use crate::parsing::parse_memory_to_bytes;
use crate::parsing::spec_any_exceeds;
use crate::parsing::spec_cpu_utilization;
use crate::parsing::spec_mem_utilization;
use crate::parsing::spec_parse_cpu;
use crate::parsing::spec_parse_memory;
use crate::text::opt_str_is;
use crate::text::str_eq;
use crate::types::Config;
use crate::types::ContainerSpecSnapshot;
use crate::types::ContainerStatusSnapshot;
use crate::types::ConditionSnapshot;
use crate::types::FailedPodInfo;
use crate::types::HeavyUsagePod;
use crate::types::OomKilledInfo;
use crate::types::Percentage;
use crate::types::PendingPodInfo;
use crate::types::PodMetricsSnapshot;
use crate::types::PodRequestTotals;
use crate::types::PodUsageTotals;
use crate::types::RestartEventInfo;
use crate::types::Threshold;
use crate::types::UnreadyPodInfo;
use crate::types::WorkloadSnapshot;
use crate::types::view_opt_string;

verus! {

// ---------------------------------------------------------------------------
// shared helpers
// ---------------------------------------------------------------------------

/// Strictly more than `grace` minutes have passed since `since`.
fn after_grace(now: i64, since: i64, grace: i64) -> (r: bool)
    ensures
        r == (now - since > grace * 60),
{
    ((now as i128) - (since as i128)) > (grace as i128) * 60
}

/// `ts` lies strictly after the cutoff `since + grace` minutes.
fn after_cutoff(ts: i64, since: i64, grace: i64) -> (r: bool)
    ensures
        r == (ts > since + grace * 60),
{
    (ts as i128) > (since as i128) + (grace as i128) * 60
}

fn status_time_or(p: &WorkloadSnapshot, now: i64) -> (r: i64)
    ensures
        r == status_or_now(*p, now),
{
    match pod_status_time(p) {
        Some(t) => t,
        None => now,
    }
}

fn clone_opt_string(o: &Option<String>) -> (r: Option<String>)
    ensures
        r == *o,
{
    match o {
        Some(s) => Some(s.clone()),
        None => None,
    }
}

// ---------------------------------------------------------------------------
// pending workloads
// ---------------------------------------------------------------------------

/// The workload is in the pending phase and its grace period has elapsed.
pub open spec fn spec_is_pending_over_grace(p: WorkloadSnapshot, grace: i64, now: i64) -> bool {
    &&& p.phase matches Some(ph) && ph@ == "Pending"@
    &&& now - status_or_now(p, now) > grace * 60
}

/// Phase and grace check for a pending workload.
pub fn is_pending_over_grace(p: &WorkloadSnapshot, grace_minutes: i64, now: i64) -> (r: bool)
    ensures
        r == spec_is_pending_over_grace(*p, grace_minutes, now),
{
    if !opt_str_is(&p.phase, "Pending") {
        return false;
    }
    let since = status_time_or(p, now);
    after_grace(now, since, grace_minutes)
}

/// The grace boundary is exclusive: a workload pending since exactly
/// `now - grace` is not reported, while one pending since a minute earlier
/// is.
pub proof fn lemma_pending_grace_boundary(p: WorkloadSnapshot, grace: i64, now: i64)
    requires
        p.phase matches Some(ph) && ph@ == "Pending"@,
    ensures
        status_or_now(p, now) == now - grace * 60 ==> !spec_is_pending_over_grace(p, grace, now),
        status_or_now(p, now) == now - grace * 60 - 60 ==> spec_is_pending_over_grace(
            p,
            grace,
            now,
        ),
{
}

/// The pending issues, one per named pending workload past grace, in input
/// order.
pub open spec fn spec_pending_pods(
    ns: Seq<char>,
    grace: i64,
    now: i64,
    pods: Seq<WorkloadSnapshot>,
) -> Seq<(Seq<char>, Seq<char>, i64, i64)>
    decreases pods.len(),
{
    if pods.len() == 0 {
        Seq::empty()
    } else {
        let rest = spec_pending_pods(ns, grace, now, pods.drop_last());
        let p = pods[pods.len() - 1];
        if p.name is Some && spec_is_pending_over_grace(p, grace, now) {
            rest.push(
                (
                    ns,
                    p.name->0@,
                    status_or_now(p, now),
                    trunc_div(now - status_or_now(p, now), 60) as i64,
                ),
            )
        } else {
            rest
        }
    }
}

/// Reports workloads stuck in the pending phase past the grace period.
pub fn analyze_pending_pods_with_pods(
    namespace: &str,
    cfg: &Config,
    pods: &Vec<WorkloadSnapshot>,
    now: i64,
) -> (r: Vec<PendingPodInfo>)
    ensures
        r@.map_values(|x: PendingPodInfo| x@) == spec_pending_pods(
            namespace@,
            cfg.pending_grace_minutes,
            now,
            pods@,
        ),
{
    let mut out: Vec<PendingPodInfo> = Vec::new();
    let n = pods.len();
    let mut i: usize = 0;
    while i < n
        invariant
            i <= n,
            n == pods@.len(),
            out@.map_values(|x: PendingPodInfo| x@) == spec_pending_pods(
                namespace@,
                cfg.pending_grace_minutes,
                now,
                pods@.subrange(0, i as int),
            ),
        decreases n - i,
    {
        let p = &pods[i];
        proof {
            assert(pods@.subrange(0, i + 1).drop_last() =~= pods@.subrange(0, i as int));
            assert(pods@.subrange(0, i + 1)[i as int] == pods@[i as int]);
        }
        match &p.name {
            Some(nm) => {
                if is_pending_over_grace(p, cfg.pending_grace_minutes, now) {
                    let since = status_time_or(p, now);
                    let duration_minutes = minutes_between(now, since);
                    let rec = PendingPodInfo {
                        namespace: String::from_str(namespace),
                        pod: nm.clone(),
                        since,
                        duration_minutes,
                    };
                    out.push(rec);
                    proof {
                        assert(out@.map_values(|x: PendingPodInfo| x@) =~= spec_pending_pods(
                            namespace@,
                            cfg.pending_grace_minutes,
                            now,
                            pods@.subrange(0, i + 1),
                        ));
                    }
                }
            },
            None => {},
        }
        i = i + 1;
    }
    proof {
        assert(pods@.subrange(0, n as int) =~= pods@);
    }
    out
}

// ---------------------------------------------------------------------------
// failed workloads
// ---------------------------------------------------------------------------

/// The workload is in the failed phase and its grace period has elapsed.
pub open spec fn spec_is_failed_over_grace(p: WorkloadSnapshot, grace: i64, now: i64) -> bool {
    &&& p.phase matches Some(ph) && ph@ == "Failed"@
    &&& now - status_or_now(p, now) > grace * 60
}

/// Phase and grace check for a failed workload.
pub fn is_failed_over_grace(p: &WorkloadSnapshot, grace_minutes: i64, now: i64) -> (r: bool)
    ensures
        r == spec_is_failed_over_grace(*p, grace_minutes, now),
{
    if !opt_str_is(&p.phase, "Failed") {
        return false;
    }
    let since = status_time_or(p, now);
    after_grace(now, since, grace_minutes)
}

/// The failed-workload issues, one per named failed workload past grace, in
/// input order.
pub open spec fn spec_failed_pods(
    ns: Seq<char>,
    grace: i64,
    now: i64,
    pods: Seq<WorkloadSnapshot>,
) -> Seq<(Seq<char>, Seq<char>, i64, i64, Option<Seq<char>>, Option<Seq<char>>)>
    decreases pods.len(),
{
    if pods.len() == 0 {
        Seq::empty()
    } else {
        let rest = spec_failed_pods(ns, grace, now, pods.drop_last());
        let p = pods[pods.len() - 1];
        if p.name is Some && spec_is_failed_over_grace(p, grace, now) {
            rest.push(
                (
                    ns,
                    p.name->0@,
                    status_or_now(p, now),
                    trunc_div(now - status_or_now(p, now), 60) as i64,
                    view_opt_string(p.reason),
                    view_opt_string(p.message),
                ),
            )
        } else {
            rest
        }
    }
}

/// The status reason and message of a workload snapshot.
pub fn extract_pod_failure_info(p: &WorkloadSnapshot) -> (r: (Option<String>, Option<String>))
    ensures
        r.0 == p.reason,
        r.1 == p.message,
{
    (clone_opt_string(&p.reason), clone_opt_string(&p.message))
}

/// Reports workloads in the failed phase past the grace period.
pub fn analyze_failed_pods_with_pods(
    namespace: &str,
    cfg: &Config,
    pods: &Vec<WorkloadSnapshot>,
    now: i64,
) -> (r: Vec<FailedPodInfo>)
    ensures
        r@.map_values(|x: FailedPodInfo| x@) == spec_failed_pods(
            namespace@,
            cfg.pending_grace_minutes,
            now,
            pods@,
        ),
{
    let mut out: Vec<FailedPodInfo> = Vec::new();
    let n = pods.len();
    let mut i: usize = 0;
    while i < n
        invariant
            i <= n,
            n == pods@.len(),
            out@.map_values(|x: FailedPodInfo| x@) == spec_failed_pods(
                namespace@,
                cfg.pending_grace_minutes,
                now,
                pods@.subrange(0, i as int),
            ),
        decreases n - i,
    {
        let p = &pods[i];
        proof {
            assert(pods@.subrange(0, i + 1).drop_last() =~= pods@.subrange(0, i as int));
            assert(pods@.subrange(0, i + 1)[i as int] == pods@[i as int]);
        }
        match &p.name {
            Some(nm) => {
                if is_failed_over_grace(p, cfg.pending_grace_minutes, now) {
                    let since = status_time_or(p, now);
                    let duration_minutes = minutes_between(now, since);
                    let (reason, message) = extract_pod_failure_info(p);
                    let rec = FailedPodInfo {
                        namespace: String::from_str(namespace),
                        pod: nm.clone(),
                        since,
                        duration_minutes,
                        reason,
                        message,
                    };
                    out.push(rec);
                    proof {
                        assert(out@.map_values(|x: FailedPodInfo| x@) =~= spec_failed_pods(
                            namespace@,
                            cfg.pending_grace_minutes,
                            now,
                            pods@.subrange(0, i + 1),
                        ));
                    }
                }
            },
            None => {},
        }
        i = i + 1;
    }
    proof {
        assert(pods@.subrange(0, n as int) =~= pods@);
    }
    out
}

// ---------------------------------------------------------------------------
// unready workloads
// ---------------------------------------------------------------------------

/// Some condition of type `Ready` reports the value `True`.
pub open spec fn spec_has_ready_true(conds: Seq<ConditionSnapshot>) -> bool {
    exists|i: int|
        0 <= i < conds.len() && (#[trigger] conds[i]).kind@ == "Ready"@ && conds[i].status@
            == "True"@
}

fn has_ready_true(conds: &Vec<ConditionSnapshot>) -> (r: bool)
    ensures
        r == spec_has_ready_true(conds@),
{
    let n = conds.len();
    let mut i: usize = 0;
    while i < n
        invariant
            i <= n,
            n == conds@.len(),
            forall|j: int|
                0 <= j < i ==> !((#[trigger] conds@[j]).kind@ == "Ready"@ && conds@[j].status@
                    == "True"@),
        decreases n - i,
    {
        let c = &conds[i];
        if str_eq(c.kind.as_str(), "Ready") && str_eq(c.status.as_str(), "True") {
            return true;
        }
        i = i + 1;
    }
    false
}

/// A running workload that is not ready, past the grace period.
pub open spec fn spec_is_unready_over_grace(p: WorkloadSnapshot, grace: i64, now: i64) -> bool {
    &&& p.phase matches Some(ph) && ph@ == "Running"@
    &&& !spec_has_ready_true(p.conditions@)
    &&& now - status_or_now(p, now) > grace * 60
}

/// Phase, readiness and grace check for an unready workload.
pub fn is_unready_over_grace(p: &WorkloadSnapshot, grace_minutes: i64, now: i64) -> (r: bool)
    ensures
        r == spec_is_unready_over_grace(*p, grace_minutes, now),
{
    if !opt_str_is(&p.phase, "Running") {
        return false;
    }
    if has_ready_true(&p.conditions) {
        return false;
    }
    let since = status_time_or(p, now);
    after_grace(now, since, grace_minutes)
}

/// The lines describing each false condition: `<type>: <message-or-Unknown>`.
pub open spec fn spec_failed_condition_lines(conds: Seq<ConditionSnapshot>) -> Seq<Seq<char>>
    decreases conds.len(),
{
    if conds.len() == 0 {
        Seq::empty()
    } else {
        let rest = spec_failed_condition_lines(conds.drop_last());
        let c = conds[conds.len() - 1];
        if c.status@ == "False"@ {
            rest.push(
                c.kind@ + ": "@ + match c.message {
                    Some(m) => m@,
                    None => "Unknown"@,
                },
            )
        } else {
            rest
        }
    }
}

/// Formats every condition whose status is false.
pub fn extract_failed_conditions(p: &WorkloadSnapshot) -> (r: Vec<String>)
    ensures
        r@.map_values(|s: String| s@) == spec_failed_condition_lines(p.conditions@),
{
    let mut out: Vec<String> = Vec::new();
    let n = p.conditions.len();
    let mut i: usize = 0;
    while i < n
        invariant
            i <= n,
            n == p.conditions@.len(),
            out@.map_values(|s: String| s@) == spec_failed_condition_lines(
                p.conditions@.subrange(0, i as int),
            ),
        decreases n - i,
    {
        let c = &p.conditions[i];
        proof {
            assert(p.conditions@.subrange(0, i + 1).drop_last() =~= p.conditions@.subrange(
                0,
                i as int,
            ));
            assert(p.conditions@.subrange(0, i + 1)[i as int] == p.conditions@[i as int]);
        }
        if str_eq(c.status.as_str(), "False") {
            let mut line = c.kind.clone();
            line.append(": ");
            match &c.message {
                Some(m) => line.append(m.as_str()),
                None => line.append("Unknown"),
            }
            out.push(line);
            proof {
                assert(out@.map_values(|s: String| s@) =~= spec_failed_condition_lines(
                    p.conditions@.subrange(0, i + 1),
                ));
            }
        }
        i = i + 1;
    }
    proof {
        assert(p.conditions@.subrange(0, n as int) =~= p.conditions@);
    }
    out
}

/// The unready-workload issues, one per named running-but-unready workload
/// past grace, in input order.
pub open spec fn spec_unready_pods(
    ns: Seq<char>,
    grace: i64,
    now: i64,
    pods: Seq<WorkloadSnapshot>,
) -> Seq<(Seq<char>, Seq<char>, i64, i64, Seq<Seq<char>>)>
    decreases pods.len(),
{
    if pods.len() == 0 {
        Seq::empty()
    } else {
        let rest = spec_unready_pods(ns, grace, now, pods.drop_last());
        let p = pods[pods.len() - 1];
        if p.name is Some && spec_is_unready_over_grace(p, grace, now) {
            rest.push(
                (
                    ns,
                    p.name->0@,
                    status_or_now(p, now),
                    trunc_div(now - status_or_now(p, now), 60) as i64,
                    spec_failed_condition_lines(p.conditions@),
                ),
            )
        } else {
            rest
        }
    }
}

/// Reports running workloads that have not become ready within the grace
/// period, with every false condition attached.
pub fn analyze_unready_pods_with_pods(
    namespace: &str,
    cfg: &Config,
    pods: &Vec<WorkloadSnapshot>,
    now: i64,
) -> (r: Vec<UnreadyPodInfo>)
    ensures
        r@.map_values(|x: UnreadyPodInfo| x@) == spec_unready_pods(
            namespace@,
            cfg.pending_grace_minutes,
            now,
            pods@,
        ),
{
    let mut out: Vec<UnreadyPodInfo> = Vec::new();
    let n = pods.len();
    let mut i: usize = 0;
    while i < n
        invariant
            i <= n,
            n == pods@.len(),
            out@.map_values(|x: UnreadyPodInfo| x@) == spec_unready_pods(
                namespace@,
                cfg.pending_grace_minutes,
                now,
                pods@.subrange(0, i as int),
            ),
        decreases n - i,
    {
        let p = &pods[i];
        proof {
            assert(pods@.subrange(0, i + 1).drop_last() =~= pods@.subrange(0, i as int));
            assert(pods@.subrange(0, i + 1)[i as int] == pods@[i as int]);
        }
        match &p.name {
            Some(nm) => {
                if is_unready_over_grace(p, cfg.pending_grace_minutes, now) {
                    let since = status_time_or(p, now);
                    let duration_minutes = minutes_between(now, since);
                    let failed_conditions = extract_failed_conditions(p);
                    let rec = UnreadyPodInfo {
                        namespace: String::from_str(namespace),
                        pod: nm.clone(),
                        since,
                        duration_minutes,
                        failed_conditions,
                    };
                    out.push(rec);
                    proof {
                        assert(out@.map_values(|x: UnreadyPodInfo| x@) =~= spec_unready_pods(
                            namespace@,
                            cfg.pending_grace_minutes,
                            now,
                            pods@.subrange(0, i + 1),
                        ));
                    }
                }
            },
            None => {},
        }
        i = i + 1;
    }
    proof {
        assert(pods@.subrange(0, n as int) =~= pods@);
    }
    out
}

// ---------------------------------------------------------------------------
// container restarts
// ---------------------------------------------------------------------------

/// The restart details of a container: the last terminated state is
/// preferred; a current waiting state is the fallback, with no timestamp.
pub open spec fn spec_extract_restart(cs: ContainerStatusSnapshot) -> (
    Option<i64>,
    Option<Seq<char>>,
    Option<Seq<char>>,
    Option<i32>,
) {
    match cs.last_terminated {
        Some(t) => (
            t.finished_at,
            view_opt_string(t.reason),
            view_opt_string(t.message),
            Some(t.exit_code),
        ),
        None => match cs.waiting {
            Some(w) => (None, view_opt_string(w.reason), view_opt_string(w.message), None),
            None => (None, None, None, None),
        },
    }
}

/// Last restart time, reason, message and exit code of a container.
pub fn extract_restart_info(cs: &ContainerStatusSnapshot) -> (r: (
    Option<i64>,
    Option<String>,
    Option<String>,
    Option<i32>,
))
    ensures
        r.0 == spec_extract_restart(*cs).0,
        view_opt_string(r.1) == spec_extract_restart(*cs).1,
        view_opt_string(r.2) == spec_extract_restart(*cs).2,
        r.3 == spec_extract_restart(*cs).3,
{
    match &cs.last_terminated {
        Some(t) => (
            t.finished_at,
            clone_opt_string(&t.reason),
            clone_opt_string(&t.message),
            Some(t.exit_code),
        ),
        None => match &cs.waiting {
            Some(w) => (None, clone_opt_string(&w.reason), clone_opt_string(&w.message), None),
            None => (None, None, None, None),
        },
    }
}

/// A restart event is reported when the last-known restart time lies
/// strictly after the grace cutoff, or when no timestamp is known and the
/// capture instant is already past the cutoff.
pub open spec fn spec_restart_included(
    cs: ContainerStatusSnapshot,
    since: i64,
    grace: i64,
    now: i64,
) -> bool {
    match spec_extract_restart(cs).0 {
        Some(t) => t > since + grace * 60,
        None => now > since + grace * 60,
    }
}

/// The restart issues of one workload's containers, in input order.
pub open spec fn spec_restarts_for_pod(
    ns: Seq<char>,
    pod: Seq<char>,
    statuses: Seq<ContainerStatusSnapshot>,
    since: i64,
    grace: i64,
    now: i64,
) -> Seq<(Seq<char>, Seq<char>, Seq<char>, Option<i64>, Option<Seq<char>>, Option<Seq<char>>, Option<i32>)>
    decreases statuses.len(),
{
    if statuses.len() == 0 {
        Seq::empty()
    } else {
        let rest = spec_restarts_for_pod(ns, pod, statuses.drop_last(), since, grace, now);
        let cs = statuses[statuses.len() - 1];
        if cs.restart_count > 0 && spec_restart_included(cs, since, grace, now) {
            let e = spec_extract_restart(cs);
            rest.push((ns, pod, cs.name@, e.0, e.1, e.2, e.3))
        } else {
            rest
        }
    }
}

/// The restart issues over all workloads, in input order.
pub open spec fn spec_restarts(
    ns: Seq<char>,
    grace: i64,
    now: i64,
    pods: Seq<WorkloadSnapshot>,
) -> Seq<(Seq<char>, Seq<char>, Seq<char>, Option<i64>, Option<Seq<char>>, Option<Seq<char>>, Option<i32>)>
    decreases pods.len(),
{
    if pods.len() == 0 {
        Seq::empty()
    } else {
        let rest = spec_restarts(ns, grace, now, pods.drop_last());
        let p = pods[pods.len() - 1];
        if p.name is Some {
            rest + spec_restarts_for_pod(
                ns,
                p.name->0@,
                p.container_statuses@,
                status_or_now(p, now),
                grace,
                now,
            )
        } else {
            rest
        }
    }
}

/// Reports container restarts observed past the restart grace period.
pub fn analyze_restarts_with_pods(
    namespace: &str,
    cfg: &Config,
    pods: &Vec<WorkloadSnapshot>,
    now: i64,
) -> (r: Vec<RestartEventInfo>)
    ensures
        r@.map_values(|x: RestartEventInfo| x@) == spec_restarts(
            namespace@,
            cfg.restart_grace_minutes,
            now,
            pods@,
        ),
{
    let mut out: Vec<RestartEventInfo> = Vec::new();
    let n = pods.len();
    let mut i: usize = 0;
    while i < n
        invariant
            i <= n,
            n == pods@.len(),
            out@.map_values(|x: RestartEventInfo| x@) == spec_restarts(
                namespace@,
                cfg.restart_grace_minutes,
                now,
                pods@.subrange(0, i as int),
            ),
        decreases n - i,
    {
        let p = &pods[i];
        proof {
            assert(pods@.subrange(0, i + 1).drop_last() =~= pods@.subrange(0, i as int));
            assert(pods@.subrange(0, i + 1)[i as int] == pods@[i as int]);
        }
        match &p.name {
            Some(nm) => {
                let since = status_time_or(p, now);
                let m = p.container_statuses.len();
                let mut j: usize = 0;
                while j < m
                    invariant
                        j <= m,
                        m == p.container_statuses@.len(),
                        i < n,
                        n == pods@.len(),
                        p == &pods[i as int],
                        p.name matches Some(nm2) && nm2 == nm,
                        since == status_or_now(*p, now),
                        out@.map_values(|x: RestartEventInfo| x@) == spec_restarts(
                            namespace@,
                            cfg.restart_grace_minutes,
                            now,
                            pods@.subrange(0, i as int),
                        ) + spec_restarts_for_pod(
                            namespace@,
                            nm@,
                            p.container_statuses@.subrange(0, j as int),
                            since,
                            cfg.restart_grace_minutes,
                            now,
                        ),
                    decreases m - j,
                {
                    let cs = &p.container_statuses[j];
                    proof {
                        assert(p.container_statuses@.subrange(0, j + 1).drop_last()
                            =~= p.container_statuses@.subrange(0, j as int));
                        assert(p.container_statuses@.subrange(0, j + 1)[j as int]
                            == p.container_statuses@[j as int]);
                    }
                    if cs.restart_count > 0 {
                        let (last_restart_time, reason, message, exit_code) = extract_restart_info(
                            cs,
                        );
                        let report_it = match last_restart_time {
                            Some(ts) => after_cutoff(ts, since, cfg.restart_grace_minutes),
                            None => after_cutoff(now, since, cfg.restart_grace_minutes),
                        };
                        if report_it {
                            let rec = RestartEventInfo {
                                namespace: String::from_str(namespace),
                                pod: nm.clone(),
                                container: cs.name.clone(),
                                last_restart_time,
                                reason,
                                message,
                                exit_code,
                            };
                            let ghost prev = out@;
                            out.push(rec);
                            proof {
                                let csj = p.container_statuses@[j as int];
                                let pre = p.container_statuses@.subrange(0, j as int);
                                let cur = p.container_statuses@.subrange(0, j + 1);
                                let e = spec_extract_restart(csj);
                                let tup = (namespace@, nm@, csj.name@, e.0, e.1, e.2, e.3);
                                let a = spec_restarts(
                                    namespace@,
                                    cfg.restart_grace_minutes,
                                    now,
                                    pods@.subrange(0, i as int),
                                );
                                let b = spec_restarts_for_pod(
                                    namespace@,
                                    nm@,
                                    pre,
                                    since,
                                    cfg.restart_grace_minutes,
                                    now,
                                );
                                assert(rec@ == tup);
                                assert(spec_restarts_for_pod(
                                    namespace@,
                                    nm@,
                                    cur,
                                    since,
                                    cfg.restart_grace_minutes,
                                    now,
                                ) == b.push(tup));
                                assert(out@.map_values(|x: RestartEventInfo| x@) =~= prev.map_values(
                                    |x: RestartEventInfo| x@,
                                ).push(rec@));
                                assert((a + b).push(tup) =~= a + b.push(tup));
                            }
                        }
                    }
                    j = j + 1;
                }
                proof {
                    assert(p.container_statuses@.subrange(0, m as int) =~= p.container_statuses@);
                }
            },
            None => {
                proof {
                    assert(spec_restarts(
                        namespace@,
                        cfg.restart_grace_minutes,
                        now,
                        pods@.subrange(0, i + 1),
                    ) =~= spec_restarts(
                        namespace@,
                        cfg.restart_grace_minutes,
                        now,
                        pods@.subrange(0, i as int),
                    ));
                }
            },
        }
        i = i + 1;
    }
    proof {
        assert(pods@.subrange(0, n as int) =~= pods@);
    }
    out
}

// ---------------------------------------------------------------------------
// OOM-killed containers
// ---------------------------------------------------------------------------

/// A container qualifies when its most recent terminated state says
/// `OOMKilled` and the finish time lies after the grace cutoff, or no finish
/// time is known and the capture instant is already past the cutoff.
pub open spec fn spec_oom_qualifies(
    cs: ContainerStatusSnapshot,
    since: i64,
    grace: i64,
    now: i64,
) -> bool {
    &&& cs.last_terminated matches Some(t)
    &&& t.reason matches Some(rsn) && rsn@ == "OOMKilled"@
    &&& match cs.last_terminated->0.finished_at {
        Some(ft) => ft > since + grace * 60,
        None => now > since + grace * 60,
    }
}

/// Inspects a container's last terminated state for an OOM kill past the
/// grace cutoff, returning the finish time when it qualifies.
pub fn extract_oom_info(
    cs: &ContainerStatusSnapshot,
    since: i64,
    grace_minutes: i64,
    now: i64,
) -> (r: Option<Option<i64>>)
    ensures
        r is Some <==> spec_oom_qualifies(*cs, since, grace_minutes, now),
        r is Some ==> r->0 == cs.last_terminated->0.finished_at,
{
    match &cs.last_terminated {
        Some(t) => {
            if !opt_str_is(&t.reason, "OOMKilled") {
                return None;
            }
            match t.finished_at {
                Some(ft) => if after_cutoff(ft, since, grace_minutes) {
                    Some(Some(ft))
                } else {
                    None
                },
                None => if after_cutoff(now, since, grace_minutes) {
                    Some(None)
                } else {
                    None
                },
            }
        },
        None => None,
    }
}

/// The OOM issues of one workload's containers, in input order.
pub open spec fn spec_oom_for_pod(
    ns: Seq<char>,
    pod: Seq<char>,
    statuses: Seq<ContainerStatusSnapshot>,
    since: i64,
    grace: i64,
    now: i64,
) -> Seq<(Seq<char>, Seq<char>, Seq<char>, Option<i64>, i32)>
    decreases statuses.len(),
{
    if statuses.len() == 0 {
        Seq::empty()
    } else {
        let rest = spec_oom_for_pod(ns, pod, statuses.drop_last(), since, grace, now);
        let cs = statuses[statuses.len() - 1];
        if spec_oom_qualifies(cs, since, grace, now) {
            rest.push((ns, pod, cs.name@, cs.last_terminated->0.finished_at, cs.restart_count))
        } else {
            rest
        }
    }
}

/// The OOM issues over all workloads, in input order.
pub open spec fn spec_oom_killed(
    ns: Seq<char>,
    grace: i64,
    now: i64,
    pods: Seq<WorkloadSnapshot>,
) -> Seq<(Seq<char>, Seq<char>, Seq<char>, Option<i64>, i32)>
    decreases pods.len(),
{
    if pods.len() == 0 {
        Seq::empty()
    } else {
        let rest = spec_oom_killed(ns, grace, now, pods.drop_last());
        let p = pods[pods.len() - 1];
        if p.name is Some {
            rest + spec_oom_for_pod(
                ns,
                p.name->0@,
                p.container_statuses@,
                status_or_now(p, now),
                grace,
                now,
            )
        } else {
            rest
        }
    }
}

/// Reports containers whose most recent termination was an OOM kill past
/// the restart grace cutoff.
pub fn analyze_oom_killed_with_pods(
    namespace: &str,
    cfg: &Config,
    pods: &Vec<WorkloadSnapshot>,
    now: i64,
) -> (r: Vec<OomKilledInfo>)
    ensures
        r@.map_values(|x: OomKilledInfo| x@) == spec_oom_killed(
            namespace@,
            cfg.restart_grace_minutes,
            now,
            pods@,
        ),
{
    let mut out: Vec<OomKilledInfo> = Vec::new();
    let n = pods.len();
    let mut i: usize = 0;
    while i < n
        invariant
            i <= n,
            n == pods@.len(),
            out@.map_values(|x: OomKilledInfo| x@) == spec_oom_killed(
                namespace@,
                cfg.restart_grace_minutes,
                now,
                pods@.subrange(0, i as int),
            ),
        decreases n - i,
    {
        let p = &pods[i];
        proof {
            assert(pods@.subrange(0, i + 1).drop_last() =~= pods@.subrange(0, i as int));
            assert(pods@.subrange(0, i + 1)[i as int] == pods@[i as int]);
        }
        match &p.name {
            Some(nm) => {
                let since = status_time_or(p, now);
                let m = p.container_statuses.len();
                let mut j: usize = 0;
                while j < m
                    invariant
                        j <= m,
                        m == p.container_statuses@.len(),
                        i < n,
                        n == pods@.len(),
                        p == &pods[i as int],
                        p.name matches Some(nm2) && nm2 == nm,
                        since == status_or_now(*p, now),
                        out@.map_values(|x: OomKilledInfo| x@) == spec_oom_killed(
                            namespace@,
                            cfg.restart_grace_minutes,
                            now,
                            pods@.subrange(0, i as int),
                        ) + spec_oom_for_pod(
                            namespace@,
                            nm@,
                            p.container_statuses@.subrange(0, j as int),
                            since,
                            cfg.restart_grace_minutes,
                            now,
                        ),
                    decreases m - j,
                {
                    let cs = &p.container_statuses[j];
                    proof {
                        assert(p.container_statuses@.subrange(0, j + 1).drop_last()
                            =~= p.container_statuses@.subrange(0, j as int));
                        assert(p.container_statuses@.subrange(0, j + 1)[j as int]
                            == p.container_statuses@[j as int]);
                    }
                    match extract_oom_info(cs, since, cfg.restart_grace_minutes, now) {
                        Some(last_oom_time) => {
                            let rec = OomKilledInfo {
                                namespace: String::from_str(namespace),
                                pod: nm.clone(),
                                container: cs.name.clone(),
                                last_oom_time,
                                restart_count: cs.restart_count,
                            };
                            let ghost prev = out@;
                            out.push(rec);
                            proof {
                                let csj = p.container_statuses@[j as int];
                                let pre = p.container_statuses@.subrange(0, j as int);
                                let cur = p.container_statuses@.subrange(0, j + 1);
                                let tup = (
                                    namespace@,
                                    nm@,
                                    csj.name@,
                                    csj.last_terminated->0.finished_at,
                                    csj.restart_count,
                                );
                                let a = spec_oom_killed(
                                    namespace@,
                                    cfg.restart_grace_minutes,
                                    now,
                                    pods@.subrange(0, i as int),
                                );
                                let b = spec_oom_for_pod(
                                    namespace@,
                                    nm@,
                                    pre,
                                    since,
                                    cfg.restart_grace_minutes,
                                    now,
                                );
                                assert(rec@ == tup);
                                assert(spec_oom_for_pod(
                                    namespace@,
                                    nm@,
                                    cur,
                                    since,
                                    cfg.restart_grace_minutes,
                                    now,
                                ) == b.push(tup));
                                assert(out@.map_values(|x: OomKilledInfo| x@) =~= prev.map_values(
                                    |x: OomKilledInfo| x@,
                                ).push(rec@));
                                assert((a + b).push(tup) =~= a + b.push(tup));
                            }
                        },
                        None => {},
                    }
                    j = j + 1;
                }
                proof {
                    assert(p.container_statuses@.subrange(0, m as int) =~= p.container_statuses@);
                }
            },
            None => {
                proof {
                    assert(spec_oom_killed(
                        namespace@,
                        cfg.restart_grace_minutes,
                        now,
                        pods@.subrange(0, i + 1),
                    ) =~= spec_oom_killed(
                        namespace@,
                        cfg.restart_grace_minutes,
                        now,
                        pods@.subrange(0, i as int),
                    ));
                }
            },
        }
        i = i + 1;
    }
    proof {
        assert(pods@.subrange(0, n as int) =~= pods@);
    }
    out
}

// ---------------------------------------------------------------------------
// heavy resource usage
// ---------------------------------------------------------------------------

/// Sums declared requests across a workload's containers.  A resource that
/// no container declares stays absent; additions saturate at the `i64`
/// bounds.
pub open spec fn spec_sum_requests(cs: Seq<ContainerSpecSnapshot>) -> PodRequestTotals
    decreases cs.len(),
{
    if cs.len() == 0 {
        PodRequestTotals { cpu_millicores: None, memory_bytes: None }
    } else {
        let acc = spec_sum_requests(cs.drop_last());
        let c = cs[cs.len() - 1];
        let cpu = match c.cpu_request {
            Some(q) => match spec_parse_cpu(q@) {
                Some(mc) => Some(
                    sat_add_i64(
                        match acc.cpu_millicores {
                            Some(x) => x,
                            None => 0,
                        },
                        mc,
                    ),
                ),
                None => acc.cpu_millicores,
            },
            None => acc.cpu_millicores,
        };
        let mem = match c.memory_request {
            Some(q) => match spec_parse_memory(q@) {
                Some(b) => Some(
                    sat_add_i64(
                        match acc.memory_bytes {
                            Some(x) => x,
                            None => 0,
                        },
                        b,
                    ),
                ),
                None => acc.memory_bytes,
            },
            None => acc.memory_bytes,
        };
        PodRequestTotals { cpu_millicores: cpu, memory_bytes: mem }
    }
}

/// Sums the declared CPU and memory requests of a workload's containers,
/// tracking per resource whether any container declared it.
pub fn sum_requests(p: &WorkloadSnapshot) -> (r: PodRequestTotals)
    ensures
        r == spec_sum_requests(p.containers@),
{
    let mut acc = PodRequestTotals { cpu_millicores: None, memory_bytes: None };
    let n = p.containers.len();
    let mut i: usize = 0;
    while i < n
        invariant
            i <= n,
            n == p.containers@.len(),
            acc == spec_sum_requests(p.containers@.subrange(0, i as int)),
        decreases n - i,
    {
        let c = &p.containers[i];
        proof {
            assert(p.containers@.subrange(0, i + 1).drop_last() =~= p.containers@.subrange(
                0,
                i as int,
            ));
            assert(p.containers@.subrange(0, i + 1)[i as int] == p.containers@[i as int]);
        }
        let cpu = match &c.cpu_request {
            Some(q) => match parse_cpu_to_millicores(q.as_str()) {
                Some(mc) => Some(
                    sat_add(
                        match acc.cpu_millicores {
                            Some(x) => x,
                            None => 0,
                        },
                        mc,
                    ),
                ),
                None => acc.cpu_millicores,
            },
            None => acc.cpu_millicores,
        };
        let mem = match &c.memory_request {
            Some(q) => match parse_memory_to_bytes(q.as_str()) {
                Some(b) => Some(
                    sat_add(
                        match acc.memory_bytes {
                            Some(x) => x,
                            None => 0,
                        },
                        b,
                    ),
                ),
                None => acc.memory_bytes,
            },
            None => acc.memory_bytes,
        };
        acc = PodRequestTotals { cpu_millicores: cpu, memory_bytes: mem };
        i = i + 1;
    }
    proof {
        assert(p.containers@.subrange(0, n as int) =~= p.containers@);
    }
    acc
}

/// The heavy-usage issues: one per named workload whose measured usage is
/// found and whose utilization check is defined and true, in input order.
pub open spec fn spec_heavy_usage(
    ns: Seq<char>,
    t: Threshold,
    pods: Seq<WorkloadSnapshot>,
    entries: Seq<(Seq<char>, PodUsageTotals)>,
) -> Seq<(Seq<char>, Seq<char>, Option<Percentage>, Option<Percentage>)>
    decreases pods.len(),
{
    if pods.len() == 0 {
        Seq::empty()
    } else {
        let rest = spec_heavy_usage(ns, t, pods.drop_last(), entries);
        let p = pods[pods.len() - 1];
        if p.name is Some {
            match spec_lookup_usage(entries, p.name->0@) {
                Some(u) => {
                    let rq = spec_sum_requests(p.containers@);
                    let cpu = spec_cpu_utilization(u, rq);
                    let mem = spec_mem_utilization(u, rq);
                    if spec_any_exceeds(cpu, mem, t) == Some(true) {
                        rest.push((ns, p.name->0@, cpu, mem))
                    } else {
                        rest
                    }
                },
                None => rest,
            }
        } else {
            rest
        }
    }
}

/// Reports workloads whose measured usage exceeds the threshold against
/// their declared requests.  Usage is looked up by workload name in the map
/// built from the metrics items.
pub fn analyze_heavy_usage_with_pods(
    namespace: &str,
    cfg: &Config,
    pods: &Vec<WorkloadSnapshot>,
    metrics_items: &Vec<PodMetricsSnapshot>,
) -> (r: Vec<HeavyUsagePod>)
    ensures
        r@.map_values(|x: HeavyUsagePod| x@) == spec_heavy_usage(
            namespace@,
            cfg.threshold_percent,
            pods@,
            spec_usage_entries(metrics_items@),
        ),
{
    let usage_by_pod = build_usage_map_from_http(metrics_items);
    let ghost entries = spec_usage_entries(metrics_items@);
    let mut out: Vec<HeavyUsagePod> = Vec::new();
    let n = pods.len();
    let mut i: usize = 0;
    while i < n
        invariant
            i <= n,
            n == pods@.len(),
            usage_by_pod@.map_values(|e: (String, PodUsageTotals)| (e.0@, e.1)) == entries,
            entries == spec_usage_entries(metrics_items@),
            out@.map_values(|x: HeavyUsagePod| x@) == spec_heavy_usage(
                namespace@,
                cfg.threshold_percent,
                pods@.subrange(0, i as int),
                entries,
            ),
        decreases n - i,
    {
        let p = &pods[i];
        proof {
            assert(pods@.subrange(0, i + 1).drop_last() =~= pods@.subrange(0, i as int));
            assert(pods@.subrange(0, i + 1)[i as int] == pods@[i as int]);
        }
        match &p.name {
            Some(nm) => {
                match usage_for(&usage_by_pod, nm) {
                    Some(usage) => {
                        let requests = sum_requests(p);
                        let (cpu_pct, mem_pct) = compute_utilization_percentages(
                            &usage,
                            &requests,
                        );
                        let exceeds = any_exceeds(cpu_pct, mem_pct, cfg.threshold_percent);
                        match exceeds {
                            Some(true) => {
                                let rec = HeavyUsagePod {
                                    namespace: String::from_str(namespace),
                                    pod: nm.clone(),
                                    cpu_pct,
                                    mem_pct,
                                };
                                out.push(rec);
                                proof {
                                    assert(out@.map_values(|x: HeavyUsagePod| x@)
                                        =~= spec_heavy_usage(
                                        namespace@,
                                        cfg.threshold_percent,
                                        pods@.subrange(0, i + 1),
                                        entries,
                                    ));
                                }
                            },
                            _ => {},
                        }
                    },
                    None => {},
                }
            },
            None => {},
        }
        i = i + 1;
    }
    proof {
        assert(pods@.subrange(0, n as int) =~= pods@);
    }
    out
}

} // verus!
