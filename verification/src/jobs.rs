//! Batch analyzers: failed-job detection and the missed-recurring-run
//! heuristic.
//!
//! The missed-run detector reuses the pending grace period as the expected
//! scheduling interval.  That is a deliberate, known heuristic limitation:
//! for jobs scheduled less frequently than the grace period it over-reports
//! missed runs, and it is kept as-is for compatibility.

use vstd::prelude::*;

use crate::numtext::trunc_div;
use crate::text::str_eq;
use crate::types::Config;
use crate::types::ConditionSnapshot;
use crate::types::CronJobSnapshot;
use crate::types::FailedJobInfo;
use crate::types::JobSnapshot;
use crate::types::MissedCronJobInfo;
use crate::types::view_opt_string;

verus! {

// ---------------------------------------------------------------------------
// failed jobs
// ---------------------------------------------------------------------------

/// Some condition of type `Failed` reports the value `True`.
pub open spec fn spec_has_failed_true(conds: Seq<ConditionSnapshot>) -> bool {
    exists|i: int|
        0 <= i < conds.len() && (#[trigger] conds[i]).kind@ == "Failed"@ && conds[i].status@
            == "True"@
}

fn has_failed_true(conds: &Vec<ConditionSnapshot>) -> (r: bool)
    ensures
        r == spec_has_failed_true(conds@),
{
    let n = conds.len();
    let mut i: usize = 0;
    while i < n
        invariant
            i <= n,
            n == conds@.len(),
            forall|j: int|
                0 <= j < i ==> !((#[trigger] conds@[j]).kind@ == "Failed"@ && conds@[j].status@
                    == "True"@),
        decreases n - i,
    {
        let c = &conds[i];
        if str_eq(c.kind.as_str(), "Failed") && str_eq(c.status.as_str(), "True") {
            return true;
        }
        i = i + 1;
    }
    false
}

/// The job carries a true `Failed` condition and its grace period, counted
/// from creation, has elapsed.
pub open spec fn spec_is_job_failed_over_grace(j: JobSnapshot, grace: i64, now: i64) -> bool {
    &&& spec_has_failed_true(j.conditions@)
    &&& now - (match j.creation_time {
        Some(t) => t,
        None => now,
    }) > grace * 60
}

/// Condition and grace check for a failed job.
pub fn is_job_failed_over_grace(j: &JobSnapshot, grace_minutes: i64, now: i64) -> (r: bool)
    ensures
        r == spec_is_job_failed_over_grace(*j, grace_minutes, now),
{
    if !has_failed_true(&j.conditions) {
        return false;
    }
    let since = match j.creation_time {
        Some(t) => t,
        None => now,
    };
    ((now as i128) - (since as i128)) > (grace_minutes as i128) * 60
}

/// The first condition of type `Failed`, whatever its status.
pub open spec fn spec_first_failed(conds: Seq<ConditionSnapshot>) -> Option<ConditionSnapshot>
    decreases conds.len(),
{
    if conds.len() == 0 {
        None
    } else if conds[0].kind@ == "Failed"@ {
        Some(conds[0])
    } else {
        spec_first_failed(conds.drop_first())
    }
}

/// The last-transition time and reason of the first `Failed` condition.
pub fn extract_job_failure_info(j: &JobSnapshot) -> (r: (Option<i64>, Option<String>))
    ensures
        ({
            let f = spec_first_failed(j.conditions@);
            &&& r.0 == match f {
                Some(c) => c.last_transition_time,
                None => None::<i64>,
            }
            &&& view_opt_string(r.1) == match f {
                Some(c) => view_opt_string(c.reason),
                None => None::<Seq<char>>,
            }
        }),
{
    let n = j.conditions.len();
    let mut i: usize = 0;
    proof {
        assert(j.conditions@.skip(0) =~= j.conditions@);
    }
    while i < n
        invariant
            i <= n,
            n == j.conditions@.len(),
            spec_first_failed(j.conditions@) == spec_first_failed(j.conditions@.skip(i as int)),
        decreases n - i,
    {
        let c = &j.conditions[i];
        proof {
            assert(j.conditions@.skip(i as int)[0] == j.conditions@[i as int]);
        }
        if str_eq(c.kind.as_str(), "Failed") {
            let reason = match &c.reason {
                Some(s) => Some(s.clone()),
                None => None,
            };
            return (c.last_transition_time, reason);
        }
        proof {
            assert(j.conditions@.skip(i as int).drop_first() =~= j.conditions@.skip(i + 1));
        }
        i = i + 1;
    }
    proof {
        assert(j.conditions@.skip(n as int) =~= Seq::<ConditionSnapshot>::empty());
    }
    (None, None)
}

/// The failed-job issues, one per named failed job past grace, in input
/// order.
pub open spec fn spec_failed_jobs(
    ns: Seq<char>,
    grace: i64,
    now: i64,
    jobs: Seq<JobSnapshot>,
) -> Seq<(Seq<char>, Seq<char>, i32, Option<i64>, Option<Seq<char>>)>
    decreases jobs.len(),
{
    if jobs.len() == 0 {
        Seq::empty()
    } else {
        let rest = spec_failed_jobs(ns, grace, now, jobs.drop_last());
        let j = jobs[jobs.len() - 1];
        if j.name is Some && spec_is_job_failed_over_grace(j, grace, now) {
            let f = spec_first_failed(j.conditions@);
            rest.push(
                (
                    ns,
                    j.name->0@,
                    match j.failed_count {
                        Some(c) => c,
                        None => 0,
                    },
                    match f {
                        Some(c) => c.last_transition_time,
                        None => None::<i64>,
                    },
                    match f {
                        Some(c) => view_opt_string(c.reason),
                        None => None::<Seq<char>>,
                    },
                ),
            )
        } else {
            rest
        }
    }
}

/// Reports jobs carrying a true `Failed` condition past the grace period,
/// with their failure count, last failure time and reason.
pub fn analyze_failed_jobs(
    namespace: &str,
    cfg: &Config,
    jobs: &Vec<JobSnapshot>,
    now: i64,
) -> (r: Vec<FailedJobInfo>)
    ensures
        r@.map_values(|x: FailedJobInfo| x@) == spec_failed_jobs(
            namespace@,
            cfg.pending_grace_minutes,
            now,
            jobs@,
        ),
{
    let mut out: Vec<FailedJobInfo> = Vec::new();
    let n = jobs.len();
    let mut i: usize = 0;
    while i < n
        invariant
            i <= n,
            n == jobs@.len(),
            out@.map_values(|x: FailedJobInfo| x@) == spec_failed_jobs(
                namespace@,
                cfg.pending_grace_minutes,
                now,
                jobs@.subrange(0, i as int),
            ),
        decreases n - i,
    {
        let j = &jobs[i];
        proof {
            assert(jobs@.subrange(0, i + 1).drop_last() =~= jobs@.subrange(0, i as int));
            assert(jobs@.subrange(0, i + 1)[i as int] == jobs@[i as int]);
        }
        match &j.name {
            Some(nm) => {
                if is_job_failed_over_grace(j, cfg.pending_grace_minutes, now) {
                    let failed_pods = match j.failed_count {
                        Some(c) => c,
                        None => 0,
                    };
                    let (last_failure_time, reason) = extract_job_failure_info(j);
                    let rec = FailedJobInfo {
                        namespace: String::from_str(namespace),
                        job: nm.clone(),
                        failed_pods,
                        last_failure_time,
                        reason,
                    };
                    out.push(rec);
                    proof {
                        assert(out@.map_values(|x: FailedJobInfo| x@) =~= spec_failed_jobs(
                            namespace@,
                            cfg.pending_grace_minutes,
                            now,
                            jobs@.subrange(0, i + 1),
                        ));
                    }
                }
            },
            None => {},
        }
        i = i + 1;
    }
    proof {
        assert(jobs@.subrange(0, n as int) =~= jobs@);
    }
    out
}

// ---------------------------------------------------------------------------
// missed recurring runs
// ---------------------------------------------------------------------------

/// The expected next run is one grace period after the last schedule.  When
/// the capture instant lies strictly past it, the missed-run count is the
/// whole minutes since then divided by the grace period, plus one.
pub open spec fn spec_missed_runs(last_schedule: i64, grace: i64, now: i64) -> Option<(i64, i64)> {
    let expected_next = last_schedule + grace * 60;
    if now > expected_next {
        Some((last_schedule, (trunc_div(now - expected_next, 60) / (grace as int) + 1) as i64))
    } else {
        None
    }
}

/// Computes the missed-run count of one recurring job, when runs were
/// missed.
pub fn extract_missed_runs(c: &CronJobSnapshot, grace_minutes: i64, now: i64) -> (r: Option<
    (i64, i64),
>)
    requires
        grace_minutes >= 1,
    ensures
        r == match c.last_schedule_time {
            Some(ls) => spec_missed_runs(ls, grace_minutes, now),
            None => None::<(i64, i64)>,
        },
{
    match c.last_schedule_time {
        Some(ls) => {
            let expected_next: i128 = (ls as i128) + (grace_minutes as i128) * 60;
            if (now as i128) > expected_next {
                let late: i128 = (now as i128) - expected_next;
                let minutes: i128 = late / 60;
                let missed: i128 = minutes / (grace_minutes as i128) + 1;
                proof {
                    // `late` is at most the span of two i64 instants, so the
                    // minute count and the run count stay well inside i64.
                    vstd::arithmetic::div_mod::lemma_div_pos_is_pos(late as int, 60);
                    vstd::arithmetic::div_mod::lemma_div_is_ordered(
                        late as int,
                        18446744073709551616,
                        60,
                    );
                    assert(18446744073709551616int / 60 == 307445734561825860);
                    vstd::arithmetic::div_mod::lemma_div_pos_is_pos(
                        minutes as int,
                        grace_minutes as int,
                    );
                    vstd::arithmetic::div_mod::lemma_div_nonincreasing(
                        minutes as int,
                        grace_minutes as int,
                    );
                }
                Some((ls, missed as i64))
            } else {
                None
            }
        },
        None => None,
    }
}

/// The missed-run issues, one per named recurring job with a last-schedule
/// time and missed runs, in input order.
pub open spec fn spec_missed_cronjobs(
    ns: Seq<char>,
    grace: i64,
    now: i64,
    crons: Seq<CronJobSnapshot>,
) -> Seq<(Seq<char>, Seq<char>, i64, i64)>
    decreases crons.len(),
{
    if crons.len() == 0 {
        Seq::empty()
    } else {
        let rest = spec_missed_cronjobs(ns, grace, now, crons.drop_last());
        let c = crons[crons.len() - 1];
        if c.name is Some && c.last_schedule_time is Some {
            match spec_missed_runs(c.last_schedule_time->0, grace, now) {
                Some(m) => rest.push((ns, c.name->0@, m.0, m.1)),
                None => rest,
            }
        } else {
            rest
        }
    }
}

/// Reports recurring jobs whose expected next run has not happened, using
/// the grace period as the expected interval.
pub fn analyze_missed_cronjobs(
    namespace: &str,
    grace_minutes: i64,
    crons: &Vec<CronJobSnapshot>,
    now: i64,
) -> (r: Vec<MissedCronJobInfo>)
    requires
        grace_minutes >= 1,
    ensures
        r@.map_values(|x: MissedCronJobInfo| x@) == spec_missed_cronjobs(
            namespace@,
            grace_minutes,
            now,
            crons@,
        ),
{
    let mut out: Vec<MissedCronJobInfo> = Vec::new();
    let n = crons.len();
    let mut i: usize = 0;
    while i < n
        invariant
            i <= n,
            n == crons@.len(),
            grace_minutes >= 1,
            out@.map_values(|x: MissedCronJobInfo| x@) == spec_missed_cronjobs(
                namespace@,
                grace_minutes,
                now,
                crons@.subrange(0, i as int),
            ),
        decreases n - i,
    {
        let c = &crons[i];
        proof {
            assert(crons@.subrange(0, i + 1).drop_last() =~= crons@.subrange(0, i as int));
            assert(crons@.subrange(0, i + 1)[i as int] == crons@[i as int]);
        }
        match &c.name {
            Some(nm) => {
                if c.last_schedule_time.is_some() {
                    match extract_missed_runs(c, grace_minutes, now) {
                        Some(m) => {
                            let rec = MissedCronJobInfo {
                                namespace: String::from_str(namespace),
                                cronjob: nm.clone(),
                                last_schedule_time: m.0,
                                missed_runs: m.1,
                            };
                            out.push(rec);
                            proof {
                                assert(out@.map_values(|x: MissedCronJobInfo| x@)
                                    =~= spec_missed_cronjobs(
                                    namespace@,
                                    grace_minutes,
                                    now,
                                    crons@.subrange(0, i + 1),
                                ));
                            }
                        },
                        None => {},
                    }
                }
            },
            None => {},
        }
        i = i + 1;
    }
    proof {
        assert(crons@.subrange(0, n as int) =~= crons@);
    }
    out
}

} // verus!
