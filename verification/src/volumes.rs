//! Volume analyzer: mount-failure detection from workload container
//! statuses.  A waiting reason containing `Mount` or `Volume` is classified
//! as a mount failure, one issue per offending container.
//!
//! Usage-based volume detection requires storage metrics that are not
//! collected here and stays out of scope.

use vstd::prelude::*;
use vstd::string::StringExecFns;

use crate::text::contains_sub;
use crate::text::str_contains;
use crate::types::ContainerStatusSnapshot;
use crate::types::VolumeIssueInfo;
use crate::types::VolumeIssueType;
use crate::types::WorkloadSnapshot;

verus! {

/// The container is waiting with a reason that names a mount or volume
/// problem.
pub open spec fn spec_is_mount_failure(cs: ContainerStatusSnapshot) -> bool {
    &&& cs.waiting matches Some(w)
    &&& w.reason matches Some(rsn) && (contains_sub(rsn@, "Mount"@) || contains_sub(
        rsn@,
        "Volume"@,
    ))
}

/// The message of a mount failure: the waiting message, else the reason
/// text itself.
pub open spec fn spec_mount_failure_message(cs: ContainerStatusSnapshot) -> Seq<char> {
    match cs.waiting->0.message {
        Some(m) => m@,
        None => cs.waiting->0.reason->0@,
    }
}

/// The mount failures of one workload's containers: the issue name
/// `container-<name>` and the message, in input order.
pub open spec fn spec_mount_failures(statuses: Seq<ContainerStatusSnapshot>) -> Seq<
    (Seq<char>, Seq<char>),
>
    decreases statuses.len(),
{
    if statuses.len() == 0 {
        Seq::empty()
    } else {
        let rest = spec_mount_failures(statuses.drop_last());
        let cs = statuses[statuses.len() - 1];
        if spec_is_mount_failure(cs) {
            rest.push(("container-"@ + cs.name@, spec_mount_failure_message(cs)))
        } else {
            rest
        }
    }
}

/// Collects the mount failures of a workload, or nothing when there are
/// none.
pub fn extract_mount_failures(p: &WorkloadSnapshot) -> (r: Option<Vec<(String, String)>>)
    ensures
        match r {
            Some(v) => v@.len() > 0 && v@.map_values(|e: (String, String)| (e.0@, e.1@))
                == spec_mount_failures(p.container_statuses@),
            None => spec_mount_failures(p.container_statuses@).len() == 0,
        },
{
    let mut out: Vec<(String, String)> = Vec::new();
    let n = p.container_statuses.len();
    let mut i: usize = 0;
    while i < n
        invariant
            i <= n,
            n == p.container_statuses@.len(),
            out@.map_values(|e: (String, String)| (e.0@, e.1@)) == spec_mount_failures(
                p.container_statuses@.subrange(0, i as int),
            ),
        decreases n - i,
    {
        let cs = &p.container_statuses[i];
        proof {
            assert(p.container_statuses@.subrange(0, i + 1).drop_last()
                =~= p.container_statuses@.subrange(0, i as int));
            let ii = i as int;
            assert(p.container_statuses@.subrange(0, i + 1)[ii] == p.container_statuses@[ii]);
        }
        match &cs.waiting {
            Some(w) => {
                match &w.reason {
                    Some(rsn) => {
                        if str_contains(rsn.as_str(), "Mount") || str_contains(
                            rsn.as_str(),
                            "Volume",
                        ) {
                            let mut vol_name = String::from_str("container-");
                            vol_name.append(cs.name.as_str());
                            let message = match &w.message {
                                Some(m) => m.clone(),
                                None => rsn.clone(),
                            };
                            out.push((vol_name, message));
                            proof {
                                assert(out@.map_values(|e: (String, String)| (e.0@, e.1@))
                                    =~= spec_mount_failures(
                                    p.container_statuses@.subrange(0, i + 1),
                                ));
                            }
                        }
                    },
                    None => {},
                }
            },
            None => {},
        }
        i = i + 1;
    }
    proof {
        assert(p.container_statuses@.subrange(0, n as int) =~= p.container_statuses@);
    }
    if out.len() == 0 {
        None
    } else {
        Some(out)
    }
}

/// The volume issues over all workloads: one mount-failure record per
/// offending container of each named workload, in input order.
pub open spec fn spec_volume_issues(ns: Seq<char>, pods: Seq<WorkloadSnapshot>) -> Seq<
    (Seq<char>, Seq<char>, Seq<char>, VolumeIssueType, Seq<char>),
>
    decreases pods.len(),
{
    if pods.len() == 0 {
        Seq::empty()
    } else {
        let rest = spec_volume_issues(ns, pods.drop_last());
        let p = pods[pods.len() - 1];
        if p.name is Some {
            rest + spec_mount_failures(p.container_statuses@).map_values(
                |e: (Seq<char>, Seq<char>)|
                    (ns, p.name->0@, e.0, VolumeIssueType::MountFailure, e.1),
            )
        } else {
            rest
        }
    }
}

/// Reports mount failures found in workload container statuses.
pub fn analyze_volume_issues(namespace: &str, pods: &Vec<WorkloadSnapshot>) -> (r: Vec<
    VolumeIssueInfo,
>)
    ensures
        r@.map_values(|x: VolumeIssueInfo| x@) == spec_volume_issues(namespace@, pods@),
{
    let mut out: Vec<VolumeIssueInfo> = Vec::new();
    let n = pods.len();
    let mut i: usize = 0;
    while i < n
        invariant
            i <= n,
            n == pods@.len(),
            out@.map_values(|x: VolumeIssueInfo| x@) == spec_volume_issues(
                namespace@,
                pods@.subrange(0, i as int),
            ),
        decreases n - i,
    {
        let p = &pods[i];
        proof {
            assert(pods@.subrange(0, i + 1).drop_last() =~= pods@.subrange(0, i as int));
            assert(pods@.subrange(0, i + 1)[i as int] == pods@[i as int]);
        }
        match &p.name {
            Some(nm) => {
                match extract_mount_failures(p) {
                    Some(failures) => {
                        let m = failures.len();
                        let mut j: usize = 0;
                        while j < m
                            invariant
                                j <= m,
                                m == failures@.len(),
                                i < n,
                                n == pods@.len(),
                                p == &pods[i as int],
                                p.name matches Some(nm2) && nm2 == nm,
                                failures@.map_values(|e: (String, String)| (e.0@, e.1@))
                                    == spec_mount_failures(p.container_statuses@),
                                out@.map_values(|x: VolumeIssueInfo| x@) == spec_volume_issues(
                                    namespace@,
                                    pods@.subrange(0, i as int),
                                ) + spec_mount_failures(p.container_statuses@).subrange(
                                    0,
                                    j as int,
                                ).map_values(
                                    |e: (Seq<char>, Seq<char>)|
                                        (
                                            namespace@,
                                            nm@,
                                            e.0,
                                            VolumeIssueType::MountFailure,
                                            e.1,
                                        ),
                                ),
                            decreases m - j,
                        {
                            let f = &failures[j];
                            let rec = VolumeIssueInfo {
                                namespace: String::from_str(namespace),
                                pod: nm.clone(),
                                volume_name: f.0.clone(),
                                issue_type: VolumeIssueType::MountFailure,
                                message: f.1.clone(),
                            };
                            let ghost prev = out@;
                            out.push(rec);
                            proof {
                                let sf = spec_mount_failures(p.container_statuses@);
                                let g = |e: (Seq<char>, Seq<char>)|
                                    (namespace@, nm@, e.0, VolumeIssueType::MountFailure, e.1);
                                let jj = j as int;
                                assert(sf[jj] == (failures@[jj].0@, failures@[jj].1@));
                                assert(rec@ == g(sf[jj]));
                                assert(sf.subrange(0, j + 1) =~= sf.subrange(0, jj).push(sf[jj]));
                                assert(sf.subrange(0, j + 1).map_values(g) =~= sf.subrange(
                                    0,
                                    j as int,
                                ).map_values(g).push(g(sf[j as int])));
                                assert(out@.map_values(|x: VolumeIssueInfo| x@)
                                    =~= prev.map_values(|x: VolumeIssueInfo| x@).push(rec@));
                                let a = spec_volume_issues(
                                    namespace@,
                                    pods@.subrange(0, i as int),
                                );
                                let b = sf.subrange(0, j as int).map_values(g);
                                assert((a + b).push(rec@) =~= a + b.push(rec@));
                            }
                            j = j + 1;
                        }
                        proof {
                            let sf = spec_mount_failures(p.container_statuses@);
                            assert(sf.subrange(0, m as int) =~= sf);
                        }
                    },
                    None => {
                        proof {
                            let sf = spec_mount_failures(p.container_statuses@);
                            assert(sf =~= Seq::<(Seq<char>, Seq<char>)>::empty());
                            assert(spec_volume_issues(namespace@, pods@.subrange(0, i + 1))
                                =~= spec_volume_issues(namespace@, pods@.subrange(0, i as int)));
                        }
                    },
                }
            },
            None => {},
        }
        i = i + 1;
    }
    proof {
        assert(pods@.subrange(0, n as int) =~= pods@);
    }
    out
}

} // verus!
