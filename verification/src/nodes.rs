//! Node analyzers: problematic-condition detection and utilization
//! thresholding over CPU, memory and scheduled-unit density.

use vstd::prelude::*;
use vstd::string::StringExecFns;

use crate::numtext::spec_parse_i32_text;
use crate::numtext::parse_i32_range;
use crate::parsing::parse_cpu_to_millicores;
use crate::parsing::parse_memory_to_bytes;
use crate::parsing::spec_parse_cpu;
use crate::parsing::spec_parse_memory;
use crate::text::str_eq;
use crate::text::to_char_vec;
use crate::types::ConditionSnapshot;
use crate::types::NodeMetricsSnapshot;
use crate::types::NodePodCount;
use crate::types::NodeSnapshot;
use crate::types::NodeUtilizationInfo;
use crate::types::Percentage;
use crate::types::ProblematicNodeInfo;
use crate::types::Threshold;

verus! {

// ---------------------------------------------------------------------------
// problematic conditions
// ---------------------------------------------------------------------------

/// The problem markers of a node's conditions, in input order: a `Ready`
/// condition that is not `True` yields `NotReady`; a pressure condition that
/// is `True` yields its own name.
pub open spec fn spec_problem_markers(conds: Seq<ConditionSnapshot>) -> Seq<Seq<char>>
    decreases conds.len(),
{
    if conds.len() == 0 {
        Seq::empty()
    } else {
        let rest = spec_problem_markers(conds.drop_last());
        let c = conds[conds.len() - 1];
        if c.kind@ == "Ready"@ {
            if c.status@ != "True"@ {
                rest.push("NotReady"@)
            } else {
                rest
            }
        } else if (c.kind@ == "MemoryPressure"@ || c.kind@ == "DiskPressure"@ || c.kind@
            == "PIDPressure"@) && c.status@ == "True"@ {
            rest.push(c.kind@)
        } else {
            rest
        }
    }
}

/// Collects the problem markers of a node.
pub fn extract_problematic_conditions(node: &NodeSnapshot) -> (r: Vec<String>)
    ensures
        r@.map_values(|s: String| s@) == spec_problem_markers(node.conditions@),
{
    let mut out: Vec<String> = Vec::new();
    let n = node.conditions.len();
    let mut i: usize = 0;
    while i < n
        invariant
            i <= n,
            n == node.conditions@.len(),
            out@.map_values(|s: String| s@) == spec_problem_markers(
                node.conditions@.subrange(0, i as int),
            ),
        decreases n - i,
    {
        let c = &node.conditions[i];
        proof {
            assert(node.conditions@.subrange(0, i + 1).drop_last() =~= node.conditions@.subrange(
                0,
                i as int,
            ));
            assert(node.conditions@.subrange(0, i + 1)[i as int] == node.conditions@[i as int]);
        }
        if str_eq(c.kind.as_str(), "Ready") {
            if !str_eq(c.status.as_str(), "True") {
                out.push(String::from_str("NotReady"));
                proof {
                    assert(out@.map_values(|s: String| s@) =~= spec_problem_markers(
                        node.conditions@.subrange(0, i + 1),
                    ));
                }
            }
        } else if (str_eq(c.kind.as_str(), "MemoryPressure") || str_eq(
            c.kind.as_str(),
            "DiskPressure",
        ) || str_eq(c.kind.as_str(), "PIDPressure")) && str_eq(c.status.as_str(), "True") {
            out.push(c.kind.clone());
            proof {
                assert(out@.map_values(|s: String| s@) =~= spec_problem_markers(
                    node.conditions@.subrange(0, i + 1),
                ));
            }
        }
        i = i + 1;
    }
    proof {
        assert(node.conditions@.subrange(0, n as int) =~= node.conditions@);
    }
    out
}

/// The last-transition time of the first `Ready` condition, when that
/// condition carries one.
pub open spec fn spec_ready_since(conds: Seq<ConditionSnapshot>) -> Option<i64>
    decreases conds.len(),
{
    if conds.len() == 0 {
        None
    } else if conds[0].kind@ == "Ready"@ {
        conds[0].last_transition_time
    } else {
        spec_ready_since(conds.drop_first())
    }
}

/// Finds when the node's `Ready` condition last changed.
pub fn node_condition_since(node: &NodeSnapshot) -> (r: Option<i64>)
    ensures
        r == spec_ready_since(node.conditions@),
{
    let n = node.conditions.len();
    let mut i: usize = 0;
    proof {
        assert(node.conditions@.skip(0) =~= node.conditions@);
    }
    while i < n
        invariant
            i <= n,
            n == node.conditions@.len(),
            spec_ready_since(node.conditions@) == spec_ready_since(node.conditions@.skip(i as int)),
        decreases n - i,
    {
        let c = &node.conditions[i];
        proof {
            assert(node.conditions@.skip(i as int)[0] == node.conditions@[i as int]);
        }
        if str_eq(c.kind.as_str(), "Ready") {
            return c.last_transition_time;
        }
        proof {
            assert(node.conditions@.skip(i as int).drop_first() =~= node.conditions@.skip(i + 1));
        }
        i = i + 1;
    }
    proof {
        assert(node.conditions@.skip(n as int) =~= Seq::<ConditionSnapshot>::empty());
    }
    None
}

/// The problematic-node issues, one per named node with a non-empty marker
/// set, in input order; `since` falls back to the capture time.
pub open spec fn spec_problematic_nodes(now: i64, nodes: Seq<NodeSnapshot>) -> Seq<
    (Seq<char>, Seq<Seq<char>>, i64),
>
    decreases nodes.len(),
{
    if nodes.len() == 0 {
        Seq::empty()
    } else {
        let rest = spec_problematic_nodes(now, nodes.drop_last());
        let nd = nodes[nodes.len() - 1];
        if nd.name is Some && spec_problem_markers(nd.conditions@).len() > 0 {
            rest.push(
                (
                    nd.name->0@,
                    spec_problem_markers(nd.conditions@),
                    match spec_ready_since(nd.conditions@) {
                        Some(t) => t,
                        None => now,
                    },
                ),
            )
        } else {
            rest
        }
    }
}

/// Reports nodes whose conditions mark them as problematic.
pub fn analyze_problematic_nodes(nodes: &Vec<NodeSnapshot>, now: i64) -> (r: Vec<
    ProblematicNodeInfo,
>)
    ensures
        r@.map_values(|x: ProblematicNodeInfo| x@) == spec_problematic_nodes(now, nodes@),
{
    let mut out: Vec<ProblematicNodeInfo> = Vec::new();
    let n = nodes.len();
    let mut i: usize = 0;
    while i < n
        invariant
            i <= n,
            n == nodes@.len(),
            out@.map_values(|x: ProblematicNodeInfo| x@) == spec_problematic_nodes(
                now,
                nodes@.subrange(0, i as int),
            ),
        decreases n - i,
    {
        let nd = &nodes[i];
        proof {
            assert(nodes@.subrange(0, i + 1).drop_last() =~= nodes@.subrange(0, i as int));
            assert(nodes@.subrange(0, i + 1)[i as int] == nodes@[i as int]);
        }
        match &nd.name {
            Some(nm) => {
                let markers = extract_problematic_conditions(nd);
                if markers.len() > 0 {
                    let since = match node_condition_since(nd) {
                        Some(t) => t,
                        None => now,
                    };
                    let rec = ProblematicNodeInfo { name: nm.clone(), conditions: markers, since };
                    out.push(rec);
                    proof {
                        assert(out@.map_values(|x: ProblematicNodeInfo| x@)
                            =~= spec_problematic_nodes(now, nodes@.subrange(0, i + 1)));
                    }
                } else {
                    proof {
                        assert(markers@.map_values(|s: String| s@).len() == 0);
                    }
                }
            },
            None => {},
        }
        i = i + 1;
    }
    proof {
        assert(nodes@.subrange(0, n as int) =~= nodes@);
    }
    out
}

// ---------------------------------------------------------------------------
// node utilization
// ---------------------------------------------------------------------------

/// Last-match lookup of a node's usage readings, among items with a
/// non-empty name, mirroring map insertion.
pub open spec fn spec_node_metrics_for(
    items: Seq<NodeMetricsSnapshot>,
    name: Seq<char>,
) -> Option<NodeMetricsSnapshot>
    decreases items.len(),
{
    if items.len() == 0 {
        None
    } else if items[items.len() - 1].name@ == name && items[items.len() - 1].name@.len() > 0 {
        Some(items[items.len() - 1])
    } else {
        spec_node_metrics_for(items.drop_last(), name)
    }
}

fn node_metrics_for<'a>(items: &'a Vec<NodeMetricsSnapshot>, name: &String) -> (r: Option<
    &'a NodeMetricsSnapshot,
>)
    ensures
        match r {
            Some(m) => spec_node_metrics_for(items@, name@) == Some(*m),
            None => spec_node_metrics_for(items@, name@) is None,
        },
{
    let mut i: usize = items.len();
    proof {
        assert(items@.subrange(0, items@.len() as int) =~= items@);
    }
    while i > 0
        invariant
            i <= items@.len(),
            spec_node_metrics_for(items@, name@) == spec_node_metrics_for(
                items@.subrange(0, i as int),
                name@,
            ),
        decreases i,
    {
        let m = &items[i - 1];
        proof {
            let pre = items@.subrange(0, i as int);
            assert(pre[pre.len() - 1] == items@[i - 1]);
            assert(pre.drop_last() =~= items@.subrange(0, i - 1));
        }
        if m.name.as_str().unicode_len() > 0 && str_eq(m.name.as_str(), name.as_str()) {
            return Some(m);
        }
        i = i - 1;
    }
    proof {
        assert(items@.subrange(0, 0) =~= Seq::<NodeMetricsSnapshot>::empty());
    }
    None
}

/// First-match lookup of the scheduled-unit count observed on a node;
/// absent nodes count zero.
pub open spec fn spec_pod_count_for(counts: Seq<NodePodCount>, name: Seq<char>) -> i32
    decreases counts.len(),
{
    if counts.len() == 0 {
        0
    } else if counts[0].name@ == name {
        counts[0].count
    } else {
        spec_pod_count_for(counts.drop_first(), name)
    }
}

fn pod_count_for(counts: &Vec<NodePodCount>, name: &String) -> (r: i32)
    ensures
        r == spec_pod_count_for(counts@, name@),
{
    let n = counts.len();
    let mut i: usize = 0;
    proof {
        assert(counts@.skip(0) =~= counts@);
    }
    while i < n
        invariant
            i <= n,
            n == counts@.len(),
            spec_pod_count_for(counts@, name@) == spec_pod_count_for(
                counts@.skip(i as int),
                name@,
            ),
        decreases n - i,
    {
        let c = &counts[i];
        proof {
            assert(counts@.skip(i as int)[0] == counts@[i as int]);
        }
        if str_eq(c.name.as_str(), name.as_str()) {
            return c.count;
        }
        proof {
            assert(counts@.skip(i as int).drop_first() =~= counts@.skip(i + 1));
        }
        i = i + 1;
    }
    proof {
        assert(counts@.skip(n as int) =~= Seq::<NodePodCount>::empty());
    }
    0
}

/// The unit capacity of a node, read from its capacity text; unreadable or
/// absent text counts zero.
pub open spec fn spec_node_pod_capacity(node: NodeSnapshot) -> i32 {
    match node.pods_capacity {
        Some(q) => match spec_parse_i32_text(q@) {
            Some(v) => v,
            None => 0,
        },
        None => 0,
    }
}

/// Reads the unit capacity of a node.
pub fn extract_node_pod_capacity(node: &NodeSnapshot) -> (r: i32)
    ensures
        r == spec_node_pod_capacity(*node),
{
    match &node.pods_capacity {
        Some(q) => {
            let v = to_char_vec(q.as_str());
            proof {
                assert(v@.subrange(0, v@.len() as int) =~= v@);
            }
            let len = v.len();
            match parse_i32_range(&v, 0, len) {
                Some(x) => x,
                None => 0,
            }
        },
        None => 0,
    }
}

/// CPU utilization of a node: measured usage against capacity, defined only
/// when both parse and the capacity is positive.
pub open spec fn spec_node_cpu_pct(node: NodeSnapshot, m: NodeMetricsSnapshot) -> Option<
    Percentage,
> {
    match (m.cpu, node.cpu_capacity) {
        (Some(uq), Some(cq)) => match (spec_parse_cpu(uq@), spec_parse_cpu(cq@)) {
            (Some(u), Some(c)) => if c > 0 {
                Some(Percentage { used: u, capacity: c })
            } else {
                None
            },
            _ => None,
        },
        _ => None,
    }
}

/// Memory utilization of a node, defined the same way.
pub open spec fn spec_node_mem_pct(node: NodeSnapshot, m: NodeMetricsSnapshot) -> Option<
    Percentage,
> {
    match (m.memory, node.memory_capacity) {
        (Some(uq), Some(cq)) => match (spec_parse_memory(uq@), spec_parse_memory(cq@)) {
            (Some(u), Some(c)) => if c > 0 {
                Some(Percentage { used: u, capacity: c })
            } else {
                None
            },
            _ => None,
        },
        _ => None,
    }
}

/// Computes a node's CPU and memory utilization from its usage readings and
/// capacity text.
pub fn calculate_node_utilization_percentages(node: &NodeSnapshot, m: &NodeMetricsSnapshot) -> (r:
    (Option<Percentage>, Option<Percentage>))
    ensures
        r.0 == spec_node_cpu_pct(*node, *m),
        r.1 == spec_node_mem_pct(*node, *m),
{
    let cpu = match (&m.cpu, &node.cpu_capacity) {
        (Some(uq), Some(cq)) => match (
            parse_cpu_to_millicores(uq.as_str()),
            parse_cpu_to_millicores(cq.as_str()),
        ) {
            (Some(u), Some(c)) => if c > 0 {
                Some(Percentage::new(u, c))
            } else {
                None
            },
            _ => None,
        },
        _ => None,
    };
    let mem = match (&m.memory, &node.memory_capacity) {
        (Some(uq), Some(cq)) => match (
            parse_memory_to_bytes(uq.as_str()),
            parse_memory_to_bytes(cq.as_str()),
        ) {
            (Some(u), Some(c)) => if c > 0 {
                Some(Percentage::new(u, c))
            } else {
                None
            },
            _ => None,
        },
        _ => None,
    };
    (cpu, mem)
}

/// Which signal pushes a node over the threshold, checked in a fixed order:
/// CPU, then memory, then scheduled-unit density.
#[derive(Debug, Clone, Copy, PartialEq, Eq, Structural)]
pub enum NodeThresholdReason {
    Cpu,
    Memory,
    Density,
}

/// The rule evaluator over the three signals: the first defined signal that
/// strictly exceeds the threshold, with density counted only for a positive
/// unit capacity.
pub open spec fn spec_node_threshold_reason(
    cpu: Option<Percentage>,
    mem: Option<Percentage>,
    count: i32,
    capacity: i32,
    t: Threshold,
) -> Option<NodeThresholdReason> {
    if cpu matches Some(p) && p.exceeds_spec(t) {
        Some(NodeThresholdReason::Cpu)
    } else if mem matches Some(p) && p.exceeds_spec(t) {
        Some(NodeThresholdReason::Memory)
    } else if capacity > 0 && (Percentage {
        used: count as i64,
        capacity: capacity as i64,
    }).exceeds_spec(t) {
        Some(NodeThresholdReason::Density)
    } else {
        None
    }
}

/// Evaluates the threshold rule, reporting which signal exceeded.
pub fn node_threshold_reason(
    cpu: Option<Percentage>,
    mem: Option<Percentage>,
    count: i32,
    capacity: i32,
    t: Threshold,
) -> (r: Option<NodeThresholdReason>)
    requires
        cpu matches Some(p) ==> p.is_valid(),
        mem matches Some(p) ==> p.is_valid(),
    ensures
        r == spec_node_threshold_reason(cpu, mem, count, capacity, t),
{
    let cpu_hot = match cpu {
        Some(p) => p.exceeds(t),
        None => false,
    };
    if cpu_hot {
        return Some(NodeThresholdReason::Cpu);
    }
    let mem_hot = match mem {
        Some(p) => p.exceeds(t),
        None => false,
    };
    if mem_hot {
        return Some(NodeThresholdReason::Memory);
    }
    if capacity > 0 {
        let density = Percentage::new(count as i64, capacity as i64);
        if density.exceeds(t) {
            return Some(NodeThresholdReason::Density);
        }
    }
    None
}

/// The node-utilization issues, one per named node where some signal
/// exceeds, in input order.
pub open spec fn spec_node_utilization(
    t: Threshold,
    nodes: Seq<NodeSnapshot>,
    metrics: Seq<NodeMetricsSnapshot>,
    counts: Seq<NodePodCount>,
) -> Seq<(Seq<char>, Option<Percentage>, Option<Percentage>, i32, i32)>
    decreases nodes.len(),
{
    if nodes.len() == 0 {
        Seq::empty()
    } else {
        let rest = spec_node_utilization(t, nodes.drop_last(), metrics, counts);
        let nd = nodes[nodes.len() - 1];
        if nd.name is Some {
            let count = spec_pod_count_for(counts, nd.name->0@);
            let capacity = spec_node_pod_capacity(nd);
            let pcts = match spec_node_metrics_for(metrics, nd.name->0@) {
                Some(m) => (spec_node_cpu_pct(nd, m), spec_node_mem_pct(nd, m)),
                None => (None::<Percentage>, None::<Percentage>),
            };
            if spec_node_threshold_reason(pcts.0, pcts.1, count, capacity, t) is Some {
                rest.push((nd.name->0@, pcts.0, pcts.1, count, capacity))
            } else {
                rest
            }
        } else {
            rest
        }
    }
}

/// Reports nodes whose CPU, memory or scheduled-unit density exceeds the
/// threshold.  Usage readings are looked up by node name; unit counts come
/// from the monitored namespaces only.
pub fn analyze_node_utilization(
    nodes: &Vec<NodeSnapshot>,
    metrics: &Vec<NodeMetricsSnapshot>,
    counts: &Vec<NodePodCount>,
    threshold: Threshold,
) -> (r: Vec<NodeUtilizationInfo>)
    ensures
        r@.map_values(|x: NodeUtilizationInfo| x@) == spec_node_utilization(
            threshold,
            nodes@,
            metrics@,
            counts@,
        ),
{
    let mut out: Vec<NodeUtilizationInfo> = Vec::new();
    let n = nodes.len();
    let mut i: usize = 0;
    while i < n
        invariant
            i <= n,
            n == nodes@.len(),
            out@.map_values(|x: NodeUtilizationInfo| x@) == spec_node_utilization(
                threshold,
                nodes@.subrange(0, i as int),
                metrics@,
                counts@,
            ),
        decreases n - i,
    {
        let nd = &nodes[i];
        proof {
            assert(nodes@.subrange(0, i + 1).drop_last() =~= nodes@.subrange(0, i as int));
            assert(nodes@.subrange(0, i + 1)[i as int] == nodes@[i as int]);
        }
        match &nd.name {
            Some(nm) => {
                let pods_count = pod_count_for(counts, nm);
                let pods_capacity = extract_node_pod_capacity(nd);
                let (cpu_pct, memory_pct) = match node_metrics_for(metrics, nm) {
                    Some(m) => calculate_node_utilization_percentages(nd, m),
                    None => (None, None),
                };
                match node_threshold_reason(cpu_pct, memory_pct, pods_count, pods_capacity, threshold) {
                    Some(_) => {
                        let rec = NodeUtilizationInfo {
                            name: nm.clone(),
                            cpu_pct,
                            memory_pct,
                            pods_count,
                            pods_capacity,
                        };
                        out.push(rec);
                        proof {
                            assert(out@.map_values(|x: NodeUtilizationInfo| x@)
                                =~= spec_node_utilization(
                                threshold,
                                nodes@.subrange(0, i + 1),
                                metrics@,
                                counts@,
                            ));
                        }
                    },
                    None => {},
                }
            },
            None => {},
        }
        i = i + 1;
    }
    proof {
        assert(nodes@.subrange(0, n as int) =~= nodes@);
    }
    out
}

} // verus!
