//! Shared helpers of the analyzers: summing measured usage readings into
//! totals, the usage map keyed by workload name, and the observation time of
//! a workload.

use vstd::prelude::*;

use crate::numtext::sat_add;
use crate::numtext::sat_add_i64;
use crate::numtext::trunc_div;
use crate::parsing::parse_cpu_to_millicores;
use crate::parsing::parse_memory_to_bytes;
use crate::parsing::spec_parse_cpu;
use crate::parsing::spec_parse_memory;
use crate::text::str_eq;
use crate::types::ContainerMetrics;
use crate::types::PodMetricsSnapshot;
use crate::types::PodUsageTotals;
use crate::types::WorkloadSnapshot;

verus! {

/// The value of the first entry whose key reads `key`.
pub open spec fn kv_first(entries: Seq<(String, String)>, key: Seq<char>) -> Option<Seq<char>>
    decreases entries.len(),
{
    if entries.len() == 0 {
        None
    } else if entries[0].0@ == key {
        Some(entries[0].1@)
    } else {
        kv_first(entries.drop_first(), key)
    }
}

/// First-match lookup in a list of key/value text pairs.
pub fn kv_get(entries: &Vec<(String, String)>, key: &str) -> (r: Option<String>)
    ensures
        match r {
            Some(s) => kv_first(entries@, key@) == Some(s@),
            None => kv_first(entries@, key@) is None,
        },
{
    let mut i: usize = 0;
    let n = entries.len();
    proof {
        assert(entries@.skip(0) =~= entries@);
    }
    while i < n
        invariant
            i <= n,
            n == entries@.len(),
            kv_first(entries@, key@) == kv_first(entries@.skip(i as int), key@),
        decreases n - i,
    {
        let e = &entries[i];
        proof {
            assert(entries@.skip(i as int)[0] == entries@[i as int]);
        }
        if str_eq(e.0.as_str(), key) {
            return Some(e.1.clone());
        }
        proof {
            assert(entries@.skip(i as int).drop_first() =~= entries@.skip(i + 1));
        }
        i = i + 1;
    }
    proof {
        assert(entries@.skip(n as int) =~= Seq::<(String, String)>::empty());
    }
    None
}

/// Adds one container's readings onto running totals: a reading that is
/// absent or unparseable contributes nothing, and additions saturate at the
/// `i64` bounds.
pub open spec fn spec_add_container_usage(acc: PodUsageTotals, c: ContainerMetrics) -> PodUsageTotals {
    let cpu = match kv_first(c.usage@, "cpu"@) {
        Some(q) => match spec_parse_cpu(q) {
            Some(mc) => sat_add_i64(acc.cpu_millicores, mc),
            None => acc.cpu_millicores,
        },
        None => acc.cpu_millicores,
    };
    let mem = match kv_first(c.usage@, "memory"@) {
        Some(q) => match spec_parse_memory(q) {
            Some(b) => sat_add_i64(acc.memory_bytes, b),
            None => acc.memory_bytes,
        },
        None => acc.memory_bytes,
    };
    PodUsageTotals { cpu_millicores: cpu, memory_bytes: mem }
}

/// Totals of a workload's container readings, summed in order.
pub open spec fn spec_usage_totals(cs: Seq<ContainerMetrics>) -> PodUsageTotals
    decreases cs.len(),
{
    if cs.len() == 0 {
        PodUsageTotals { cpu_millicores: 0, memory_bytes: 0 }
    } else {
        spec_add_container_usage(spec_usage_totals(cs.drop_last()), cs[cs.len() - 1])
    }
}

fn usage_totals_of(item: &PodMetricsSnapshot) -> (r: PodUsageTotals)
    ensures
        r == spec_usage_totals(item.containers@),
{
    let mut acc = PodUsageTotals { cpu_millicores: 0, memory_bytes: 0 };
    let n = item.containers.len();
    let mut i: usize = 0;
    while i < n
        invariant
            i <= n,
            n == item.containers@.len(),
            acc == spec_usage_totals(item.containers@.subrange(0, i as int)),
        decreases n - i,
    {
        let c = &item.containers[i];
        proof {
            assert(item.containers@.subrange(0, i + 1).drop_last() =~= item.containers@.subrange(
                0,
                i as int,
            ));
            assert(item.containers@.subrange(0, i + 1)[i as int] == item.containers@[i as int]);
        }
        let cpu = match kv_get(&c.usage, "cpu") {
            Some(q) => match parse_cpu_to_millicores(q.as_str()) {
                Some(mc) => sat_add(acc.cpu_millicores, mc),
                None => acc.cpu_millicores,
            },
            None => acc.cpu_millicores,
        };
        let mem = match kv_get(&c.usage, "memory") {
            Some(q) => match parse_memory_to_bytes(q.as_str()) {
                Some(b) => sat_add(acc.memory_bytes, b),
                None => acc.memory_bytes,
            },
            None => acc.memory_bytes,
        };
        acc = PodUsageTotals { cpu_millicores: cpu, memory_bytes: mem };
        i = i + 1;
    }
    proof {
        assert(item.containers@.subrange(0, n as int) =~= item.containers@);
    }
    acc
}

/// The usage map derived from metrics items: name/totals pairs in input
/// order, items without a name skipped.
pub open spec fn spec_usage_entries(items: Seq<PodMetricsSnapshot>) -> Seq<
    (Seq<char>, PodUsageTotals),
>
    decreases items.len(),
{
    if items.len() == 0 {
        Seq::empty()
    } else {
        let rest = spec_usage_entries(items.drop_last());
        let it = items[items.len() - 1];
        if it.name@.len() > 0 {
            rest.push((it.name@, spec_usage_totals(it.containers@)))
        } else {
            rest
        }
    }
}

/// Builds the per-workload usage map from raw metrics items.
pub fn build_usage_map_from_http(items: &Vec<PodMetricsSnapshot>) -> (r: Vec<
    (String, PodUsageTotals),
>)
    ensures
        r@.map_values(|e: (String, PodUsageTotals)| (e.0@, e.1)) == spec_usage_entries(items@),
{
    let mut out: Vec<(String, PodUsageTotals)> = Vec::new();
    let n = items.len();
    let mut i: usize = 0;
    while i < n
        invariant
            i <= n,
            n == items@.len(),
            out@.map_values(|e: (String, PodUsageTotals)| (e.0@, e.1)) == spec_usage_entries(
                items@.subrange(0, i as int),
            ),
        decreases n - i,
    {
        let it = &items[i];
        proof {
            assert(items@.subrange(0, i + 1).drop_last() =~= items@.subrange(0, i as int));
            assert(items@.subrange(0, i + 1)[i as int] == items@[i as int]);
        }
        if it.name.as_str().unicode_len() > 0 {
            let totals = usage_totals_of(it);
            out.push((it.name.clone(), totals));
            proof {
                assert(out@.map_values(|e: (String, PodUsageTotals)| (e.0@, e.1))
                    =~= spec_usage_entries(items@.subrange(0, i + 1)));
            }
        } else {
            proof {
                assert(it.name@.len() == 0);
            }
        }
        i = i + 1;
    }
    proof {
        assert(items@.subrange(0, n as int) =~= items@);
    }
    out
}

/// Last-match lookup in the usage map, mirroring insertion where a later
/// entry under the same name replaces an earlier one.
pub open spec fn spec_lookup_usage(
    entries: Seq<(Seq<char>, PodUsageTotals)>,
    name: Seq<char>,
) -> Option<PodUsageTotals>
    decreases entries.len(),
{
    if entries.len() == 0 {
        None
    } else if entries[entries.len() - 1].0 == name {
        Some(entries[entries.len() - 1].1)
    } else {
        spec_lookup_usage(entries.drop_last(), name)
    }
}

/// Looks a workload's totals up by name.
pub fn usage_for(map: &Vec<(String, PodUsageTotals)>, name: &String) -> (r: Option<
    PodUsageTotals,
>)
    ensures
        r == spec_lookup_usage(
            map@.map_values(|e: (String, PodUsageTotals)| (e.0@, e.1)),
            name@,
        ),
{
    let ghost entries = map@.map_values(|e: (String, PodUsageTotals)| (e.0@, e.1));
    let mut i: usize = map.len();
    proof {
        assert(entries.subrange(0, entries.len() as int) =~= entries);
    }
    while i > 0
        invariant
            i <= map@.len(),
            entries == map@.map_values(|e: (String, PodUsageTotals)| (e.0@, e.1)),
            spec_lookup_usage(entries, name@) == spec_lookup_usage(
                entries.subrange(0, i as int),
                name@,
            ),
        decreases i,
    {
        let e = &map[i - 1];
        proof {
            let pre = entries.subrange(0, i as int);
            assert(pre[pre.len() - 1] == entries[i - 1]);
            assert(pre.drop_last() =~= entries.subrange(0, i - 1));
        }
        if str_eq(e.0.as_str(), name.as_str()) {
            return Some(e.1);
        }
        i = i - 1;
    }
    proof {
        assert(entries.subrange(0, 0) =~= Seq::<(Seq<char>, PodUsageTotals)>::empty());
    }
    None
}

/// The observation time of a workload: its start time, else its creation
/// time.
pub open spec fn spec_status_time(p: WorkloadSnapshot) -> Option<i64> {
    if p.start_time is Some {
        p.start_time
    } else {
        p.creation_time
    }
}

/// The observation time, with the capture instant as fallback.
pub open spec fn status_or_now(p: WorkloadSnapshot, now: i64) -> i64 {
    match spec_status_time(p) {
        Some(t) => t,
        None => now,
    }
}

/// Prefers the reported start time, falling back to the creation timestamp.
pub fn pod_status_time(p: &WorkloadSnapshot) -> (r: Option<i64>)
    ensures
        r == spec_status_time(*p),
{
    match p.start_time {
        Some(t) => Some(t),
        None => p.creation_time,
    }
}

/// Whole minutes between two instants, truncated toward zero.
pub fn minutes_between(now: i64, since: i64) -> (r: i64)
    ensures
        r as int == trunc_div(now - since, 60),
{
    if now >= since {
        let d = (now as i128) - (since as i128);
        (d / 60) as i64
    } else {
        let d = (since as i128) - (now as i128);
        proof {
            vstd::arithmetic::div_mod::lemma_div_pos_is_pos(d as int, 60);
            vstd::arithmetic::div_mod::lemma_div_nonincreasing(d as int, 60);
        }
        -((d / 60) as i64)
    }
}

} // verus!
