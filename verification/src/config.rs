//! Run configuration: an injectable key-value environment, and the parsing
//! of the raw settings into a `Config`.
//!
//! The environment is abstracted behind a trait so that configuration
//! parsing is testable without touching the process environment; an
//! in-memory implementation lives here, and callers that read the real
//! process environment hand their values in through it.

use vstd::prelude::*;
use vstd::string::StrSliceExecFns;
use vstd::string::StringExecFns;

use crate::numtext::spec_dec_scaled;
use crate::numtext::spec_parse_i64_text;
use crate::numtext::trimmed;
use crate::numtext::parse_dec_scaled_range;
use crate::numtext::parse_i64_range;
use crate::numtext::trim_subrange;
use crate::text::str_eq;
use crate::text::to_char_vec;
use crate::types::Config;
use crate::types::Threshold;
use crate::types::view_opt_string;

verus! {

/// An injectable source of configuration values.
pub trait EnvironmentProvider {
    /// The value bound to a key, as an abstract map.
    spec fn spec_var(&self, key: Seq<char>) -> Option<Seq<char>>;

    /// Reads one configuration value.
    fn get_var(&self, key: &str) -> (r: Option<String>)
        ensures
            match r {
                Some(v) => self.spec_var(key@) == Some(v@),
                None => self.spec_var(key@) is None,
            },
    ;
}

/// The value of the last entry whose key reads `key`: a later binding
/// replaces an earlier one.
pub open spec fn kv_last(entries: Seq<(String, String)>, key: Seq<char>) -> Option<Seq<char>>
    decreases entries.len(),
{
    if entries.len() == 0 {
        None
    } else if entries[entries.len() - 1].0@ == key {
        Some(entries[entries.len() - 1].1@)
    } else {
        kv_last(entries.drop_last(), key)
    }
}

/// An in-memory environment for tests and for callers that gather values
/// themselves.
#[derive(Debug)]
pub struct MockEnvironment {
    pub vars: Vec<(String, String)>,
}

impl Default for MockEnvironment {
    fn default() -> (r: Self)
        ensures
            r.vars@.len() == 0,
    {
        MockEnvironment { vars: Vec::new() }
    }
}

impl MockEnvironment {
    /// An empty environment.
    pub fn new() -> (r: Self)
        ensures
            r.vars@.len() == 0,
            forall|k: Seq<char>| #[trigger] r.spec_var(k) is None,
    {
        MockEnvironment { vars: Vec::new() }
    }

    /// Binds `key` to `value`, replacing any earlier binding.
    pub fn set_var(&mut self, key: &str, value: &str)
        ensures
            forall|k: Seq<char>| #[trigger]
                final(self).spec_var(k) == if k == key@ {
                    Some(value@)
                } else {
                    old(self).spec_var(k)
                },
    {
        let ghost prev = self.vars@;
        self.vars.push((String::from_str(key), String::from_str(value)));
        proof {
            assert(self.vars@.drop_last() =~= prev);
        }
    }

    /// Binds `key` to `value` and hands the environment back, for chaining.
    pub fn with_var(self, key: &str, value: &str) -> (r: Self)
        ensures
            forall|k: Seq<char>| #[trigger]
                r.spec_var(k) == if k == key@ {
                    Some(value@)
                } else {
                    self.spec_var(k)
                },
    {
        let mut e = self;
        e.set_var(key, value);
        e
    }
}

impl EnvironmentProvider for MockEnvironment {
    open spec fn spec_var(&self, key: Seq<char>) -> Option<Seq<char>> {
        kv_last(self.vars@, key)
    }

    fn get_var(&self, key: &str) -> (r: Option<String>) {
        let mut i: usize = self.vars.len();
        proof {
            assert(self.vars@.subrange(0, self.vars@.len() as int) =~= self.vars@);
        }
        while i > 0
            invariant
                i <= self.vars@.len(),
                kv_last(self.vars@, key@) == kv_last(self.vars@.subrange(0, i as int), key@),
            decreases i,
        {
            let e = &self.vars[i - 1];
            proof {
                let pre = self.vars@.subrange(0, i as int);
                assert(pre[pre.len() - 1] == self.vars@[i - 1]);
                assert(pre.drop_last() =~= self.vars@.subrange(0, i - 1));
            }
            if str_eq(e.0.as_str(), key) {
                return Some(e.1.clone());
            }
            i = i - 1;
        }
        proof {
            assert(self.vars@.subrange(0, 0) =~= Seq::<(String, String)>::empty());
        }
        None
    }
}

// ---------------------------------------------------------------------------
// configuration errors
// ---------------------------------------------------------------------------

/// A fatal configuration problem, reported before any analysis begins.
#[derive(Debug, Clone, Copy, PartialEq, Eq, Structural)]
pub enum ConfigError {
    /// The namespace list is empty or unset.
    MissingNamespaces,
    /// The threshold value cannot be read as a decimal percentage.
    InvalidThreshold,
    /// No notification endpoint was provided.
    MissingWebhook,
}

impl ConfigError {
    /// A human-readable description of the error.
    pub fn message(&self) -> (r: String)
        ensures
            *self is MissingNamespaces ==> r@ == "NAMESPACES env var must be set (comma-separated)"@,
            *self is InvalidThreshold ==> r@ == "Invalid THRESHOLD_PERCENT"@,
            *self is MissingWebhook ==> r@
                == "SLACK_WEBHOOK_URL must be provided via Secret env"@,
    {
        match self {
            ConfigError::MissingNamespaces => String::from_str(
                "NAMESPACES env var must be set (comma-separated)",
            ),
            ConfigError::InvalidThreshold => String::from_str("Invalid THRESHOLD_PERCENT"),
            ConfigError::MissingWebhook => String::from_str(
                "SLACK_WEBHOOK_URL must be provided via Secret env",
            ),
        }
    }
}

// ---------------------------------------------------------------------------
// namespace list
// ---------------------------------------------------------------------------

/// Index of the first comma, or the length when there is none.
pub open spec fn find_comma(s: Seq<char>) -> int
    decreases s.len(),
{
    if s.len() == 0 {
        0
    } else if s[0] == ',' {
        0
    } else {
        1 + find_comma(s.drop_first())
    }
}

proof fn lemma_find_comma_at(s: Seq<char>, k: int)
    requires
        0 <= k <= s.len(),
        forall|j: int| 0 <= j < k ==> s[j] != ',',
        k < s.len() ==> s[k] == ',',
    ensures
        find_comma(s) == k,
    decreases k,
{
    if k == 0 {
    } else {
        lemma_find_comma_at(s.drop_first(), k - 1);
    }
}

proof fn lemma_find_comma_range(s: Seq<char>)
    ensures
        0 <= find_comma(s) <= s.len(),
    decreases s.len(),
{
    if s.len() > 0 && s[0] != ',' {
        lemma_find_comma_range(s.drop_first());
    }
}

/// The namespace list read from the raw setting: the text split at commas,
/// each piece trimmed, empty pieces dropped.
pub open spec fn spec_namespaces(s: Seq<char>) -> Seq<Seq<char>>
    decreases s.len(),
    via spec_namespaces_decreases
{
    let k = find_comma(s);
    let seg = trimmed(s.subrange(0, k));
    let head: Seq<Seq<char>> = if seg.len() > 0 {
        seq![seg]
    } else {
        Seq::empty()
    };
    if k == s.len() {
        head
    } else {
        head + spec_namespaces(s.subrange(k + 1, s.len() as int))
    }
}

#[via_fn]
proof fn spec_namespaces_decreases(s: Seq<char>) {
    lemma_find_comma_range(s);
}

/// Splits the raw namespace setting into trimmed, non-empty names.
pub fn parse_namespaces(s: &str) -> (r: Vec<String>)
    ensures
        r@.map_values(|x: String| x@) == spec_namespaces(s@),
{
    let v = to_char_vec(s);
    let len = v.len();
    let mut out: Vec<String> = Vec::new();
    let mut pos: usize = 0;
    proof {
        assert(s@.subrange(0, len as int) =~= s@);
    }
    while pos <= len
        invariant
            pos <= len,
            len == s@.len(),
            v@ == s@,
            spec_namespaces(s@) == out@.map_values(|x: String| x@) + spec_namespaces(
                s@.subrange(pos as int, len as int),
            ),
        decreases len - pos,
    {
        let ghost suffix = s@.subrange(pos as int, len as int);
        let mut k: usize = pos;
        while k < len && v[k] != ','
            invariant
                pos <= k <= len,
                len == s@.len(),
                v@ == s@,
                forall|j: int| pos <= j < k ==> s@[j] != ',',
            decreases len - k,
        {
            k = k + 1;
        }
        proof {
            lemma_find_comma_at(suffix, k - pos);
            assert(suffix.subrange(0, k - pos) =~= s@.subrange(pos as int, k as int));
        }
        let (a, b) = trim_subrange(&v, pos, k);
        let ghost seg = trimmed(s@.subrange(pos as int, k as int));
        if a < b {
            let piece = String::from_str(s.substring_char(a, b));
            let ghost prev = out@;
            out.push(piece);
            proof {
                assert(out@.map_values(|x: String| x@) =~= prev.map_values(|x: String| x@).push(
                    seg,
                ));
            }
        }
        proof {
            if k < len {
                assert(suffix.subrange(k - pos + 1, suffix.len() as int) =~= s@.subrange(
                    k + 1,
                    len as int,
                ));
            }
        }
        if k == len {
            proof {
                assert(spec_namespaces(suffix) == (if seg.len() > 0 {
                    seq![seg]
                } else {
                    Seq::<Seq<char>>::empty()
                }));
                assert(spec_namespaces(s@) =~= out@.map_values(|x: String| x@));
            }
            return out;
        } else {
            proof {
                let head: Seq<Seq<char>> = if seg.len() > 0 {
                    seq![seg]
                } else {
                    Seq::<Seq<char>>::empty()
                };
                assert(spec_namespaces(s@) =~= out@.map_values(|x: String| x@)
                    + spec_namespaces(s@.subrange(k + 1, len as int)));
            }
            pos = k + 1;
        }
    }
    out
}

// ---------------------------------------------------------------------------
// the settings themselves
// ---------------------------------------------------------------------------

/// The threshold in micro-percent read from the raw setting; 85 percent
/// when unset, no value when unreadable.
pub open spec fn spec_threshold(v: Option<Seq<char>>) -> Option<i64> {
    match v {
        None => Some(85000000),
        Some(s) => spec_dec_scaled(s, 1000000),
    }
}

/// A grace period in minutes read from the raw setting; 5 when unset or
/// unreadable.
pub open spec fn spec_grace(v: Option<Seq<char>>) -> i64 {
    match v {
        None => 5,
        Some(s) => match spec_parse_i64_text(s) {
            Some(x) => x,
            None => 5,
        },
    }
}

/// The fail-fast flag read from the raw setting; set when unset, else only
/// for the recognized true spellings.
pub open spec fn spec_truthy(v: Option<Seq<char>>) -> bool {
    match v {
        None => true,
        Some(s) => s == "1"@ || s == "true"@ || s == "TRUE"@ || s == "True"@,
    }
}

/// The namespace list of the run: the raw setting split and trimmed, with
/// an unset value reading as empty.
pub open spec fn spec_ns_list(v: Option<Seq<char>>) -> Seq<Seq<char>> {
    spec_namespaces(
        match v {
            Some(s) => s,
            None => Seq::empty(),
        },
    )
}

fn parse_threshold(s: &str) -> (r: Option<i64>)
    ensures
        r == spec_dec_scaled(s@, 1000000),
{
    let v = to_char_vec(s);
    let len = v.len();
    proof {
        assert(s@.subrange(0, len as int) =~= s@);
    }
    parse_dec_scaled_range(&v, 0, len, 1000000)
}

fn parse_grace(s: &str) -> (r: i64)
    ensures
        r == spec_grace(Some(s@)),
{
    let v = to_char_vec(s);
    let len = v.len();
    proof {
        assert(s@.subrange(0, len as int) =~= s@);
    }
    match parse_i64_range(&v, 0, len) {
        Some(x) => x,
        None => 5,
    }
}

/// Loads the run configuration from an environment.  The namespace list
/// must be non-empty and a notification endpoint must be provided; an
/// unreadable threshold is an error, while unreadable grace periods fall
/// back to their defaults.
pub fn load_config_with_env<E: EnvironmentProvider>(env: &E) -> (r: Result<Config, ConfigError>)
    ensures
        r is Ok <==> (spec_ns_list(env.spec_var("NAMESPACES"@)).len() > 0 && spec_threshold(
            env.spec_var("THRESHOLD_PERCENT"@),
        ) is Some && env.spec_var("SLACK_WEBHOOK_URL"@) is Some),
        r matches Ok(cfg) ==> {
            &&& cfg.namespaces@.map_values(|x: String| x@) == spec_ns_list(
                env.spec_var("NAMESPACES"@),
            )
            &&& Some(cfg.threshold_percent.micro_percent) == spec_threshold(
                env.spec_var("THRESHOLD_PERCENT"@),
            )
            &&& Some(cfg.slack_webhook_url@) == env.spec_var("SLACK_WEBHOOK_URL"@)
            &&& cfg.restart_grace_minutes == spec_grace(env.spec_var("RESTART_GRACE_MINUTES"@))
            &&& cfg.pending_grace_minutes == spec_grace(env.spec_var("PENDING_GRACE_MINUTES"@))
            &&& view_opt_string(cfg.cluster_name) == env.spec_var("CLUSTER_NAME"@)
            &&& view_opt_string(cfg.datacenter_name) == env.spec_var("DATACENTER_NAME"@)
            &&& cfg.fail_if_no_metrics == spec_truthy(env.spec_var("FAIL_IF_NO_METRICS"@))
        },
        r matches Err(e) ==> e == (if spec_ns_list(env.spec_var("NAMESPACES"@)).len() == 0 {
            ConfigError::MissingNamespaces
        } else if spec_threshold(env.spec_var("THRESHOLD_PERCENT"@)) is None {
            ConfigError::InvalidThreshold
        } else {
            ConfigError::MissingWebhook
        }),
{
    let ns_raw = env.get_var("NAMESPACES");
    let namespaces = match &ns_raw {
        Some(s) => parse_namespaces(s.as_str()),
        None => {
            proof {
                reveal_strlit("");
                assert(""@ =~= Seq::<char>::empty());
            }
            parse_namespaces("")
        },
    };
    if namespaces.len() == 0 {
        return Err(ConfigError::MissingNamespaces);
    }

    let threshold_percent = match env.get_var("THRESHOLD_PERCENT") {
        Some(s) => match parse_threshold(s.as_str()) {
            Some(m) => Threshold { micro_percent: m },
            None => {
                return Err(ConfigError::InvalidThreshold);
            },
        },
        None => Threshold { micro_percent: 85000000 },
    };

    let slack_webhook_url = match env.get_var("SLACK_WEBHOOK_URL") {
        Some(s) => s,
        None => {
            return Err(ConfigError::MissingWebhook);
        },
    };

    let restart_grace_minutes = match env.get_var("RESTART_GRACE_MINUTES") {
        Some(s) => parse_grace(s.as_str()),
        None => 5,
    };
    let pending_grace_minutes = match env.get_var("PENDING_GRACE_MINUTES") {
        Some(s) => parse_grace(s.as_str()),
        None => 5,
    };

    let cluster_name = env.get_var("CLUSTER_NAME");
    let datacenter_name = env.get_var("DATACENTER_NAME");

    let fail_if_no_metrics = match env.get_var("FAIL_IF_NO_METRICS") {
        Some(s) => str_eq(s.as_str(), "1") || str_eq(s.as_str(), "true") || str_eq(
            s.as_str(),
            "TRUE",
        ) || str_eq(s.as_str(), "True"),
        None => true,
    };

    Ok(
        Config {
            namespaces,
            threshold_percent,
            slack_webhook_url,
            restart_grace_minutes,
            pending_grace_minutes,
            cluster_name,
            datacenter_name,
            fail_if_no_metrics,
        },
    )
}

} // verus!
