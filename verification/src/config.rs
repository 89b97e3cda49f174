//! Configuration model: per-instance limits, load-time validation, and the
//! quota resolver with its effectively-unlimited fallback.

use vstd::prelude::*;
use crate::units::{UnitType, ParseError, spec_parse_quota, parse_quota};

verus! {

/// A configured billing limit for one instance.
#[derive(Clone, Copy, Debug, PartialEq, Eq, Structural)]
pub struct Limit {
    /// Day of month (1..=31) on which the billing cycle restarts.
    pub reset_day: u8,
    /// Quota in bytes. The unit convention governs only the parse step,
    /// never this stored representation.
    pub limit: u64,
}

impl Limit {
    pub open spec fn wf(self) -> bool {
        1 <= self.reset_day <= 31
    }
}

/// Why a configuration was rejected at load time. Loading is fail-fast:
/// the process must not start from an invalid configuration.
#[derive(Clone, Copy, Debug, PartialEq, Eq, Structural)]
pub enum ConfigError {
    /// An entry's reset day lies outside 1..=31.
    ResetDayOutOfRange,
    /// An entry's quota string failed to parse.
    Quota(ParseError),
}

/// The validated configuration, shared read-only by all request handlers.
#[derive(Debug)]
pub struct Config {
    pub prometheus_url: String,
    pub unit_type: UnitType,
    /// Instance identifier to limit; looked up by first match.
    pub limits: Vec<(String, Limit)>,
}

impl Config {
    pub open spec fn wf(self) -> bool {
        forall|i: int| 0 <= i < self.limits@.len() ==> (#[trigger] self.limits@[i]).1.wf()
    }
}

/// First limit stored under `key`, if any.
pub open spec fn spec_lookup(limits: Seq<(String, Limit)>, key: Seq<char>) -> Option<Limit>
    decreases limits.len(),
{
    if limits.len() == 0 {
        Option::None
    } else if limits[0].0@ == key {
        Option::Some(limits[0].1)
    } else {
        spec_lookup(limits.subrange(1, limits.len() as int), key)
    }
}

/// Quota of the fallback limit: 9999 terabytes under the configured unit
/// convention, far above any realistically configured quota.
pub open spec fn spec_fallback_quota(unit_type: UnitType) -> u64 {
    match unit_type {
        UnitType::Decimal => 9999000000000000u64,
        UnitType::Binary => 10994016766132224u64,
    }
}

/// The synthetic limit handed to instances with no configured entry:
/// cycle resets on the 1st, quota is effectively unbounded.
pub open spec fn spec_fallback_limit(unit_type: UnitType) -> Limit {
    Limit { reset_day: 1, limit: spec_fallback_quota(unit_type) }
}

/// What `resolve` returns: the first configured limit for the instance,
/// or the fallback limit.
pub open spec fn spec_resolve(config: Config, instance: Seq<char>) -> Limit {
    match spec_lookup(config.limits@, instance) {
        Option::Some(l) => l,
        Option::None => spec_fallback_limit(config.unit_type),
    }
}

/// The fallback limit, by value. Its quota equals what the unit parser
/// yields for the string "9999tb" under the same convention.
pub fn fallback_limit(unit_type: UnitType) -> (r: Limit)
    ensures
        r == spec_fallback_limit(unit_type),
        r.wf(),
{
    match unit_type {
        UnitType::Decimal => Limit { reset_day: 1, limit: 9999000000000000 },
        UnitType::Binary => Limit { reset_day: 1, limit: 10994016766132224 },
    }
}

/// Map an instance identifier to its configured limit, or to the fallback
/// limit if it has no entry. Never fails.
pub fn resolve(config: &Config, instance: &String) -> (r: Limit)
    ensures
        r == spec_resolve(*config, instance@),
        config.wf() ==> r.wf(),
{
    let n = config.limits.len();
    proof {
        assert(config.limits@.skip(0) =~= config.limits@);
    }
    let mut i: usize = 0;
    while i < n
        invariant
            0 <= i <= n,
            n == config.limits@.len(),
            spec_lookup(config.limits@.skip(i as int), instance@) == spec_lookup(
                config.limits@,
                instance@,
            ),
        decreases n - i,
    {
        let entry = &config.limits[i];
        proof {
            let rest = config.limits@.skip(i as int);
            assert(rest[0] == config.limits@[i as int]);
            assert(rest.subrange(1, rest.len() as int) =~= config.limits@.skip(i + 1));
        }
        if entry.0.eq(instance) {
            return entry.1;
        }
        i = i + 1;
    }
    proof {
        assert(config.limits@.skip(n as int).len() == 0);
    }
    fallback_limit(config.unit_type)
}

/// Whether one raw configuration entry (identifier, reset day, quota
/// string) is acceptable.
pub open spec fn spec_entry_ok(entry: (String, u8, String), unit_type: UnitType) -> bool {
    &&& 1 <= entry.1 <= 31
    &&& spec_parse_quota(entry.2@, unit_type) is Ok
}

/// The limit a valid raw entry loads to.
pub open spec fn spec_entry_limit(entry: (String, u8, String), unit_type: UnitType) -> (
    String,
    Limit,
) {
    (entry.0, Limit { reset_day: entry.1, limit: spec_parse_quota(entry.2@, unit_type)->Ok_0 })
}

/// The error reported for an invalid raw entry: an out-of-range reset day
/// is reported before a bad quota string.
pub open spec fn spec_entry_err(entry: (String, u8, String), unit_type: UnitType) -> ConfigError {
    if !(1 <= entry.1 <= 31) {
        ConfigError::ResetDayOutOfRange
    } else {
        ConfigError::Quota(spec_parse_quota(entry.2@, unit_type)->Err_0)
    }
}

/// Validate a raw configuration and parse every quota string into bytes.
///
/// Succeeds if and only if every entry has a reset day in 1..=31 and a
/// parseable quota string; otherwise reports the first offending entry's
/// error and loads nothing.
pub fn build_config(
    prometheus_url: String,
    unit_type: UnitType,
    limits: Vec<(String, u8, String)>,
) -> (r: Result<Config, ConfigError>)
    ensures
        r is Ok <==> (forall|i: int|
            0 <= i < limits@.len() ==> spec_entry_ok(#[trigger] limits@[i], unit_type)),
        r is Ok ==> {
            &&& r->Ok_0.prometheus_url == prometheus_url
            &&& r->Ok_0.unit_type == unit_type
            &&& r->Ok_0.limits@.len() == limits@.len()
            &&& forall|i: int|
                0 <= i < limits@.len() ==> r->Ok_0.limits@[i] == spec_entry_limit(
                    #[trigger] limits@[i],
                    unit_type,
                )
            &&& r->Ok_0.wf()
        },
        r is Err ==> exists|i: int|
            {
                &&& 0 <= i < limits@.len()
                &&& !spec_entry_ok(#[trigger] limits@[i], unit_type)
                &&& r->Err_0 == spec_entry_err(limits@[i], unit_type)
                &&& forall|j: int| 0 <= j < i ==> spec_entry_ok(#[trigger] limits@[j], unit_type)
            },
{
    let n = limits.len();
    let mut out: Vec<(String, Limit)> = Vec::new();
    let mut i: usize = 0;
    while i < n
        invariant
            0 <= i <= n,
            n == limits@.len(),
            out@.len() == i,
            forall|j: int| 0 <= j < i ==> spec_entry_ok(#[trigger] limits@[j], unit_type),
            forall|j: int|
                0 <= j < i ==> out@[j] == spec_entry_limit(#[trigger] limits@[j], unit_type),
        decreases n - i,
    {
        let entry = &limits[i];
        let name = entry.0.clone();
        let reset_day = entry.1;
        if reset_day < 1 || reset_day > 31 {
            return Err(ConfigError::ResetDayOutOfRange);
        }
        match parse_quota(entry.2.as_str(), unit_type) {
            Ok(bytes) => {
                out.push((name, Limit { reset_day, limit: bytes }));
            },
            Err(e) => {
                return Err(ConfigError::Quota(e));
            },
        }
        i = i + 1;
    }
    proof {
        assert forall|j: int| 0 <= j < out@.len() implies (#[trigger] out@[j]).1.wf() by {
            assert(out@[j] == spec_entry_limit(limits@[j], unit_type));
            assert(spec_entry_ok(limits@[j], unit_type));
        }
    }
    Ok(Config { prometheus_url, unit_type, limits: out })
}

} // verus!
