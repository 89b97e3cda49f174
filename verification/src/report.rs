//! Usage aggregator: turns the backend's instance list and per-instance
//! counter deltas into a usage report, instance by instance.
//!
//! The I/O itself happens outside the library. The caller first plans the
//! per-instance queries with [`plan_queries`], performs each fetch, and
//! hands the outcomes back to [`assemble_report`], which enforces the
//! aggregation policy: any single fetch failure fails the whole report, and
//! an instance with no data in the window is omitted rather than reported
//! as zero.

use vstd::prelude::*;
use vstd::string::*;
use crate::calendar::{CivilTime, spec_seconds_since_cycle_start, seconds_since_cycle_start};
use crate::config::{Config, Limit, spec_resolve, resolve};
use crate::url::{spec_generate_url, generate_url};

verus! {

/// A failed backend query: the network failed, the response had a
/// non-success status, or its body could not be understood.
#[derive(Clone, Copy, Debug, PartialEq, Eq, Structural)]
pub enum FetchError {
    Network,
    BadStatus,
    BadBody,
}

/// What one counter query for one instance produced. `NoData` stands for
/// an empty result set: not an error, but "nothing billable this window."
#[derive(Debug)]
pub enum FetchOutcome<V> {
    Fetched(V),
    NoData,
    Failed(FetchError),
}

/// Wraps the fetch failure that aborted an aggregation pass.
#[derive(Clone, Copy, Debug, PartialEq, Eq, Structural)]
pub enum AggregationError {
    Fetch(FetchError),
}

/// One instance's entry in the usage report: the consumed bytes observed
/// in the current cycle, and the resolved byte quota.
#[derive(Debug)]
pub struct RawLoad<V> {
    pub value: V,
    pub limit: u64,
}

/// One planned backend query: the instance, its resolved limit, the cycle
/// window, and the query URL.
#[derive(Debug)]
pub struct QueryPlan {
    pub instance: String,
    pub limit: Limit,
    pub window_seconds: i64,
    pub url: String,
}

impl QueryPlan {
    /// The plan the configuration and clock dictate for one instance.
    pub open spec fn matches(self, config: Config, instance: Seq<char>, now: CivilTime) -> bool {
        let lim = spec_resolve(config, instance);
        let secs = spec_seconds_since_cycle_start(now, lim.reset_day as int);
        &&& self.instance@ == instance
        &&& self.limit == lim
        &&& self.window_seconds == secs
        &&& self.url@ == spec_generate_url(config.prometheus_url@, instance, secs)
    }
}

/// The instance list with the backend's self-monitoring pseudo-instance
/// removed, order otherwise kept.
pub open spec fn spec_billable(instances: Seq<String>) -> Seq<String>
    decreases instances.len(),
{
    if instances.len() == 0 {
        Seq::empty()
    } else {
        let rest = spec_billable(instances.drop_last());
        if instances.last()@ == "Node Exporter"@ {
            rest
        } else {
            rest.push(instances.last())
        }
    }
}

/// Drop the backend's own exporter from the instance list: it is not
/// billable and must never appear in a report.
pub fn filter_instances(instances: &Vec<String>) -> (r: Vec<String>)
    ensures
        r@ == spec_billable(instances@),
{
    let sentinel = String::from_str("Node Exporter");
    let mut out: Vec<String> = Vec::new();
    let n = instances.len();
    let mut i: usize = 0;
    while i < n
        invariant
            0 <= i <= n,
            n == instances@.len(),
            sentinel@ == "Node Exporter"@,
            out@ == spec_billable(instances@.take(i as int)),
        decreases n - i,
    {
        let inst = &instances[i];
        proof {
            assert(instances@.take(i + 1).drop_last() =~= instances@.take(i as int));
            assert(instances@.take(i + 1).last() == instances@[i as int]);
        }
        if !inst.eq(&sentinel) {
            out.push(inst.clone());
        }
        i = i + 1;
    }
    proof {
        assert(instances@.take(n as int) =~= instances@);
    }
    out
}

/// Resolve every instance's limit and lay out its backend query over the
/// cycle window that the limit's reset day and `now` determine.
pub fn plan_queries(config: &Config, instances: &Vec<String>, now: &CivilTime) -> (r: Vec<
    QueryPlan,
>)
    requires
        config.wf(),
        now.wf(),
    ensures
        r@.len() == instances@.len(),
        forall|i: int|
            0 <= i < r@.len() ==> (#[trigger] r@[i]).matches(*config, instances@[i]@, *now),
{
    let mut out: Vec<QueryPlan> = Vec::new();
    let n = instances.len();
    let mut i: usize = 0;
    while i < n
        invariant
            0 <= i <= n,
            n == instances@.len(),
            config.wf(),
            now.wf(),
            out@.len() == i,
            forall|j: int|
                0 <= j < i ==> (#[trigger] out@[j]).matches(*config, instances@[j]@, *now),
        decreases n - i,
    {
        let inst = &instances[i];
        let lim = resolve(config, inst);
        let url = generate_url(&config.prometheus_url, &lim.reset_day, inst, now);
        let secs = seconds_since_cycle_start(now, lim.reset_day);
        out.push(QueryPlan { instance: inst.clone(), limit: lim, window_seconds: secs, url });
        i = i + 1;
    }
    out
}

/// The first fetch failure among the outcomes, in instance order.
pub open spec fn spec_first_error<V>(outcomes: Seq<FetchOutcome<V>>) -> Option<FetchError>
    decreases outcomes.len(),
{
    if outcomes.len() == 0 {
        Option::None
    } else {
        match outcomes[0] {
            FetchOutcome::Failed(e) => Option::Some(e),
            _ => spec_first_error(outcomes.subrange(1, outcomes.len() as int)),
        }
    }
}

/// The report the outcomes assemble to, assuming none of them failed:
/// each instance whose query returned a value is paired with that value
/// and its resolved byte quota; instances with no data are left out.
pub open spec fn spec_report<V>(plans: Seq<QueryPlan>, outcomes: Seq<FetchOutcome<V>>) -> Seq<
    (String, RawLoad<V>),
>
    decreases plans.len(),
{
    if plans.len() == 0 || outcomes.len() == 0 {
        Seq::empty()
    } else {
        let rest = spec_report(
            plans.subrange(1, plans.len() as int),
            outcomes.subrange(1, outcomes.len() as int),
        );
        match outcomes[0] {
            FetchOutcome::Fetched(v) => seq![
                (plans[0].instance, RawLoad { value: v, limit: plans[0].limit.limit }),
            ] + rest,
            _ => rest,
        }
    }
}

/// Pair each fetched value with its instance's quota, enforcing the
/// aggregation policy.
///
/// Fails if and only if some fetch failed, and then reports the first
/// failure: no partial report is ever produced. On success the report
/// holds exactly the instances whose query returned a value, in order,
/// each with that value and the planned limit's byte quota; instances
/// whose query returned no data are omitted entirely.
#[verifier::loop_isolation(false)]
pub fn assemble_report<V>(plans: Vec<QueryPlan>, outcomes: Vec<FetchOutcome<V>>) -> (r: Result<
    Vec<(String, RawLoad<V>)>,
    AggregationError,
>)
    requires
        plans@.len() == outcomes@.len(),
    ensures
        r is Ok <==> spec_first_error(outcomes@) is None,
        r is Err ==> (match spec_first_error(outcomes@) {
            Option::Some(e) => r->Err_0 == AggregationError::Fetch(e),
            Option::None => false,
        }),
        r is Ok ==> r->Ok_0@ == spec_report(plans@, outcomes@),
{
    let ghost gplans = plans@;
    let ghost gout = outcomes@;
    let mut rem_plans = plans;
    let mut rem_outcomes = outcomes;
    let mut out: Vec<(String, RawLoad<V>)> = Vec::new();
    while rem_plans.len() > 0
        invariant
            rem_plans@.len() == rem_outcomes@.len(),
            spec_first_error::<V>(gout) == spec_first_error(rem_outcomes@),
            spec_report::<V>(gplans, gout) == out@ + spec_report(rem_plans@, rem_outcomes@),
        decreases rem_plans@.len(),
    {
        let ghost pre_plans = rem_plans@;
        let ghost pre_out = rem_outcomes@;
        let plan = rem_plans.remove(0);
        let outcome = rem_outcomes.remove(0);
        proof {
            assert(pre_plans.remove(0) =~= pre_plans.subrange(1, pre_plans.len() as int));
            assert(pre_out.remove(0) =~= pre_out.subrange(1, pre_out.len() as int));
        }
        match outcome {
            FetchOutcome::Failed(e) => {
                return Err(AggregationError::Fetch(e));
            },
            FetchOutcome::NoData => {
            },
            FetchOutcome::Fetched(v) => {
                let entry = (plan.instance, RawLoad { value: v, limit: plan.limit.limit });
                out.push(entry);
                proof {
                    assert(spec_report::<V>(gplans, gout) =~= out@ + spec_report(
                        rem_plans@,
                        rem_outcomes@,
                    ));
                }
            },
        }
    }
    proof {
        assert(spec_report::<V>(rem_plans@, rem_outcomes@) =~= Seq::<(String, RawLoad<V>)>::empty());
        assert(out@ =~= spec_report::<V>(gplans, gout));
    }
    Ok(out)
}

/// Whether `name` is the identifier of some planned instance whose query
/// returned a value.
pub open spec fn spec_name_fetched<V>(
    plans: Seq<QueryPlan>,
    outcomes: Seq<FetchOutcome<V>>,
    name: Seq<char>,
) -> bool {
    exists|j: int|
        0 <= j < plans.len() && (#[trigger] outcomes[j]) is Fetched && plans[j].instance@ == name
}

proof fn lemma_name_fetched_shift<V>(
    plans: Seq<QueryPlan>,
    outcomes: Seq<FetchOutcome<V>>,
    name: Seq<char>,
)
    requires
        plans.len() == outcomes.len(),
        plans.len() > 0,
        spec_name_fetched(
            plans.subrange(1, plans.len() as int),
            outcomes.subrange(1, outcomes.len() as int),
            name,
        ),
    ensures
        spec_name_fetched(plans, outcomes, name),
{
    let tp = plans.subrange(1, plans.len() as int);
    let to = outcomes.subrange(1, outcomes.len() as int);
    let j0 = choose|j0: int|
        0 <= j0 < tp.len() && (#[trigger] to[j0]) is Fetched && tp[j0].instance@ == name;
    assert(outcomes[j0 + 1] is Fetched);
    assert(plans[j0 + 1].instance@ == name);
}

/// Every entry of the assembled report carries the identifier of some
/// planned instance whose query returned a value.
pub proof fn lemma_report_names<V>(plans: Seq<QueryPlan>, outcomes: Seq<FetchOutcome<V>>)
    requires
        plans.len() == outcomes.len(),
    ensures
        forall|k: int|
            0 <= k < spec_report(plans, outcomes).len() ==> spec_name_fetched(
                plans,
                outcomes,
                (#[trigger] spec_report(plans, outcomes)[k]).0@,
            ),
    decreases plans.len(),
{
    if plans.len() == 0 {
    } else {
        let tp = plans.subrange(1, plans.len() as int);
        let to = outcomes.subrange(1, outcomes.len() as int);
        lemma_report_names(tp, to);
        assert forall|k: int| 0 <= k < spec_report(plans, outcomes).len() implies spec_name_fetched(
            plans,
            outcomes,
            (#[trigger] spec_report(plans, outcomes)[k]).0@,
        ) by {
            match outcomes[0] {
                FetchOutcome::Fetched(v) => {
                    if k == 0 {
                        assert(outcomes[0] is Fetched);
                        assert(spec_report(plans, outcomes)[0].0 == plans[0].instance);
                    } else {
                        assert(spec_report(plans, outcomes)[k] == spec_report(tp, to)[k - 1]);
                        lemma_name_fetched_shift(plans, outcomes, spec_report(tp, to)[k - 1].0@);
                    }
                },
                FetchOutcome::NoData => {
                    assert(spec_report(plans, outcomes)[k] == spec_report(tp, to)[k]);
                    lemma_name_fetched_shift(plans, outcomes, spec_report(tp, to)[k].0@);
                },
                FetchOutcome::Failed(_) => {
                    assert(spec_report(plans, outcomes)[k] == spec_report(tp, to)[k]);
                    lemma_name_fetched_shift(plans, outcomes, spec_report(tp, to)[k].0@);
                },
            }
        }
    }
}

/// An instance whose query returned no data is omitted from the report:
/// no entry carries its identifier (the identifiers are taken as distinct,
/// since the backend lists each instance label once).
pub proof fn lemma_no_data_omitted<V>(
    plans: Seq<QueryPlan>,
    outcomes: Seq<FetchOutcome<V>>,
    i: int,
)
    requires
        plans.len() == outcomes.len(),
        0 <= i < plans.len(),
        outcomes[i] is NoData,
        forall|j: int|
            0 <= j < plans.len() && j != i ==> (#[trigger] plans[j].instance)@
                != plans[i].instance@,
    ensures
        forall|k: int|
            0 <= k < spec_report(plans, outcomes).len() ==> (#[trigger] spec_report(
                plans,
                outcomes,
            )[k]).0@ != plans[i].instance@,
{
    lemma_report_names(plans, outcomes);
    assert forall|k: int| 0 <= k < spec_report(plans, outcomes).len() implies (
    #[trigger] spec_report(plans, outcomes)[k]).0@ != plans[i].instance@ by {
        let name = spec_report(plans, outcomes)[k].0@;
        let j = choose|j: int|
            0 <= j < plans.len() && (#[trigger] outcomes[j]) is Fetched && plans[j].instance@
                == name;
        assert(j != i);
    }
}

} // verus!
