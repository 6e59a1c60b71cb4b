//! What a publication comes to once its workers have ended.
use pocketstation::connector::ConnectorError;
use pocketstation::EdgeObservations;
use std::sync::OnceLock;
use vstd::prelude::*;

use crate::audio::opus_worker::EncoderCounters;
use crate::receipts::{
    copy_error, ReceiptRegistry, RegistryView, RelayPublishReceiptKey, RelayPublishResult,
    RelayPublishStatistics, ResultView,
};
use crate::relay_error::{ErrorView, RelayFault};
use crate::rtc::publisher::{PublishStats, PublishStreamStats};
use crate::runtime::statistics;

verus! {

// The run of a group.

/// How the publisher of a group ended.
pub enum PublishExecution {
    /// It ran, and the encoders were joined.
    Finished { result: Result<PublishStats, String>, encoder_failed: bool },
    /// It did not start.
    StartFailed(String),
}

/// The fault that all routes of a group share.
pub open spec fn shared_fault(execution: PublishExecution, feeder_failed: bool) -> Option<
    RelayFault,
> {
    match execution {
        PublishExecution::StartFailed(error) => Some(RelayFault::PublisherStartFailed(error)),
        PublishExecution::Finished { result, encoder_failed } => match result {
            Err(error) => Some(RelayFault::PublisherFailed(error)),
            Ok(_) => if encoder_failed {
                Some(RelayFault::EncoderPanicked)
            } else if feeder_failed {
                Some(RelayFault::FeederPanicked)
            } else {
                None
            },
        },
    }
}

/// What the publisher counted, where it ended well.
pub open spec fn publish_stats(execution: PublishExecution) -> Option<PublishStats> {
    match execution {
        PublishExecution::Finished { result: Ok(stats), .. } => Some(stats),
        _ => None,
    }
}

pub open spec fn report_of(fault: Option<RelayFault>) -> Option<ErrorView> {
    match fault {
        Some(fault) => Some(crate::relay_error::fault_report(fault)),
        None => None,
    }
}

/// What the publisher counted, and the error that all routes of the group share.
pub fn conclude_execution(execution: PublishExecution, feeder_failed: bool) -> (r: (
    Option<PublishStats>,
    Option<ConnectorError>,
))
    requires
        shared_fault(execution, feeder_failed) matches Some(fault)
            ==> crate::relay_error::reportable(fault),
    ensures
        r.0 == publish_stats(execution),
        crate::receipts::error_view(r.1) == report_of(shared_fault(execution, feeder_failed)),
{
    match execution {
        PublishExecution::StartFailed(error) => {
            (None, Some(RelayFault::PublisherStartFailed(error).report()))
        },
        PublishExecution::Finished { result, encoder_failed } => match result {
            Err(error) => (None, Some(RelayFault::PublisherFailed(error).report())),
            Ok(stats) => if encoder_failed {
                (Some(stats), Some(RelayFault::EncoderPanicked.report()))
            } else if feeder_failed {
                (Some(stats), Some(RelayFault::FeederPanicked.report()))
            } else {
                (Some(stats), None)
            },
        },
    }
}

// The routes of a group.

/// What one route of a group came to.
#[derive(Debug)]
pub struct RelayTransportOutcome {
    pub statistics: RelayPublishStatistics,
    pub edge_observations: EdgeObservations,
    pub error: Option<ConnectorError>,
}

/// What an outcome says.
pub struct OutcomeView {
    pub statistics: RelayPublishStatistics,
    pub edge_observations: EdgeObservations,
    pub error: Option<ErrorView>,
}

impl View for RelayTransportOutcome {
    type V = OutcomeView;

    open spec fn view(&self) -> OutcomeView {
        OutcomeView {
            statistics: self.statistics,
            edge_observations: self.edge_observations,
            error: crate::receipts::error_view(self.error),
        }
    }
}

pub open spec fn outcome_views(outcomes: Seq<RelayTransportOutcome>) -> Seq<OutcomeView> {
    outcomes.map_values(|outcome: RelayTransportOutcome| outcome@)
}

/// The error of a route: the one that the group shares, or else that its own audio was
/// not processed whole.
pub open spec fn route_error_view(
    shared: Option<ErrorView>,
    counters: EncoderCounters,
) -> Option<ErrorView> {
    if shared is Some {
        shared
    } else if counters.opus_encode_errors > 0 || counters.normalization_partial_samples_discarded
        > 0 {
        Some(
            crate::relay_error::fault_report(
                RelayFault::AudioProcessingFailed {
                    encode_errors: counters.opus_encode_errors,
                    partial_samples_discarded: counters.normalization_partial_samples_discarded,
                },
            ),
        )
    } else {
        None
    }
}

/// The error of a route.
pub fn route_error(shared: &Option<ConnectorError>, counters: &EncoderCounters) -> (error: Option<
    ConnectorError,
>)
    ensures
        crate::receipts::error_view(error) == route_error_view(
            crate::receipts::error_view(*shared),
            *counters,
        ),
{
    if shared.is_some() {
        return copy_error(shared);
    }
    if counters.opus_encode_errors > 0 || counters.normalization_partial_samples_discarded > 0 {
        return Some(
            (RelayFault::AudioProcessingFailed {
                encode_errors: counters.opus_encode_errors,
                partial_samples_discarded: counters.normalization_partial_samples_discarded,
            }).report(),
        );
    }
    None
}

/// What the publisher counted for the route at a place.
pub open spec fn stream_stats(publish: Option<PublishStats>, i: int) -> Option<PublishStreamStats> {
    if publish is Some && 0 <= i < publish->0.streams@.len() {
        Some(publish->0.streams@[i])
    } else {
        None
    }
}

/// What one route came to, apart from what Core observed of it.
#[derive(Debug)]
pub struct RouteReport {
    pub statistics: RelayPublishStatistics,
    pub error: Option<ConnectorError>,
}

/// Whether a report is that of the route at place `i`.
pub open spec fn reports_route(
    report: RouteReport,
    i: int,
    counters: EncoderCounters,
    ingress_drops: u64,
    publish: Option<PublishStats>,
    shared: Option<ErrorView>,
) -> bool {
    &&& report.statistics == crate::runtime::statistics_of(
        counters,
        ingress_drops,
        publish,
        stream_stats(publish, i),
    )
    &&& crate::receipts::error_view(report.error) == route_error_view(shared, counters)
}

/// What each route of a group came to, given what was counted for it.
pub fn route_reports(
    counters: &Vec<EncoderCounters>,
    ingress_drops: &Vec<u64>,
    publish: &Option<PublishStats>,
    shared: &Option<ConnectorError>,
) -> (reports: Vec<RouteReport>)
    requires
        counters@.len() == ingress_drops@.len(),
    ensures
        reports@.len() == counters@.len(),
        forall|i: int|
            0 <= i < reports@.len() ==> reports_route(
                #[trigger] reports@[i],
                i,
                counters@[i],
                ingress_drops@[i],
                *publish,
                crate::receipts::error_view(*shared),
            ),
{
    let mut reports: Vec<RouteReport> = Vec::new();
    let mut i: usize = 0;
    while i < counters.len()
        invariant
            i <= counters@.len() == ingress_drops@.len(),
            reports@.len() == i,
            forall|j: int|
                0 <= j < i ==> reports_route(
                    #[trigger] reports@[j],
                    j,
                    counters@[j],
                    ingress_drops@[j],
                    *publish,
                    crate::receipts::error_view(*shared),
                ),
        decreases counters.len() - i,
    {
        let stream = match publish {
            Some(stats) => if i < stats.streams.len() {
                Some(stats.streams[i])
            } else {
                None
            },
            None => None,
        };
        reports.push(
            RouteReport {
                statistics: statistics(&counters[i], ingress_drops[i], publish, stream),
                error: route_error(shared, &counters[i]),
            },
        );
        i = i + 1;
    }
    reports
}

/// What the routes came to, with what Core observed of each.
pub fn transport_outcomes(
    reports: &Vec<RouteReport>,
    observations: &Vec<EdgeObservations>,
) -> (outcomes: Vec<RelayTransportOutcome>)
    requires
        reports@.len() == observations@.len(),
    ensures
        outcomes@.len() == reports@.len(),
        forall|i: int|
            0 <= i < outcomes@.len() ==> (#[trigger] outcomes@[i])@ == (OutcomeView {
                statistics: reports@[i].statistics,
                edge_observations: observations@[i],
                error: crate::receipts::error_view(reports@[i].error),
            }),
{
    let mut outcomes: Vec<RelayTransportOutcome> = Vec::new();
    let mut i: usize = 0;
    while i < reports.len()
        invariant
            i <= reports@.len() == observations@.len(),
            outcomes@.len() == i,
            forall|j: int|
                0 <= j < i ==> (#[trigger] outcomes@[j])@ == (OutcomeView {
                    statistics: reports@[j].statistics,
                    edge_observations: observations@[j],
                    error: crate::receipts::error_view(reports@[j].error),
                }),
        decreases reports.len() - i,
    {
        outcomes.push(
            RelayTransportOutcome {
                statistics: reports[i].statistics,
                edge_observations: observations[i],
                error: copy_error(&reports[i].error),
            },
        );
        i = i + 1;
    }
    outcomes
}

/// What the routes came to where all failed at once.
pub fn failed_outcomes(
    observations: &Vec<EdgeObservations>,
    error: &ConnectorError,
) -> (outcomes: Vec<RelayTransportOutcome>)
    ensures
        outcomes@.len() == observations@.len(),
        forall|i: int|
            0 <= i < outcomes@.len() ==> (#[trigger] outcomes@[i])@ == (OutcomeView {
                statistics: crate::receipts::no_statistics(),
                edge_observations: observations@[i],
                error: Some(crate::boundary::error_parts(*error)),
            }),
{
    let mut outcomes: Vec<RelayTransportOutcome> = Vec::new();
    let mut i: usize = 0;
    while i < observations.len()
        invariant
            i <= observations@.len(),
            outcomes@.len() == i,
            forall|j: int|
                0 <= j < i ==> (#[trigger] outcomes@[j])@ == (OutcomeView {
                    statistics: crate::receipts::no_statistics(),
                    edge_observations: observations@[j],
                    error: Some(crate::boundary::error_parts(*error)),
                }),
        decreases observations.len() - i,
    {
        outcomes.push(
            RelayTransportOutcome {
                statistics: RelayPublishStatistics::default(),
                edge_observations: observations[i],
                error: Some(error.clone()),
            },
        );
        i = i + 1;
    }
    outcomes
}

/// What the routes came to where another number of streams was prepared for them, or none
/// where the numbers agree.
pub fn mismatched_outcomes(prepared: usize, observations: &Vec<EdgeObservations>) -> (r: Option<
    Vec<RelayTransportOutcome>,
>)
    ensures
        r is None <==> prepared == observations@.len(),
        r matches Some(outcomes) ==> {
            &&& outcomes@.len() == observations@.len()
            &&& forall|i: int|
                0 <= i < outcomes@.len() ==> (#[trigger] outcomes@[i])@ == (OutcomeView {
                    statistics: crate::receipts::no_statistics(),
                    edge_observations: observations@[i],
                    error: Some(
                        crate::relay_error::fault_report(RelayFault::PreparedStreamMismatch),
                    ),
                })
        },
{
    if prepared == observations.len() {
        return None;
    }
    Some(failed_outcomes(observations, &RelayFault::PreparedStreamMismatch.report()))
}

// The end of the worker.

/// The first error among the routes.
pub open spec fn first_error(outcomes: Seq<OutcomeView>) -> Option<ErrorView>
    decreases outcomes.len(),
{
    if outcomes.len() == 0 {
        None
    } else if outcomes[0].error is Some {
        outcomes[0].error
    } else {
        first_error(outcomes.drop_first())
    }
}

/// What the worker of a group reports at its end. A publisher that ended without an error
/// has still failed, unless it was told to stop.
pub open spec fn run_error(
    expected: nat,
    outcomes: Seq<OutcomeView>,
    stop_requested: bool,
) -> Option<ErrorView> {
    if outcomes.len() != expected {
        Some(crate::relay_error::fault_report(RelayFault::InvalidOutcomeCount))
    } else if first_error(outcomes) is Some {
        first_error(outcomes)
    } else if stop_requested {
        None
    } else {
        Some(crate::relay_error::fault_report(RelayFault::PublisherExited))
    }
}

/// What the worker of a group reports at its end.
pub fn conclude_run(
    expected: usize,
    outcomes: &Vec<RelayTransportOutcome>,
    stop_requested: bool,
) -> (r: Result<(), ConnectorError>)
    ensures
        match r {
            Ok(()) => run_error(expected as nat, outcome_views(outcomes@), stop_requested) is None,
            Err(error) => run_error(expected as nat, outcome_views(outcomes@), stop_requested)
                == Some(crate::boundary::error_parts(error)),
        },
{
    if outcomes.len() != expected {
        return Err(RelayFault::InvalidOutcomeCount.report());
    }
    let ghost all = outcome_views(outcomes@);
    let mut i: usize = 0;
    assert(all.skip(0) =~= all);
    while i < outcomes.len()
        invariant
            i <= outcomes@.len() == expected,
            all == outcome_views(outcomes@),
            first_error(all) == first_error(all.skip(i as int)),
        decreases outcomes.len() - i,
    {
        proof {
            assert(all.skip(i as int)[0] == outcomes@[i as int]@);
            assert(all.skip(i as int).drop_first() =~= all.skip(i + 1));
        }
        if let Some(error) = &outcomes[i].error {
            return Err(error.clone());
        }
        i = i + 1;
    }
    if stop_requested {
        Ok(())
    } else {
        Err(RelayFault::PublisherExited.report())
    }
}

pub open spec fn result_view(key: u128, outcome: OutcomeView) -> ResultView {
    ResultView {
        key,
        statistics: outcome.statistics,
        edge_observations: outcome.edge_observations,
        error: outcome.error,
    }
}

/// The place of the last route with that key, or -1.
pub open spec fn last_place(keys: Seq<u128>, key: u128) -> int
    decreases keys.len(),
{
    if keys.len() == 0 {
        -1
    } else if keys.last() == key {
        keys.len() - 1
    } else {
        last_place(keys.drop_last(), key)
    }
}

/// The registry's receipts once the routes have their results. Where a key stands for
/// several routes, the last of them counts.
pub open spec fn receipts_settled(
    receipts: Map<u128, Option<ResultView>>,
    keys: Seq<u128>,
    outcomes: Seq<OutcomeView>,
) -> Map<u128, Option<ResultView>> {
    Map::new(
        |key: u128| receipts.contains_key(key),
        |key: u128|
            {
                let i = last_place(keys, key);
                if i >= 0 {
                    crate::receipts::settled(receipts[key], result_view(key, outcomes[i]))
                } else {
                    receipts[key]
                }
            },
    )
}

pub(crate) proof fn lemma_last_place(keys: Seq<u128>, key: u128)
    ensures
        -1 <= last_place(keys, key) < keys.len(),
        last_place(keys, key) >= 0 ==> keys[last_place(keys, key)] == key,
        forall|j: int| last_place(keys, key) < j < keys.len() ==> (#[trigger] keys[j]) != key,
    decreases keys.len(),
{
    if keys.len() > 0 && keys.last() != key {
        lemma_last_place(keys.drop_last(), key);
        let i = last_place(keys, key);
        assert forall|j: int| i < j < keys.len() implies (#[trigger] keys[j]) != key by {
            if j < keys.len() - 1 {
                assert(keys.drop_last()[j] == keys[j]);
            }
        }
    }
}

/// Settling the routes from place `i` on is settling those behind it first.
proof fn lemma_settled_from(
    receipts: Map<u128, Option<ResultView>>,
    keys: Seq<u128>,
    outcomes: Seq<OutcomeView>,
    i: int,
)
    requires
        0 <= i < keys.len() == outcomes.len(),
    ensures
        receipts_settled(receipts, keys.skip(i), outcomes.skip(i)) == crate::receipts::completed(
            receipts_settled(receipts, keys.skip(i + 1), outcomes.skip(i + 1)),
            keys[i],
            result_view(keys[i], outcomes[i]),
        ),
{
    let all = keys.skip(i);
    let rest = keys.skip(i + 1);
    let before = receipts_settled(receipts, rest, outcomes.skip(i + 1));
    let after = receipts_settled(receipts, all, outcomes.skip(i));
    assert forall|key: u128| receipts.contains_key(key) implies #[trigger] after[key]
        == crate::receipts::completed(
        before,
        keys[i],
        result_view(keys[i], outcomes[i]),
    )[key] by {
        lemma_last_place(all, key);
        lemma_last_place(rest, key);
        let a = last_place(all, key);
        let r = last_place(rest, key);
        if r >= 0 {
            assert(all[r + 1] == rest[r]);
            if a > r + 1 {
                assert(rest[a - 1] == all[a]);
            }
            assert(a == r + 1);
        } else {
            if a > 0 {
                assert(rest[a - 1] == all[a]);
            }
            assert(all[0] == keys[i]);
        }
    }
    assert(after =~= crate::receipts::completed(
        before,
        keys[i],
        result_view(keys[i], outcomes[i]),
    ));
}

/// Whether every new result was entered into the place that the receipts show.
pub open spec fn results_shown(
    before: Map<u128, Option<ResultView>>,
    after: Map<u128, Option<ResultView>>,
    places: Map<u128, OnceLock<RelayPublishResult>>,
) -> bool {
    forall|key: u128|
        before.contains_key(key) && before[key] is None && (#[trigger] after[key]) is Some
            ==> crate::receipts::was_entered(places[key], after[key]->0)
}

/// Enters the results of a group into its receipts.
pub fn settle(
    registry: &mut ReceiptRegistry,
    keys: &Vec<RelayPublishReceiptKey>,
    outcomes: &Vec<RelayTransportOutcome>,
)
    requires
        old(registry).wf(),
        keys@.len() == outcomes@.len(),
    ensures
        final(registry).wf(),
        final(registry)@ == (RegistryView {
            receipts: receipts_settled(
                old(registry)@.receipts,
                crate::receipts::key_views(keys@),
                outcome_views(outcomes@),
            ),
            ..old(registry)@
        }),
        final(registry).places() == old(registry).places(),
        results_shown(old(registry)@.receipts, final(registry)@.receipts, old(registry).places()),
{
    let ghost numbers = crate::receipts::key_views(keys@);
    let ghost views = outcome_views(outcomes@);
    let mut i: usize = keys.len();
    proof {
        assert(last_place(numbers.skip(i as int), 0) == -1);
        assert(receipts_settled(
            old(registry)@.receipts,
            numbers.skip(i as int),
            views.skip(i as int),
        ) =~= old(registry)@.receipts);
    }
    // A receipt keeps the first result, so the last route comes first.
    while i > 0
        invariant
            i <= keys@.len() == outcomes@.len(),
            numbers == crate::receipts::key_views(keys@),
            views == outcome_views(outcomes@),
            registry.wf(),
            registry@ == (RegistryView {
                receipts: receipts_settled(
                    old(registry)@.receipts,
                    numbers.skip(i as int),
                    views.skip(i as int),
                ),
                ..old(registry)@
            }),
            registry.places() == old(registry).places(),
            results_shown(old(registry)@.receipts, registry@.receipts, registry.places()),
        decreases i,
    {
        i = i - 1;
        let result = RelayPublishResult {
            key: keys[i],
            statistics: outcomes[i].statistics,
            edge_observations: outcomes[i].edge_observations,
            error: copy_error(&outcomes[i].error),
        };
        proof {
            assert(result@ == result_view(numbers[i as int], views[i as int]));
            lemma_settled_from(old(registry)@.receipts, numbers, views, i as int);
        }
        registry.complete(result);
    }
    assert(numbers.skip(0) =~= numbers);
    assert(views.skip(0) =~= views);
}

// What holds of the results of a group.

/// A run is reported as a success only where no route has an error and a stop was
/// requested.
pub proof fn success_means_no_errors(
    expected: nat,
    outcomes: Seq<OutcomeView>,
    stop_requested: bool,
)
    ensures
        run_error(expected, outcomes, stop_requested) is None <==> (outcomes.len() == expected
            && stop_requested && forall|i: int|
            0 <= i < outcomes.len() ==> (#[trigger] outcomes[i]).error is None),
{
    lemma_first_error(outcomes);
}

proof fn lemma_first_error(outcomes: Seq<OutcomeView>)
    ensures
        first_error(outcomes) is None <==> (forall|i: int|
            0 <= i < outcomes.len() ==> (#[trigger] outcomes[i]).error is None),
    decreases outcomes.len(),
{
    if outcomes.len() > 0 {
        let rest = outcomes.drop_first();
        lemma_first_error(rest);
        if first_error(outcomes) is None {
            assert forall|i: int| 0 <= i < outcomes.len() implies (
            #[trigger] outcomes[i]).error is None by {
                if i > 0 {
                    assert(rest[i - 1] == outcomes[i]);
                }
            }
        } else if outcomes[0].error is None {
            let k = choose|k: int| 0 <= k < rest.len() && !((#[trigger] rest[k]).error is None);
            assert(outcomes[k + 1] == rest[k]);
        }
    }
}

/// Each route of a prepared group finds the result of its own publication in its receipt.
/// Routes that share a key share the receipt, which holds the result of the last of them.
pub proof fn every_route_gets_its_result(
    receipts: Map<u128, Option<ResultView>>,
    keys: Seq<u128>,
    outcomes: Seq<OutcomeView>,
    i: int,
)
    requires
        keys.len() == outcomes.len(),
        !crate::receipts::any_reserved(receipts, keys),
        0 <= i < keys.len(),
    ensures
        ({
            let after = receipts_settled(
                crate::receipts::reserved(receipts, keys),
                keys,
                outcomes,
            );
            let last = last_place(keys, keys[i]);
            &&& i <= last < keys.len()
            &&& keys[last] == keys[i]
            &&& keys.no_duplicates() ==> last == i
            &&& crate::receipts::has_result(after, keys[i])
            &&& after[keys[i]] == Some(result_view(keys[i], outcomes[last]))
        }),
{
    lemma_last_place(keys, keys[i]);
    assert(keys.contains(keys[i]));
}

} // verus!
