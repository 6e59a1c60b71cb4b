use std::sync::atomic::{AtomicBool, AtomicU64, AtomicUsize, Ordering};
use std::sync::{Arc, Mutex};
use std::time::{Duration, Instant};

use pocketstation::connector::{
    Connector, ConnectorContext, ConnectorError, ConnectorFactory, ConnectorRetryability,
    ConnectorRunOutcome, ConnectorSecret, ConnectorWorker,
};
use pocketstation::graph::NodeConfig;
use pocketstation::{
    ApplicationSelector, EndpointAudioReceiver, EndpointGroupId, EndpointPortInput,
    EndpointPreparationGroup, EndpointReceiver, RouteId, RouteSettings, Session, Source,
};
use pocketstation_relay::connector::PACKAGE_VERSION;
use pocketstation_relay::outcomes::{conclude_run, failed_outcomes, settle, RelayTransportOutcome};
use pocketstation_relay::receipts::{ReceiptRegistry, RelayPublishResult};
use pocketstation_relay::relay_error::{relay_error, ErrorStage, Retryability};
use pocketstation_relay::runtime::{
    dropped_frames, feed_step, prepare_group, preparation_group, FeedStep, RouteInput,
};
use pocketstation_relay::{
    relay_connector_manifest, RelayPublishReceiptKey, RelayPublishStatistics,
    RelayRouteConfiguration,
};

#[derive(Default)]
struct FakeTransportState {
    prepares: AtomicUsize,
    runs: AtomicUsize,
    inputs: AtomicUsize,
    cancels: AtomicUsize,
    fail_run: AtomicBool,
    shutdown_mode: AtomicU64,
}

struct FakeFactory {
    state: Arc<FakeTransportState>,
    receipts: Arc<Mutex<ReceiptRegistry>>,
}

impl FakeFactory {
    fn take_result(&self, key: RelayPublishReceiptKey) -> Option<RelayPublishResult> {
        self.receipts.lock().unwrap().take_result(key)
    }
}

impl ConnectorFactory for FakeFactory {
    fn preparation_group(
        &self,
        _route_id: RouteId,
        configuration: &NodeConfig,
    ) -> Result<EndpointPreparationGroup, ConnectorError> {
        let route = RelayRouteConfiguration::from_node_config(configuration, None);
        match preparation_group(&route) {
            Ok(group) => Ok(EndpointPreparationGroup::Shared(EndpointGroupId::new(group))),
            Err(fault) => Err(fault.report()),
        }
    }

    fn prepare(
        &self,
        inputs: Vec<EndpointPortInput>,
    ) -> Result<Box<dyn ConnectorWorker>, ConnectorError> {
        let mut receivers = Vec::new();
        let mut keys = Vec::new();
        let mut group = Vec::new();
        for input in inputs {
            let context = input.context();
            let key = RelayPublishReceiptKey {
                endpoint_id: context.endpoint_id(),
                route_id: context.route_context().route_id(),
            };
            let configuration =
                RelayRouteConfiguration::from_node_config(context.node_configuration(), None);
            let (receiver, _) = input.into_parts();
            let is_audio = match receiver {
                EndpointReceiver::Audio { receiver, .. } => {
                    receivers.push(receiver);
                    true
                }
                EndpointReceiver::Signal(_) => false,
            };
            keys.push(key);
            group.push(RouteInput {
                key,
                configuration,
                is_audio,
            });
        }
        let routes = prepare_group(&mut self.receipts.lock().unwrap(), &group)
            .map_err(|fault| fault.report())?;
        self.state.prepares.fetch_add(1, Ordering::Relaxed);
        self.state.inputs.store(routes.len(), Ordering::Relaxed);
        Ok(Box::new(FakeWorker {
            state: Arc::clone(&self.state),
            receipts: Arc::clone(&self.receipts),
            keys,
            receivers,
        }))
    }
}

struct FakeWorker {
    state: Arc<FakeTransportState>,
    receipts: Arc<Mutex<ReceiptRegistry>>,
    keys: Vec<RelayPublishReceiptKey>,
    receivers: Vec<EndpointAudioReceiver>,
}

impl FakeWorker {
    fn outcomes(&mut self, context: &ConnectorContext) -> Vec<RelayTransportOutcome> {
        self.state.runs.fetch_add(1, Ordering::Relaxed);
        if self.state.fail_run.load(Ordering::Acquire) {
            let error = relay_error(
                "relay.test_delivery_failure",
                ErrorStage::Delivery,
                Retryability::Retryable,
                "injected relay delivery failure",
            );
            let observations = self
                .receivers
                .iter()
                .map(EndpointAudioReceiver::observations)
                .collect();
            return failed_outcomes(&observations, &error);
        }
        let mut delivered = vec![0_u64; self.receivers.len()];
        loop {
            let mut progressed = false;
            if !context.is_abort_requested() {
                for (index, receiver) in self.receivers.iter_mut().enumerate() {
                    if receiver.try_recv().is_some() {
                        context.record_frame_received(1);
                        delivered[index] = delivered[index].saturating_add(1);
                        progressed = true;
                    }
                }
            }
            match feed_step(
                context.is_abort_requested(),
                progressed,
                context.shutdown_mode().is_some(),
            ) {
                FeedStep::Stop => break,
                FeedStep::Forward => {}
                FeedStep::Wait => {
                    let _ = context.wait_for_stop(Duration::from_millis(1));
                }
            }
        }
        self.state.shutdown_mode.store(
            match context.shutdown_mode() {
                Some(pocketstation::EndpointShutdownMode::Drain) => 1,
                Some(pocketstation::EndpointShutdownMode::Abort) => 2,
                None => 0,
            },
            Ordering::Release,
        );
        self.receivers
            .iter()
            .zip(delivered)
            .map(|(receiver, delivered)| RelayTransportOutcome {
                statistics: RelayPublishStatistics {
                    rtp_packets_sent_total: delivered,
                    ..RelayPublishStatistics::default()
                },
                edge_observations: receiver.observations(),
                error: None,
            })
            .collect()
    }
}

impl ConnectorWorker for FakeWorker {
    fn run(mut self: Box<Self>, context: ConnectorContext) -> ConnectorRunOutcome {
        let _ = context.report_readiness_success();
        let outcomes = self.outcomes(&context);
        for outcome in &outcomes {
            context.record_frame_delivered(outcome.statistics.rtp_packets_sent_total);
            context.record_frame_dropped(dropped_frames(
                outcome.edge_observations.frames_dropped_total,
                &outcome.statistics,
            ));
        }
        let conclusion = conclude_run(self.keys.len(), &outcomes, context.is_stop_requested());
        settle(&mut self.receipts.lock().unwrap(), &self.keys, &outcomes);
        ConnectorRunOutcome::new(conclusion)
    }

    fn cancel_preparation(self: Box<Self>) -> Result<(), ConnectorError> {
        self.state.cancels.fetch_add(1, Ordering::Relaxed);
        self.receipts.lock().unwrap().release(&self.keys);
        Ok(())
    }
}

fn fixture(receipt_capacity: usize) -> (Session, Arc<FakeFactory>, Arc<FakeTransportState>) {
    let session = pocketstation::conformance::session().expect("fixture Session");
    let state = Arc::new(FakeTransportState::default());
    let factory = Arc::new(FakeFactory {
        state: Arc::clone(&state),
        receipts: Arc::new(Mutex::new(
            ReceiptRegistry::new(receipt_capacity).expect("valid fake factory"),
        )),
    });
    (session, factory, state)
}

fn declare_bus(
    session: &Session,
    registered: &pocketstation::connector::RegisteredConnector,
    bus_id: &str,
    publisher_group_id: &str,
    relay_session_id: &str,
) -> pocketstation::EndpointHandle {
    let configuration = RelayRouteConfiguration::new(
        "https://relay.invalid".to_owned(),
        relay_session_id.to_owned(),
        ConnectorSecret::new("source-secret").expect("secret"),
        bus_id.to_owned(),
    )
    .expect("route configuration")
    .with_publisher_group(publisher_group_id.to_owned())
    .expect("publisher group")
    .connector_configuration()
    .expect("connector configuration");
    registered
        .declare(session, configuration, RouteSettings::realtime_audio())
        .expect("relay endpoint declaration")
}

struct Declared {
    registered: pocketstation::connector::RegisteredConnector,
    application: RelayPublishReceiptKey,
    microphone: RelayPublishReceiptKey,
}

fn declare_two(
    session: &Session,
    factory: &Arc<FakeFactory>,
    groups: [&str; 2],
    sessions: [&str; 2],
) -> Declared {
    let registered = session
        .register_connector(
            Connector::new(
                relay_connector_manifest().expect("manifest"),
                Arc::clone(factory) as Arc<dyn ConnectorFactory>,
            )
            .expect("connector"),
        )
        .expect("registration");
    let application_endpoint =
        declare_bus(session, &registered, "application", groups[0], sessions[0]);
    let microphone_endpoint =
        declare_bus(session, &registered, "microphone", groups[1], sessions[1]);
    let application = session
        .capture(Source::application(ApplicationSelector::name("Demo")))
        .expect("application capture");
    let microphone = session
        .capture(Source::microphone_default())
        .expect("microphone capture");
    let application_route = application.send(application_endpoint).expect("application route");
    let microphone_route = microphone.send(microphone_endpoint).expect("microphone route");
    Declared {
        registered,
        application: RelayPublishReceiptKey {
            endpoint_id: application_endpoint.id(),
            route_id: application_route,
        },
        microphone: RelayPublishReceiptKey {
            endpoint_id: microphone_endpoint.id(),
            route_id: microphone_route,
        },
    }
}

fn wait_until(deadline: Instant, done: impl Fn() -> bool) {
    while !done() && Instant::now() < deadline {
        std::hint::spin_loop();
    }
}

#[test]
fn grouped_audio_buses_share_one_core_managed_worker_and_publish_results() {
    let (session, factory, state) = fixture(8);
    let declared = declare_two(
        &session,
        &factory,
        ["publisher-a", "publisher-a"],
        ["session-a", "session-a"],
    );

    let mut running = session.start().expect("start");
    let deadline = Instant::now() + Duration::from_secs(2);
    wait_until(deadline, || state.runs.load(Ordering::Acquire) > 0);
    wait_until(Instant::now() + Duration::from_millis(60), || false);
    assert!(running.stop().is_success());

    assert_eq!(state.prepares.load(Ordering::Relaxed), 1);
    assert_eq!(state.runs.load(Ordering::Relaxed), 1);
    assert_eq!(state.inputs.load(Ordering::Relaxed), 2);
    assert_eq!(state.cancels.load(Ordering::Relaxed), 0);
    assert_eq!(state.shutdown_mode.load(Ordering::Acquire), 1);
    for key in [declared.application, declared.microphone] {
        let result = factory.take_result(key).expect("relay result");
        assert_eq!(result.key, key);
        assert!(result.error.is_none());
        assert!(result.statistics.rtp_packets_sent_total > 0);
        assert!(factory.take_result(key).is_none());
    }
    let observations = declared.registered.observations().expect("observations");
    assert_eq!(observations.len(), 1);
    assert_eq!(observations[0].endpoint_ids.len(), 2);
    assert!(observations[0].endpoint.frames_received_total > 0);
    assert!(observations[0].endpoint.frames_delivered_total > 0);
}

#[test]
fn given_running_relay_when_session_is_cancelled_then_transport_receives_abort_intent() {
    let (session, factory, state) = fixture(2);
    declare_two(
        &session,
        &factory,
        ["publisher-a", "publisher-a"],
        ["session-a", "session-a"],
    );

    let mut running = session.start().expect("start");
    assert!(running.cancel().is_success());
    assert_eq!(state.shutdown_mode.load(Ordering::Acquire), 2);
}

#[test]
fn grouped_routes_with_different_sessions_fail_before_transport_preparation() {
    let (session, factory, state) = fixture(8);
    declare_two(
        &session,
        &factory,
        ["publisher-a", "publisher-a"],
        ["session-a", "session-b"],
    );

    let Err(error) = session.start() else {
        panic!("publisher mismatch must fail");
    };
    assert!(error.to_string().contains("relay.publisher_group_mismatch"));
    assert_eq!(state.prepares.load(Ordering::Relaxed), 0);
}

#[test]
fn receipt_capacity_is_bounded_before_network_preparation() {
    let (session, factory, state) = fixture(1);
    declare_two(
        &session,
        &factory,
        ["publisher-a", "publisher-a"],
        ["session-a", "session-a"],
    );

    let Err(error) = session.start() else {
        panic!("receipt capacity must fail");
    };
    assert!(error
        .to_string()
        .contains("relay.receipt_capacity_exhausted"));
    assert_eq!(state.prepares.load(Ordering::Relaxed), 0);
}

#[test]
fn later_group_failure_cancels_an_already_prepared_relay_worker() {
    let (session, factory, state) = fixture(1);
    declare_two(
        &session,
        &factory,
        ["publisher-a", "publisher-b"],
        ["session-a", "session-a"],
    );

    let Err(error) = session.start() else {
        panic!("second publisher group must exhaust receipt capacity");
    };
    assert!(error
        .to_string()
        .contains("relay.receipt_capacity_exhausted"));
    assert_eq!(state.prepares.load(Ordering::Relaxed), 1);
    assert_eq!(state.cancels.load(Ordering::Relaxed), 1);
}

#[test]
fn provider_delivery_failure_reaches_receipt_observations_and_stop_outcome() {
    let (session, factory, state) = fixture(2);
    state.fail_run.store(true, Ordering::Release);
    let declared = declare_two(
        &session,
        &factory,
        ["publisher-a", "publisher-a"],
        ["session-a", "session-a"],
    );
    let key = declared.application;

    let mut running = session.start().expect("start");
    let deadline = Instant::now() + Duration::from_secs(2);
    wait_until(deadline, || {
        factory
            .receipts
            .lock()
            .unwrap()
            .receipt(key)
            .is_some_and(|receipt| receipt.result().is_some())
    });
    let stop = running.stop();
    assert!(!stop.is_success());
    let result = factory.take_result(key).expect("failure result");
    let error = result.error.expect("provider error");
    assert_eq!(error.code().as_str(), "relay.test_delivery_failure");
    assert_eq!(error.retryability(), ConnectorRetryability::Retryable);
    let observations = declared.registered.observations().expect("observations");
    assert_eq!(observations[0].connector.failures_total, 1);
    assert_eq!(observations[0].endpoint.failures_total, 1);
}

#[test]
fn manifest_and_configuration_keep_secrets_redacted() {
    let manifest = relay_connector_manifest().expect("manifest");
    assert_eq!(manifest.node().inputs().len(), 1);
    let configuration = RelayRouteConfiguration::new(
        "https://relay.invalid".to_owned(),
        "session-a".to_owned(),
        ConnectorSecret::new("never-print-this").expect("secret"),
        "application".to_owned(),
    )
    .expect("configuration");
    let debug = format!("{configuration:?}");
    assert!(!debug.contains("never-print-this"));
    let resolved = manifest
        .configuration()
        .resolve(
            &configuration
                .connector_configuration()
                .expect("connector configuration"),
        )
        .expect("resolved configuration");
    assert!(!format!("{resolved:?}").contains("never-print-this"));
}

#[test]
fn the_manifest_declares_the_connector() {
    let manifest = relay_connector_manifest().expect("manifest");
    assert_eq!(manifest.operator_id().as_str(), "io.pocketstation.relay.publish.v1");
    assert_eq!(manifest.package_version(), PACKAGE_VERSION);
    assert_eq!(manifest.manifest_revision(), 1);
    let node = manifest.node();
    assert_eq!(node.type_id().as_str(), "io.pocketstation.relay.publish.node.v1");
    assert_eq!(node.display_name(), "PocketStation Relay publisher");
    assert_eq!(node.inputs()[0].name(), "audio");
    assert!(node.outputs().is_empty());
    assert_eq!(
        node.execution(),
        pocketstation::graph::ExecutionPartition::AsyncWorker
    );
    assert_eq!(
        node.safety(),
        pocketstation::graph::ExecutionSafety::NetworkAllowed
    );
    let names: Vec<&str> = manifest
        .configuration()
        .fields()
        .iter()
        .map(|field| field.name())
        .collect();
    assert_eq!(
        names,
        vec![
            "relay_url",
            "relay_session_id",
            "source_token",
            "bus_id",
            "publisher_group_id",
            "latency_profile",
            "ice_servers",
            "startup_timeout_ms"
        ]
    );
    let field = manifest.configuration().field("latency_profile").unwrap();
    assert_eq!(
        field.requirement(),
        &pocketstation::connector::ConnectorConfigurationRequirement::Default(
            pocketstation::connector::ConnectorConfigurationValue::Text("standard".to_owned())
        )
    );
    assert_eq!(
        field.constraints(),
        [pocketstation::connector::ConnectorConfigurationConstraint::OneOf(vec![
            "standard".to_owned(),
            "low".to_owned()
        ])]
    );
    let field = manifest.configuration().field("startup_timeout_ms").unwrap();
    assert_eq!(
        field.constraints(),
        [pocketstation::connector::ConnectorConfigurationConstraint::UnsignedRange {
            minimum: 1,
            maximum: 120_000
        }]
    );
    assert_eq!(manifest.readiness().startup_timeout(), Duration::from_secs(30));
    assert_eq!(manifest.readiness().probe_interval(), Duration::from_millis(100));
    assert_eq!(manifest.readiness().failure_threshold(), 3);
    let capabilities: Vec<&str> =
        manifest.capabilities().iter().map(|entry| entry.id()).collect();
    assert_eq!(
        capabilities,
        vec!["audio.pcm-f32-to-opus-rtp", "relay.grouped-audio-buses"]
    );
    assert!(manifest.requirements()[0].required());
    assert!(!manifest.requirements()[1].required());
}
