use tcp_lab::config::SimConfig;
use tcp_lab::engine::Simulator;
use tcp_lab::event::NodeId;
use tcp_lab::link::{LinkEvent, LinkEventKind};
use tcp_lab::loader::{builtin_by_name, parse_python_spec, BuiltinProtocol, LoaderError};
use tcp_lab::rdt1::{Rdt1Receiver, Rdt1Sender};
use tcp_lab::scenario::{first_failed_assertion, SimConfigOverride, TestAction, TestAssertion, TestScenario};

#[test]
fn node_peer_is_an_involution() {
    assert_eq!(NodeId::Sender.peer(), NodeId::Receiver);
    assert_eq!(NodeId::Receiver.peer(), NodeId::Sender);
    assert_eq!(NodeId::Sender.peer().peer(), NodeId::Sender);
}

#[test]
fn config_override_applies_only_present_fields() {
    let mut config = SimConfig::default();
    let over = SimConfigOverride {
        loss_ppm: Some(500_000),
        corrupt_ppm: None,
        min_latency: None,
        max_latency: Some(7),
        seed: Some(123),
    };
    over.apply_to(&mut config);
    assert_eq!(config.loss_ppm, 500_000);
    assert_eq!(config.corrupt_ppm, 0);
    assert_eq!(config.min_latency, 10);
    assert_eq!(config.max_latency, 7);
    assert_eq!(config.seed, 123);
}

#[test]
fn parse_python_spec_splits_at_the_last_dot() {
    let (module, class) = parse_python_spec("examples.rdt3_sender.Rdt3Sender").unwrap();
    assert_eq!(module, "examples.rdt3_sender");
    assert_eq!(class, "Rdt3Sender");
    let (module, class) = parse_python_spec("m.C").unwrap();
    assert_eq!(module, "m");
    assert_eq!(class, "C");
    assert_eq!(parse_python_spec("noclass"), Err(LoaderError::InvalidPythonSpec));
    assert_eq!(parse_python_spec(""), Err(LoaderError::InvalidPythonSpec));
}

#[test]
fn builtin_by_name_knows_only_rdt2() {
    assert_eq!(builtin_by_name("rdt2", true), Ok(BuiltinProtocol::Rdt2Sender));
    assert_eq!(builtin_by_name("rdt2", false), Ok(BuiltinProtocol::Rdt2Receiver));
    assert_eq!(builtin_by_name("gbn", true), Err(LoaderError::UnknownBuiltin));
    assert_eq!(
        builtin_by_name("gbn", true).unwrap_err().message(),
        "Unknown builtin. Try 'rdt2'."
    );
    assert_eq!(
        parse_python_spec("x").unwrap_err().message(),
        "Python class should be provided as module.Class"
    );
}

fn report_for_actions(actions: &[TestAction]) -> tcp_lab::trace::SimulationReport {
    let config = SimConfig { loss_ppm: 0, corrupt_ppm: 0, min_latency: 1, max_latency: 1, seed: 0 };
    let mut sim = Simulator::new(config, Rdt1Sender::default(), Rdt1Receiver::default());
    for action in actions {
        sim.apply_action(action);
    }
    sim.run_until_complete();
    sim.export_report()
}

#[test]
fn actions_feed_the_simulator() {
    let report = report_for_actions(&[
        TestAction::AppSend { time: 0, data: "hello".to_string() },
        TestAction::DropNextFromSenderSeq { seq: 99 },
        TestAction::DropNextFromReceiverAck { ack: 42 },
    ]);
    // The registered overrides match nothing the simple pair sends.
    assert_eq!(report.delivered_data, vec![b"hello".to_vec()]);
    assert!(TestAssertion::DataDelivered { data: "hello".to_string() }.check(&report));
    assert!(!TestAssertion::DataDelivered { data: "other".to_string() }.check(&report));
}

#[test]
fn assertions_evaluate_against_the_report() {
    let report = report_for_actions(&[TestAction::AppSend { time: 0, data: "d".to_string() }]);
    assert!(TestAssertion::SenderPacketCount { min: 1, max: Some(1) }.check(&report));
    assert!(!TestAssertion::SenderPacketCount { min: 2, max: None }.check(&report));
    assert!(TestAssertion::MaxDuration { ms: 1 }.check(&report));
    assert!(!TestAssertion::MaxDuration { ms: 0 }.check(&report));
    // The ideal pair reports no window sizes at all.
    assert!(TestAssertion::SenderWindowMax { min: 0, max: Some(0) }.check(&report));
    assert!(!TestAssertion::SenderWindowMax { min: 1, max: None }.check(&report));
    assert!(!TestAssertion::SenderWindowDrop { from_at_least: 1, to_at_most: 0 }.check(&report));
}

#[test]
fn window_drop_needs_a_high_before_a_low() {
    // Build reports directly to exercise the window-drop scan.
    let mk = |ws: Vec<u16>| tcp_lab::trace::SimulationReport {
        sender_window_sizes: ws,
        ..report_for_actions(&[])
    };
    let drop = TestAssertion::SenderWindowDrop { from_at_least: 8, to_at_most: 2 };
    assert!(drop.check(&mk(vec![1, 8, 5, 2])));
    assert!(!drop.check(&mk(vec![1, 5, 2])));
    // The sample that establishes the high cannot itself be the low.
    assert!(!drop.check(&mk(vec![8])));
    assert!(drop.check(&mk(vec![9, 1])));
    let max = TestAssertion::SenderWindowMax { min: 5, max: Some(9) };
    assert!(max.check(&mk(vec![3, 9, 4])));
    assert!(!max.check(&mk(vec![3, 10, 4])));
}

#[test]
fn link_event_descriptions_render_exactly() {
    let send = LinkEvent {
        time: 3,
        kind: LinkEventKind::Send { from: NodeId::Sender, seq: 1, ack: 0, latency: 7 },
    };
    let s = send.summary();
    assert_eq!(s.time, 3);
    assert_eq!(s.description, "[Sender->Receiver] SEND seq=1 ack=0 (latency=7ms)");

    let drop = LinkEvent { time: 0, kind: LinkEventKind::DeterministicDropSeq { seq: 12 } };
    assert_eq!(
        drop.summary().description,
        "[Sender->Receiver] DROP (deterministic seq) seq=12"
    );

    let ack_drop = LinkEvent { time: 0, kind: LinkEventKind::DeterministicDropAck { ack: 7 } };
    assert_eq!(
        ack_drop.summary().description,
        "[Receiver->Sender] DROP (deterministic ack) ack=7"
    );

    let loss = LinkEvent {
        time: 0,
        kind: LinkEventKind::RandomLoss { from: NodeId::Receiver, seq: 4, ack: 9 },
    };
    assert_eq!(
        loss.summary().description,
        "[Receiver->Sender] DROP (random loss) seq=4 ack=9"
    );

    let corrupt = LinkEvent {
        time: 0,
        kind: LinkEventKind::Corrupt { from: NodeId::Sender, seq: 10, ack: 0 },
    };
    assert_eq!(corrupt.summary().description, "[Sender->Receiver] CORRUPT seq=10 ack=0");

    let delivered = LinkEvent {
        time: 5,
        kind: LinkEventKind::Delivered { node: NodeId::Receiver, bytes: 2 },
    };
    assert_eq!(
        delivered.summary().description,
        "[Receiver] DELIVERED 2 bytes to application"
    );
}

#[test]
fn report_summaries_follow_the_log() {
    let config = SimConfig { loss_ppm: 0, corrupt_ppm: 0, min_latency: 1, max_latency: 1, seed: 0 };
    let mut sim = Simulator::new(config, Rdt1Sender::default(), Rdt1Receiver::default());
    sim.schedule_app_send(0, b"hi".to_vec());
    sim.run_until_complete();
    let report = sim.export_report();
    let summaries = report.link_event_summaries();
    assert_eq!(summaries.len(), report.link_events.len());
    assert_eq!(summaries[0].description, "[Sender->Receiver] SEND seq=0 ack=0 (latency=1ms)");
    assert_eq!(summaries[1].description, "[Receiver] DELIVERED 2 bytes to application");
}

#[test]
fn first_failed_assertion_reports_the_first_failure() {
    let report = report_for_actions(&[TestAction::AppSend { time: 0, data: "d".to_string() }]);
    let assertions = vec![
        TestAssertion::DataDelivered { data: "d".to_string() },
        TestAssertion::MaxDuration { ms: 0 },
        TestAssertion::SenderPacketCount { min: 5, max: None },
    ];
    assert_eq!(first_failed_assertion(&assertions, &report), Some(1));
    let passing = vec![
        TestAssertion::DataDelivered { data: "d".to_string() },
        TestAssertion::MaxDuration { ms: 10 },
        TestAssertion::SenderPacketCount { min: 1, max: Some(1) },
    ];
    assert_eq!(first_failed_assertion(&passing, &report), None);
    assert_eq!(first_failed_assertion(&Vec::new(), &report), None);
}

#[test]
fn scenario_resolves_its_config() {
    let scenario = TestScenario {
        name: "drops".to_string(),
        description: "one override".to_string(),
        config: SimConfigOverride {
            loss_ppm: Some(1),
            corrupt_ppm: None,
            min_latency: None,
            max_latency: None,
            seed: Some(9),
        },
        actions: Vec::new(),
        assertions: Vec::new(),
    };
    let c = scenario.resolved_config(SimConfig::default());
    assert_eq!(c.loss_ppm, 1);
    assert_eq!(c.corrupt_ppm, 0);
    assert_eq!(c.min_latency, 10);
    assert_eq!(c.max_latency, 100);
    assert_eq!(c.seed, 9);
}

#[test]
fn certain_corruption_flips_checksums_but_drops_nothing() {
    let config = SimConfig {
        loss_ppm: 0,
        corrupt_ppm: 1_000_000,
        min_latency: 1,
        max_latency: 1,
        seed: 2,
    };
    let mut sim = Simulator::new(config, Rdt1Sender::default(), Rdt1Receiver::default());
    sim.schedule_app_send(0, b"payload".to_vec());
    sim.run_until_complete();
    let report = sim.export_report();
    // The ideal-channel receiver ignores checksums, so the payload still
    // arrives; the log shows the corruption before the send.
    assert_eq!(report.delivered_data, vec![b"payload".to_vec()]);
    let kinds: Vec<&LinkEventKind> = report.link_events.iter().map(|e| &e.kind).collect();
    assert!(matches!(kinds[0], LinkEventKind::Corrupt { .. }));
    assert!(matches!(kinds[1], LinkEventKind::Send { .. }));
}
