use data_watch::broker::{publish_data, Broker, DataResponse};
use data_watch::extract::MeasureGroup;
use data_watch::producer::{
    ApiRequestType, Directive, FireResult, Producer, ProducerAction, ProducerEvent,
    ProducerState, WebProducerSchedule,
};
use data_watch::query::Query;
use data_watch::timing::{Timing, TimingConfig};
use data_watch::varstore::VariableStore;
use data_watch::FireError;

fn interval_descriptor(seconds: u64) -> WebProducerSchedule {
    WebProducerSchedule {
        source_name: String::from("source"),
        api_url: String::from("https://example.test/data?key=[[KEY]]"),
        request_type: ApiRequestType::GET,
        body: None,
        headers: vec![(String::from("authorization"), String::from("Bearer [[KEY]]"))],
        timing: TimingConfig::IntervalSeconds(seconds),
        jmespatch_query: String::from("@"),
        response_action: ProducerAction::PUBLISHDATA,
        defer_first: false,
    }
}

fn interval_producer(seconds: u64) -> Producer {
    Producer {
        descriptor: interval_descriptor(seconds),
        translation: Query::compile("@").unwrap(),
        timing: Timing::Interval { interval_millis: seconds * 1000 },
        state: ProducerState::Created,
    }
}

#[test]
fn no_overlap_while_a_fire_is_in_flight() {
    // A one-second interval with a three-second fetch: the due tick that
    // arrives while the fire is in flight must not start a second fire.
    let mut producer = interval_producer(1);
    assert_eq!(
        producer.handle_event(&ProducerEvent::Registered { now: 0 }),
        Directive::Fire
    );
    assert_eq!(producer.state, ProducerState::Firing { started: 0 });
    // The interval elapses while the fetch is still running.
    assert_eq!(
        producer.handle_event(&ProducerEvent::Due { now: 1000 }),
        Directive::Ignore
    );
    assert_eq!(producer.state, ProducerState::Firing { started: 0 });
    assert_eq!(
        producer.handle_event(&ProducerEvent::Due { now: 2000 }),
        Directive::Ignore
    );
    // Only the completion of the fetch re-arms the producer.
    assert_eq!(
        producer.handle_event(&ProducerEvent::FireDone { now: 3000, outcome: FireResult::Success }),
        Directive::Wait { until: 1000 }
    );
    // The next fire starts when the driver reports the (long past) due
    // time, three seconds after the first fire started.
    assert_eq!(
        producer.handle_event(&ProducerEvent::Due { now: 3000 }),
        Directive::Fire
    );
    assert_eq!(producer.state, ProducerState::Firing { started: 3000 });
}

#[test]
fn immediate_fire_then_fixed_interval() {
    // A ten-second interval fires once immediately at registration and is
    // then due at ten-second marks from each fire start.
    let mut producer = interval_producer(10);
    assert_eq!(
        producer.handle_event(&ProducerEvent::Registered { now: 0 }),
        Directive::Fire
    );
    assert_eq!(
        producer.handle_event(&ProducerEvent::FireDone { now: 400, outcome: FireResult::Success }),
        Directive::Wait { until: 10_000 }
    );
    assert_eq!(
        producer.handle_event(&ProducerEvent::Due { now: 10_000 }),
        Directive::Fire
    );
    assert_eq!(
        producer.handle_event(&ProducerEvent::FireDone {
            now: 10_300,
            outcome: FireResult::Success,
        }),
        Directive::Wait { until: 20_000 }
    );
    // A stop signal cancels the pending wait for good.
    assert_eq!(producer.handle_event(&ProducerEvent::StopSignal), Directive::Halt);
    assert_eq!(producer.state, ProducerState::Stopped);
    assert_eq!(
        producer.handle_event(&ProducerEvent::Due { now: 20_000 }),
        Directive::Ignore
    );
}

#[test]
fn failed_fire_rearms_like_a_successful_one() {
    let mut ok_producer = interval_producer(5);
    let mut failed_producer = interval_producer(5);
    ok_producer.handle_event(&ProducerEvent::Registered { now: 100 });
    failed_producer.handle_event(&ProducerEvent::Registered { now: 100 });
    let after_success = ok_producer.handle_event(&ProducerEvent::FireDone {
        now: 200,
        outcome: FireResult::Success,
    });
    let after_failure = failed_producer.handle_event(&ProducerEvent::FireDone {
        now: 200,
        outcome: FireResult::Recovered(FireError::Transport),
    });
    assert_eq!(after_success, after_failure);
    assert_eq!(ok_producer.state, failed_producer.state);
    assert_eq!(ok_producer.state, ProducerState::Armed { due: 5100 });
}

#[test]
fn deferred_first_fire_waits_for_the_schedule() {
    let mut descriptor = interval_descriptor(10);
    descriptor.defer_first = true;
    let mut producer = Producer {
        descriptor,
        translation: Query::compile("@").unwrap(),
        timing: Timing::Interval { interval_millis: 10_000 },
        state: ProducerState::Created,
    };
    assert_eq!(
        producer.handle_event(&ProducerEvent::Registered { now: 500 }),
        Directive::Wait { until: 10_500 }
    );
    assert_eq!(producer.state, ProducerState::Armed { due: 10_500 });
}

#[test]
fn build_request_substitutes_templates() {
    let producer = Producer {
        descriptor: WebProducerSchedule {
            source_name: String::from("source"),
            api_url: String::from("https://example.test/data?key=[[KEY]]"),
            request_type: ApiRequestType::POST,
            body: Some(String::from("token=[[KEY]]")),
            headers: vec![(String::from("x-auth"), String::from("Bearer [[KEY]]"))],
            timing: TimingConfig::IntervalSeconds(1),
            jmespatch_query: String::from("@"),
            response_action: ProducerAction::PUBLISHDATA,
            defer_first: false,
        },
        translation: Query::compile("@").unwrap(),
        timing: Timing::Interval { interval_millis: 1000 },
        state: ProducerState::Created,
    };
    let mut storage_var = VariableStore::new();
    storage_var.set(String::from("KEY"), String::from("s k"));
    let request = producer.build_request(&storage_var);
    // URL and body values are percent-encoded; header values are not.
    assert_eq!(request.api_url, "https://example.test/data?key=s%20k");
    assert_eq!(request.body.unwrap(), "token=s%20k");
    assert_eq!(request.headers, vec![(String::from("x-auth"), String::from("Bearer s k"))]);
}

#[test]
fn process_response_publishes_measurements() {
    let producer = interval_producer(1);
    let mut storage_var = VariableStore::new();
    let mut broker = Broker::new();
    let subscriber = broker.subscribe();
    let body = r#"{"measure_name":"m","measure_data":{"d":2.5}}"#;
    let outcome = producer.process_response(&mut storage_var, &mut broker, Some(body), 77);
    assert_eq!(outcome, FireResult::Success);
    let pending = broker.pending(subscriber);
    assert_eq!(pending.len(), 1);
    assert_eq!(pending[0].source_name, "source");
    assert_eq!(pending[0].measure_name, "m");
    assert_eq!(pending[0].measure_desc, "d");
    assert_eq!(pending[0].measure_value_bits, (2.5f64).to_bits());
    assert_eq!(pending[0].timestamp, 77);
}

#[test]
fn process_response_stores_pairs() {
    let mut producer = interval_producer(1);
    producer.descriptor.response_action = ProducerAction::STOREVARIABLE;
    let mut storage_var = VariableStore::new();
    let mut broker = Broker::new();
    let body = r#"{"token":"abc"}"#;
    let outcome = producer.process_response(&mut storage_var, &mut broker, Some(body), 0);
    assert_eq!(outcome, FireResult::Success);
    assert_eq!(storage_var.get("token").unwrap(), "abc");
}

#[test]
fn process_response_contains_failures() {
    let producer = interval_producer(1);
    let mut storage_var = VariableStore::new();
    let mut broker = Broker::new();
    let subscriber = broker.subscribe();
    assert_eq!(
        producer.process_response(&mut storage_var, &mut broker, None, 0),
        FireResult::Recovered(FireError::Transport)
    );
    assert_eq!(
        producer.process_response(&mut storage_var, &mut broker, Some("not json"), 0),
        FireResult::Recovered(FireError::Parse)
    );
    assert_eq!(
        producer.process_response(&mut storage_var, &mut broker, Some("[1.0]"), 0),
        FireResult::Recovered(FireError::ShapeMismatch)
    );
    // Nothing was published by any failed fire.
    assert_eq!(broker.pending(subscriber).len(), 0);
}

#[test]
fn broker_subscription_is_not_retroactive() {
    let mut broker = Broker::new();
    let early = broker.subscribe();
    let first = DataResponse {
        source_name: String::from("s"),
        measure_name: String::from("m"),
        measure_desc: String::from("d"),
        measure_value_bits: 1,
        timestamp: 10,
    };
    broker.publish(&first);
    let late = broker.subscribe();
    let second = DataResponse { measure_value_bits: 2, ..first.clone() };
    broker.publish(&second);
    assert_eq!(broker.pending(early).len(), 2);
    assert_eq!(broker.pending(late).len(), 1);
    assert_eq!(broker.pending(late)[0].measure_value_bits, 2);
}

#[test]
fn publish_data_flattens_groups_in_order() {
    let mut broker = Broker::new();
    let subscriber = broker.subscribe();
    let groups = vec![
        MeasureGroup {
            measure_name: String::from("g1"),
            measure_data: vec![(String::from("a"), 1), (String::from("b"), 2)],
        },
        MeasureGroup {
            measure_name: String::from("g2"),
            measure_data: vec![(String::from("c"), 3)],
        },
    ];
    publish_data(&mut broker, "src", &groups, 42);
    let pending = broker.pending(subscriber);
    assert_eq!(pending.len(), 3);
    assert_eq!(pending[0].measure_name, "g1");
    assert_eq!(pending[0].measure_desc, "a");
    assert_eq!(pending[1].measure_desc, "b");
    assert_eq!(pending[2].measure_name, "g2");
    assert_eq!(pending[2].measure_desc, "c");
    assert!(pending.iter().all(|m| m.source_name == "src" && m.timestamp == 42));
}

#[test]
fn oversized_interval_saturates_the_clock() {
    let mut producer = interval_producer(1);
    producer.timing = Timing::Interval { interval_millis: u64::MAX };
    producer.handle_event(&ProducerEvent::Registered { now: 10 });
    assert_eq!(
        producer.handle_event(&ProducerEvent::FireDone { now: 20, outcome: FireResult::Success }),
        Directive::Wait { until: u64::MAX }
    );
}

#[test]
fn take_pending_drains_one_subscriber() {
    let mut broker = Broker::new();
    let first = broker.subscribe();
    let second = broker.subscribe();
    let measurement = DataResponse {
        source_name: String::from("s"),
        measure_name: String::from("m"),
        measure_desc: String::from("d"),
        measure_value_bits: 7,
        timestamp: 1,
    };
    broker.publish(&measurement);
    let taken = broker.take_pending(first);
    assert_eq!(taken.len(), 1);
    assert_eq!(taken[0], measurement);
    // The drained queue is empty; the other subscriber still holds its copy.
    assert_eq!(broker.pending(first).len(), 0);
    assert_eq!(broker.pending(second).len(), 1);
}
