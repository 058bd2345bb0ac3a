use data_watch::producer::{ApiRequestType, ProducerAction, ProducerState, WebProducerSchedule};
use data_watch::query::{expression_lexes_cleanly, Query};
use data_watch::scheduler::Scheduler;
use data_watch::timing::{CronSchedule, TimingConfig};
use data_watch::RegistrationError;

fn descriptor(timing: TimingConfig, query: &str) -> WebProducerSchedule {
    WebProducerSchedule {
        source_name: String::from("source"),
        api_url: String::from("https://example.test/data"),
        request_type: ApiRequestType::GET,
        body: None,
        headers: Vec::new(),
        timing,
        jmespatch_query: String::from(query),
        response_action: ProducerAction::PUBLISHDATA,
        defer_first: false,
    }
}

#[test]
fn submit_accepts_a_valid_descriptor() {
    let mut scheduler = Scheduler::new();
    let handle = scheduler
        .submit(descriptor(TimingConfig::CronExpression(String::from("0 * * * * *")), "@"))
        .unwrap();
    assert_eq!(handle, 0);
    assert_eq!(scheduler.producers.len(), 1);
    assert_eq!(scheduler.producers[0].state, ProducerState::Created);
    assert_eq!(scheduler.scheduled.len(), 1);
}

#[test]
fn invalid_cron_is_rejected_without_a_producer() {
    let mut scheduler = Scheduler::new();
    let result =
        scheduler.submit(descriptor(TimingConfig::CronExpression(String::from("not a cron")), "@"));
    assert_eq!(result, Err(RegistrationError::InvalidCron));
    assert_eq!(scheduler.producers.len(), 0);
    assert_eq!(scheduler.scheduled.len(), 0);
}

#[test]
fn invalid_query_is_rejected_without_a_producer() {
    let mut scheduler = Scheduler::new();
    let result = scheduler.submit(descriptor(TimingConfig::IntervalSeconds(5), "]["));
    assert_eq!(result, Err(RegistrationError::InvalidQuery));
    assert_eq!(scheduler.producers.len(), 0);
}

#[test]
fn stop_moves_every_producer_to_stopped() {
    let mut scheduler = Scheduler::new();
    scheduler.submit(descriptor(TimingConfig::IntervalSeconds(1), "@")).unwrap();
    scheduler
        .submit(descriptor(TimingConfig::CronExpression(String::from("*/5 * * * * *")), "@"))
        .unwrap();
    scheduler.stop();
    assert_eq!(scheduler.producers.len(), 2);
    assert!(scheduler.producers.iter().all(|p| p.state == ProducerState::Stopped));
}

#[test]
fn cron_compile_accepts_six_fields() {
    assert!(CronSchedule::compile("0 30 9 * * *").is_some());
    assert!(CronSchedule::compile("banana").is_none());
}

#[test]
fn cron_next_is_the_next_occurrence() {
    // Every minute at second zero, from the epoch: the next occurrence
    // after the epoch itself is the first minute boundary.
    let schedule = CronSchedule::compile("0 * * * * *").unwrap();
    assert_eq!(schedule.next_after(0).unwrap(), 60_000);
    assert_eq!(schedule.next_after(59_999).unwrap(), 60_000);
    assert_eq!(schedule.next_after(60_000).unwrap(), 120_000);
    // Every second: occurrences are the second boundaries.
    let every_second = CronSchedule::compile("* * * * * *").unwrap();
    assert_eq!(every_second.next_after(0).unwrap(), 1000);
    assert_eq!(every_second.next_after(500).unwrap(), 1000);
}

#[test]
fn queries_compile_independently_of_documents() {
    assert!(Query::compile("a.b.c").is_some());
    assert!(Query::compile("{ x: y }").is_some());
    assert!(Query::compile("][").is_none());
}

#[test]
fn oversized_numeric_literal_is_rejected_without_a_producer() {
    // The query engine reads an unquoted numeric literal into a 32-bit
    // signed value and steps its slices in the same type; a descriptor
    // whose literal passes the library's cap is rejected at submission
    // instead of ever reaching the engine.
    let mut scheduler = Scheduler::new();
    let result = scheduler.submit(descriptor(TimingConfig::IntervalSeconds(1), "[1073741824]"));
    assert_eq!(result, Err(RegistrationError::InvalidQuery));
    assert_eq!(scheduler.producers.len(), 0);
    let result = scheduler.submit(descriptor(TimingConfig::IntervalSeconds(1), "[2147483648]"));
    assert_eq!(result, Err(RegistrationError::InvalidQuery));
    assert_eq!(scheduler.producers.len(), 0);
    // The largest admitted literal is accepted.
    let handle = scheduler
        .submit(descriptor(TimingConfig::IntervalSeconds(1), "[1073741823]"))
        .unwrap();
    assert_eq!(handle, 0);
}

#[test]
fn quoted_digits_are_not_numeric_literals() {
    // Digits inside backtick literals, strings and identifiers never
    // become numeric tokens, so they are not capped.
    assert!(expression_lexes_cleanly("`9999999999`"));
    assert!(expression_lexes_cleanly("'12345678901'"));
    assert!(expression_lexes_cleanly("id12345678901"));
    assert!(expression_lexes_cleanly("[1073741823]"));
    assert!(!expression_lexes_cleanly("[1073741824]"));
    assert!(!expression_lexes_cleanly("[?x > -9999999999]"));
    // A descriptor with a large literal inside a backtick literal is fine.
    let mut scheduler = Scheduler::new();
    let handle = scheduler
        .submit(descriptor(TimingConfig::IntervalSeconds(1), "`9999999999`"))
        .unwrap();
    assert_eq!(handle, 0);
}

#[test]
fn slice_with_the_largest_admitted_stride_evaluates() {
    // The largest admitted literal as a slice stride: the engine steps
    // once past the selected element without leaving the 32-bit range.
    let expression = Query::compile("[1:2:1073741823]").unwrap();
    let sliced = expression.eval("[10.0, 20.0, 30.0]").unwrap();
    match sliced {
        data_watch::query::JsonValue::Array(items) => {
            assert_eq!(items.len(), 1);
            assert_eq!(
                items[0],
                data_watch::query::JsonValue::Number((20.0f64).to_bits())
            );
        }
        other => panic!("expected an array, got {:?}", other),
    }
}
