//! The per-schedule execution actor: a self-rescheduling state machine.
//! A producer fires immediately on registration (unless the descriptor
//! defers the first fire), then repeatedly: waits until due, builds the
//! request by substituting stored variables, lets the driver perform the
//! transport, processes the response, and re-arms for the next due time.
//! At most one fire is in flight at a time: a fire starts only from the
//! armed (or freshly registered) state, and the next due time is computed
//! only after the current fire has completed.
use vstd::prelude::*;

use crate::broker::{measurements_of, Broker};
use crate::extract::{groups_result_of, pairs_result_of, parse_json_data, parse_json_pair};
use crate::query::{query_value, Query};
use crate::subst::{subst_spec, swap_variable};
use crate::timing::{first_due, next_due, sat_add, Timing, TimingConfig};
use crate::varstore::{insert_all, store_variable, VariableStore};
use crate::FireError;

verus! {

/// What a producer does with a successful response.
#[derive(Clone, Copy, PartialEq, Eq, Structural, Debug)]
pub enum ProducerAction {
    /// Extract measurement groups and publish them to the broker.
    PUBLISHDATA,
    /// Extract name/value pairs and write them to the variable store.
    STOREVARIABLE,
}

/// The HTTP method of a producer's request.
#[derive(Clone, Copy, PartialEq, Eq, Structural, Debug)]
pub enum ApiRequestType {
    GET,
    POST,
}

/// The configuration of one polling job, as submitted to the scheduler.
/// Template strings may hold `[[NAME]]` placeholders, resolved against the
/// variable store at every fire.
pub struct WebProducerSchedule {
    pub source_name: String,
    /// URL template; placeholders are substituted percent-encoded.
    pub api_url: String,
    pub request_type: ApiRequestType,
    /// Body template; placeholders are substituted percent-encoded.
    pub body: Option<String>,
    /// Header (name, value-template) pairs; placeholders in a value are
    /// substituted without encoding.
    pub headers: Vec<(String, String)>,
    pub timing: TimingConfig,
    /// The JMESPath query evaluated against each response.
    pub jmespatch_query: String,
    pub response_action: ProducerAction,
    /// When set, the producer waits for its first scheduled occurrence
    /// instead of firing immediately on registration.
    pub defer_first: bool,
}

/// The lifecycle state of a producer.
#[derive(Clone, Copy, PartialEq, Eq, Structural, Debug)]
pub enum ProducerState {
    /// Registered; no fire has been requested yet.
    Created,
    /// Waiting until the due time (epoch milliseconds).
    Armed { due: u64 },
    /// One fire is in flight; it started at the recorded time.
    Firing { started: u64 },
    /// Terminal: pending timers are cancelled and no further fire starts.
    Stopped,
}

/// How one fire ended.
#[derive(Clone, Copy, PartialEq, Eq, Structural, Debug)]
pub enum FireResult {
    /// The response was delivered according to the response action.
    Success,
    /// The fire failed; the failure is contained and the producer re-arms
    /// normally.
    Recovered(FireError),
}

/// An event handed to the state machine by its driver.
#[derive(Clone, Copy, PartialEq, Eq, Structural, Debug)]
pub enum ProducerEvent {
    /// The producer was registered at the given time.
    Registered { now: u64 },
    /// The wait for the due time has elapsed.
    Due { now: u64 },
    /// The fire in flight completed at the given time with the given
    /// outcome.
    FireDone { now: u64, outcome: FireResult },
    /// The scheduler propagates a stop signal.
    StopSignal,
}

/// What the driver must do after a transition.
#[derive(Clone, Copy, PartialEq, Eq, Structural, Debug)]
pub enum Directive {
    /// Perform one fire now.
    Fire,
    /// Wake the producer again at the given time (epoch milliseconds).
    Wait { until: u64 },
    /// Cancel pending timers; the producer is finished.
    Halt,
    /// The event does not apply in the current state; do nothing.
    Ignore,
}

/// The transition function of the producer state machine.
pub open spec fn step(
    timing: Timing,
    defer_first: bool,
    state: ProducerState,
    event: ProducerEvent,
) -> (ProducerState, Directive) {
    match (state, event) {
        (ProducerState::Stopped, _) => (ProducerState::Stopped, Directive::Ignore),
        (_, ProducerEvent::StopSignal) => (ProducerState::Stopped, Directive::Halt),
        (ProducerState::Created, ProducerEvent::Registered { now }) => {
            if !defer_first {
                (ProducerState::Firing { started: now }, Directive::Fire)
            } else {
                match first_due(timing, now) {
                    Some(due) => (ProducerState::Armed { due }, Directive::Wait { until: due }),
                    None => (ProducerState::Stopped, Directive::Halt),
                }
            }
        },
        (ProducerState::Armed { .. }, ProducerEvent::Due { now }) => (
            ProducerState::Firing { started: now },
            Directive::Fire,
        ),
        (ProducerState::Firing { started }, ProducerEvent::FireDone { now, .. }) => {
            match next_due(timing, started, now) {
                Some(due) => (ProducerState::Armed { due }, Directive::Wait { until: due }),
                None => (ProducerState::Stopped, Directive::Halt),
            }
        },
        _ => (state, Directive::Ignore),
    }
}

/// The state after processing a sequence of events, one step at a time.
pub open spec fn state_after(
    timing: Timing,
    defer_first: bool,
    state: ProducerState,
    events: Seq<ProducerEvent>,
) -> ProducerState
    decreases events.len(),
{
    if events.len() == 0 {
        state
    } else {
        state_after(
            timing,
            defer_first,
            step(timing, defer_first, state, events.first()).0,
            events.drop_first(),
        )
    }
}

/// A stopped producer stays stopped, whatever else arrives.
pub proof fn lemma_stopped_is_terminal(
    timing: Timing,
    defer_first: bool,
    events: Seq<ProducerEvent>,
)
    ensures
        state_after(timing, defer_first, ProducerState::Stopped, events)
            == ProducerState::Stopped,
    decreases events.len(),
{
    if events.len() > 0 {
        lemma_stopped_is_terminal(timing, defer_first, events.drop_first());
    }
}

/// While a fire is in flight, nothing but its completion (or a stop) can
/// move the producer: without a completion event it stays firing or
/// becomes stopped, so no second fire can be requested.
pub proof fn lemma_firing_until_done(
    timing: Timing,
    defer_first: bool,
    state: ProducerState,
    events: Seq<ProducerEvent>,
)
    requires
        state is Firing,
        forall|k: int| 0 <= k < events.len() ==> !((#[trigger] events[k]) is FireDone),
    ensures
        state_after(timing, defer_first, state, events) is Firing || state_after(
            timing,
            defer_first,
            state,
            events,
        ) is Stopped,
    decreases events.len(),
{
    if events.len() > 0 {
        let next = step(timing, defer_first, state, events.first()).0;
        if next is Stopped {
            lemma_stopped_is_terminal(timing, defer_first, events.drop_first());
        } else {
            assert(forall|k: int|
                0 <= k < events.drop_first().len() ==> !((#[trigger] events.drop_first()[k])
                    is FireDone));
            lemma_firing_until_done(timing, defer_first, next, events.drop_first());
        }
    }
}

/// The non-overlap law: fires of one producer are strictly sequential.
/// Starting from a producer with a fire in flight, if processing an event
/// trace ever asks the driver to fire again, then some earlier event of
/// the trace reported the completion of the fire in flight.
pub proof fn lemma_no_overlapping_fires(
    timing: Timing,
    defer_first: bool,
    state: ProducerState,
    events: Seq<ProducerEvent>,
    j: int,
)
    requires
        state is Firing,
        0 <= j < events.len(),
        step(
            timing,
            defer_first,
            state_after(timing, defer_first, state, events.subrange(0, j)),
            events[j],
        ).1 == Directive::Fire,
    ensures
        exists|k: int| 0 <= k < j && (#[trigger] events[k]) is FireDone,
{
    if forall|k: int| 0 <= k < j ==> !((#[trigger] events[k]) is FireDone) {
        let prefix = events.subrange(0, j);
        assert(forall|k: int|
            0 <= k < prefix.len() ==> !((#[trigger] prefix[k]) is FireDone));
        lemma_firing_until_done(timing, defer_first, state, prefix);
        let reached = state_after(timing, defer_first, state, prefix);
        assert(step(timing, defer_first, reached, events[j]).1 != Directive::Fire);
        assert(false);
    }
}

/// Processing a concatenated trace is processing its parts in turn.
pub proof fn lemma_state_after_append(
    timing: Timing,
    defer_first: bool,
    state: ProducerState,
    front: Seq<ProducerEvent>,
    back: Seq<ProducerEvent>,
)
    ensures
        state_after(timing, defer_first, state, front + back) == state_after(
            timing,
            defer_first,
            state_after(timing, defer_first, state, front),
            back,
        ),
    decreases front.len(),
{
    if front.len() == 0 {
        assert(front + back =~= back);
    } else {
        assert((front + back).first() == front.first());
        assert((front + back).drop_first() =~= front.drop_first() + back);
        lemma_state_after_append(
            timing,
            defer_first,
            step(timing, defer_first, state, front.first()).0,
            front.drop_first(),
            back,
        );
    }
}

/// The non-overlap law over a whole trace: whenever the driver is asked
/// to fire twice, some event between the two requests reported the
/// completion of the first fire.
pub proof fn lemma_fires_separated_by_completion(
    timing: Timing,
    defer_first: bool,
    state: ProducerState,
    events: Seq<ProducerEvent>,
    i: int,
    j: int,
)
    requires
        0 <= i < j < events.len(),
        step(
            timing,
            defer_first,
            state_after(timing, defer_first, state, events.subrange(0, i)),
            events[i],
        ).1 == Directive::Fire,
        step(
            timing,
            defer_first,
            state_after(timing, defer_first, state, events.subrange(0, j)),
            events[j],
        ).1 == Directive::Fire,
    ensures
        exists|k: int| i < k < j && (#[trigger] events[k]) is FireDone,
{
    let at_i = state_after(timing, defer_first, state, events.subrange(0, i));
    let firing = step(timing, defer_first, at_i, events[i]).0;
    lemma_fire_only_when_idle(timing, defer_first, at_i, events[i]);
    // The state before the second fire is reached from the firing state
    // by the events strictly between the two requests.
    assert(events.subrange(0, i + 1) =~= events.subrange(0, i) + seq![events[i]]);
    lemma_state_after_append(
        timing,
        defer_first,
        state,
        events.subrange(0, i),
        seq![events[i]],
    );
    assert(state_after(timing, defer_first, at_i, seq![events[i]]) == firing) by {
        let single = seq![events[i]];
        assert(single.first() == events[i]);
        assert(single.drop_first() =~= Seq::<ProducerEvent>::empty());
        assert(state_after(timing, defer_first, firing, Seq::<ProducerEvent>::empty()) == firing);
        assert(state_after(timing, defer_first, at_i, single) == state_after(
            timing,
            defer_first,
            firing,
            single.drop_first(),
        ));
    }
    assert(events.subrange(0, j) =~= events.subrange(0, i + 1) + events.subrange(i + 1, j));
    lemma_state_after_append(
        timing,
        defer_first,
        state,
        events.subrange(0, i + 1),
        events.subrange(i + 1, j),
    );
    let between = events.subrange(i + 1, j + 1);
    assert(between.subrange(0, j - i - 1) =~= events.subrange(i + 1, j));
    assert(between[j - i - 1] == events[j]);
    lemma_no_overlapping_fires(timing, defer_first, firing, between, j - i - 1);
    let k0 = choose|k: int| 0 <= k < j - i - 1 && (#[trigger] between[k]) is FireDone;
    assert(events[i + 1 + k0] is FireDone);
}

/// A fire is only ever requested out of the freshly registered or armed
/// states, and it puts the producer into the firing state.
pub proof fn lemma_fire_only_when_idle(
    timing: Timing,
    defer_first: bool,
    state: ProducerState,
    event: ProducerEvent,
)
    requires
        step(timing, defer_first, state, event).1 == Directive::Fire,
    ensures
        state is Created || state is Armed,
        step(timing, defer_first, state, event).0 is Firing,
{
}

/// The immediate-plus-scheduled law for interval timing: a producer that
/// does not defer fires immediately on registration, and after each fire
/// the next one is due exactly one interval after the last fire started.
pub proof fn lemma_immediate_then_interval(
    interval_millis: u64,
    defer_first: bool,
    reg_time: u64,
    started: u64,
    completed: u64,
    outcome: FireResult,
)
    ensures
        step(
            Timing::Interval { interval_millis },
            false,
            ProducerState::Created,
            ProducerEvent::Registered { now: reg_time },
        ) == (ProducerState::Firing { started: reg_time }, Directive::Fire),
        step(
            Timing::Interval { interval_millis },
            defer_first,
            ProducerState::Firing { started },
            ProducerEvent::FireDone { now: completed, outcome },
        ) == (
            ProducerState::Armed { due: sat_add(started, interval_millis) },
            Directive::Wait { until: sat_add(started, interval_millis) },
        ),
{
}

/// The containment law: how a fire ended never changes the schedule.  The
/// transition out of the firing state is the same for a failed fire as
/// for a successful one, so a transport (or any other per-fire) failure
/// does not stall or shift the next scheduled fire.
pub proof fn lemma_failure_is_recoverable(
    timing: Timing,
    defer_first: bool,
    state: ProducerState,
    now: u64,
    first_outcome: FireResult,
    second_outcome: FireResult,
)
    ensures
        step(timing, defer_first, state, ProducerEvent::FireDone { now, outcome: first_outcome })
            == step(
            timing,
            defer_first,
            state,
            ProducerEvent::FireDone { now, outcome: second_outcome },
        ),
{
}

/// One running producer: its descriptor, its query and timing compiled at
/// registration, and its lifecycle state.
pub struct Producer {
    pub descriptor: WebProducerSchedule,
    pub translation: Query,
    pub timing: Timing,
    pub state: ProducerState,
}

/// A request as built for one fire, after variable substitution, ready
/// for the transport.
pub struct ApiRequest {
    pub request_type: ApiRequestType,
    pub api_url: String,
    pub body: Option<String>,
    pub headers: Vec<(String, String)>,
}

impl Producer {
    /// Feeds one event to the state machine and returns what the driver
    /// must do next.
    pub fn handle_event(&mut self, event: &ProducerEvent) -> (directive: Directive)
        ensures
            (final(self).state, directive) == step(
                old(self).timing,
                old(self).descriptor.defer_first,
                old(self).state,
                *event,
            ),
            final(self).descriptor == old(self).descriptor,
            final(self).translation == old(self).translation,
            final(self).timing == old(self).timing,
    {
        if let ProducerState::Stopped = self.state {
            return Directive::Ignore;
        }
        if let ProducerEvent::StopSignal = event {
            self.state = ProducerState::Stopped;
            return Directive::Halt;
        }
        match (&self.state, event) {
            (ProducerState::Created, ProducerEvent::Registered { now }) => {
                if !self.descriptor.defer_first {
                    self.state = ProducerState::Firing { started: *now };
                    Directive::Fire
                } else {
                    let due = match &self.timing {
                        Timing::Interval { interval_millis } => Some(
                            crate::timing::clock_add(*now, *interval_millis),
                        ),
                        Timing::Cron { schedule } => schedule.next_after(
                            crate::timing::clock_clamp(*now),
                        ),
                    };
                    match due {
                        Some(due) => {
                            self.state = ProducerState::Armed { due };
                            Directive::Wait { until: due }
                        },
                        None => {
                            self.state = ProducerState::Stopped;
                            Directive::Halt
                        },
                    }
                }
            },
            (ProducerState::Armed { .. }, ProducerEvent::Due { now }) => {
                self.state = ProducerState::Firing { started: *now };
                Directive::Fire
            },
            (ProducerState::Firing { started }, ProducerEvent::FireDone { now, .. }) => {
                let started = *started;
                let due = match &self.timing {
                    Timing::Interval { interval_millis } => Some(
                        crate::timing::clock_add(started, *interval_millis),
                    ),
                    Timing::Cron { schedule } => schedule.next_after(
                        crate::timing::clock_clamp(
                            crate::timing::clock_add(*now, crate::timing::CRON_EPSILON_MILLIS),
                        ),
                    ),
                };
                match due {
                    Some(due) => {
                        self.state = ProducerState::Armed { due };
                        Directive::Wait { until: due }
                    },
                    None => {
                        self.state = ProducerState::Stopped;
                        Directive::Halt
                    },
                }
            },
            _ => Directive::Ignore,
        }
    }

    /// Builds the request for one fire: placeholders in the URL and body
    /// templates are substituted percent-encoded, placeholders in header
    /// values are substituted without encoding.
    pub fn build_request(&self, storage_var: &VariableStore) -> (request: ApiRequest)
        ensures
            request.request_type == self.descriptor.request_type,
            request.api_url@ == subst_spec(storage_var@, self.descriptor.api_url@, true),
            match (self.descriptor.body, request.body) {
                (Some(template), Some(body)) => body@ == subst_spec(storage_var@, template@, true),
                (None, None) => true,
                _ => false,
            },
            request.headers@.len() == self.descriptor.headers@.len(),
            forall|i: int|
                0 <= i < request.headers@.len() ==> (#[trigger] request.headers@[i]).0@
                    == self.descriptor.headers@[i].0@ && request.headers@[i].1@ == subst_spec(
                    storage_var@,
                    self.descriptor.headers@[i].1@,
                    false,
                ),
    {
        let api_url = swap_variable(storage_var, self.descriptor.api_url.as_str(), true);
        let body = match &self.descriptor.body {
            Some(template) => Some(swap_variable(storage_var, template.as_str(), true)),
            None => None,
        };
        let mut headers: Vec<(String, String)> = Vec::new();
        let n = self.descriptor.headers.len();
        for i in 0..n
            invariant
                n == self.descriptor.headers@.len(),
                headers@.len() == i as nat,
                forall|p: int|
                    0 <= p < i ==> (#[trigger] headers@[p]).0@ == self.descriptor.headers@[p].0@
                        && headers@[p].1@ == subst_spec(
                        storage_var@,
                        self.descriptor.headers@[p].1@,
                        false,
                    ),
        {
            let entry = &self.descriptor.headers[i];
            let value = swap_variable(storage_var, entry.1.as_str(), false);
            headers.push((entry.0.clone(), value));
        }
        ApiRequest { request_type: self.descriptor.request_type, api_url, body, headers }
    }

    /// Processes the outcome of one fire's transport.  `response` is the
    /// body of a successful request, or `None` on a transport failure.
    /// On success the query is evaluated and the result is dispatched by
    /// the response action; every failure is contained in the returned
    /// fire result, and whatever was not written stays unchanged.
    pub fn process_response(
        &self,
        storage_var: &mut VariableStore,
        broker: &mut Broker,
        response: Option<&str>,
        timestamp: u64,
    ) -> (outcome: FireResult)
        ensures
            final(broker)@.len() == old(broker)@.len(),
            match response {
                None => {
                    &&& outcome == FireResult::Recovered(FireError::Transport)
                    &&& final(storage_var)@ == old(storage_var)@
                    &&& final(broker)@ == old(broker)@
                },
                Some(body) => match self.descriptor.response_action {
                    ProducerAction::PUBLISHDATA => {
                        &&& final(storage_var)@ == old(storage_var)@
                        &&& match groups_result_of(query_value(self.translation@, body@)) {
                            Ok(groups) => outcome == FireResult::Success && forall|i: int|
                                0 <= i < old(broker)@.len() ==> final(broker)@[i]
                                    == old(broker)@[i] + measurements_of(
                                    self.descriptor.source_name@,
                                    groups,
                                    timestamp,
                                ),
                            Err(e) => outcome == FireResult::Recovered(e) && final(broker)@
                                == old(broker)@,
                        }
                    },
                    ProducerAction::STOREVARIABLE => {
                        &&& final(broker)@ == old(broker)@
                        &&& match pairs_result_of(query_value(self.translation@, body@)) {
                            Ok(pairs) => outcome == FireResult::Success && final(storage_var)@
                                == insert_all(old(storage_var)@, pairs),
                            Err(e) => outcome == FireResult::Recovered(e) && final(storage_var)@
                                == old(storage_var)@,
                        }
                    },
                },
            },
    {
        let body = match response {
            Some(body) => body,
            None => {
                return FireResult::Recovered(FireError::Transport);
            },
        };
        match self.descriptor.response_action {
            ProducerAction::PUBLISHDATA => {
                match parse_json_data(&self.translation, body) {
                    Ok(groups) => {
                        crate::broker::publish_data(
                            broker,
                            self.descriptor.source_name.as_str(),
                            &groups,
                            timestamp,
                        );
                        FireResult::Success
                    },
                    Err(e) => FireResult::Recovered(e),
                }
            },
            ProducerAction::STOREVARIABLE => {
                match parse_json_pair(&self.translation, body) {
                    Ok(pairs) => {
                        store_variable(storage_var, &pairs);
                        FireResult::Success
                    },
                    Err(e) => FireResult::Recovered(e),
                }
            },
        }
    }
}

} // verus!

