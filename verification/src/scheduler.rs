//! The registry of producers.  Submission validates a descriptor by
//! compiling its query and its schedule; an invalid descriptor is
//! rejected and nothing is registered.  A stop signal moves every
//! tracked producer to its terminal state.
use vstd::prelude::*;

use crate::producer::{Producer, ProducerState, WebProducerSchedule};
use crate::query::{expression_lexes_cleanly, lexes_cleanly, query_compiles, Query};
use crate::timing::{cron_accepts, timing_matches, CronSchedule, Timing, TimingConfig};
use crate::RegistrationError;

verus! {

/// The descriptor `d` is valid: its query holds no unquoted numeric
/// literal beyond what the query engine's lexer can read, the query
/// compiles, and its cron expression (if its timing is cron-driven)
/// parses.
pub open spec fn descriptor_valid(d: WebProducerSchedule) -> bool {
    &&& lexes_cleanly(d.jmespatch_query@)
    &&& query_compiles(d.jmespatch_query@)
    &&& match d.timing {
        TimingConfig::IntervalSeconds(_) => true,
        TimingConfig::CronExpression(e) => cron_accepts(e@),
    }
}

/// The registration error that the descriptor `d` earns, when it is
/// invalid.  An invalid query is reported before an invalid cron
/// expression.
pub open spec fn rejection_of(d: WebProducerSchedule) -> RegistrationError {
    if !lexes_cleanly(d.jmespatch_query@) || !query_compiles(d.jmespatch_query@) {
        RegistrationError::InvalidQuery
    } else {
        RegistrationError::InvalidCron
    }
}

/// The descriptors `a` and `b` have the same content, field for field.
pub open spec fn same_descriptor(a: WebProducerSchedule, b: WebProducerSchedule) -> bool {
    &&& a.source_name == b.source_name
    &&& a.api_url == b.api_url
    &&& a.request_type == b.request_type
    &&& a.body == b.body
    &&& a.headers@ == b.headers@
    &&& a.timing == b.timing
    &&& a.jmespatch_query == b.jmespatch_query
    &&& a.response_action == b.response_action
    &&& a.defer_first == b.defer_first
}

/// The producer `p` was correctly built from the descriptor `d`: it
/// carries the descriptor, its compiled query is the descriptor's query,
/// its compiled timing realizes the descriptor's timing, and it starts in
/// the created state.
pub open spec fn producer_matches(p: Producer, d: WebProducerSchedule) -> bool {
    &&& same_descriptor(p.descriptor, d)
    &&& p.translation@ == d.jmespatch_query@
    &&& timing_matches(p.timing, d.timing)
    &&& p.state == ProducerState::Created
}

/// The registry that tracks one producer per accepted descriptor.
pub struct Scheduler {
    pub scheduled: Vec<WebProducerSchedule>,
    pub producers: Vec<Producer>,
}

impl Scheduler {
    /// An empty registry.
    pub fn new() -> (scheduler: Scheduler)
        ensures
            scheduler.scheduled@ == Seq::<WebProducerSchedule>::empty(),
            scheduler.producers@ == Seq::<Producer>::empty(),
    {
        Scheduler { scheduled: Vec::new(), producers: Vec::new() }
    }

    /// Validates a descriptor and registers a producer for it.  A
    /// descriptor whose query does not compile or whose cron expression
    /// does not parse is rejected, and the registry is left unchanged: no
    /// producer is created for it.  On success the handle of the new
    /// producer is returned.
    pub fn submit(&mut self, msg: WebProducerSchedule) -> (r: Result<usize, RegistrationError>)
        ensures
            match r {
                Ok(handle) => {
                    &&& descriptor_valid(msg)
                    &&& handle == old(self).producers@.len()
                    &&& final(self).producers@.len() == old(self).producers@.len() + 1
                    &&& final(self).producers@.subrange(0, old(self).producers@.len() as int)
                        == old(self).producers@
                    &&& producer_matches(final(self).producers@.last(), msg)
                    &&& final(self).scheduled@ == old(self).scheduled@.push(msg)
                },
                Err(e) => {
                    &&& !descriptor_valid(msg)
                    &&& e == rejection_of(msg)
                    &&& final(self).producers@ == old(self).producers@
                    &&& final(self).scheduled@ == old(self).scheduled@
                },
            },
    {
        if !expression_lexes_cleanly(msg.jmespatch_query.as_str()) {
            return Err(RegistrationError::InvalidQuery);
        }
        let translation = match Query::compile(msg.jmespatch_query.as_str()) {
            Some(translation) => translation,
            None => {
                return Err(RegistrationError::InvalidQuery);
            },
        };
        let timing = match &msg.timing {
            TimingConfig::IntervalSeconds(seconds) => Timing::Interval {
                interval_millis: crate::timing::interval_to_millis(*seconds),
            },
            TimingConfig::CronExpression(expression) => {
                match CronSchedule::compile(expression.as_str()) {
                    Some(schedule) => Timing::Cron { schedule },
                    None => {
                        return Err(RegistrationError::InvalidCron);
                    },
                }
            },
        };
        let handle = self.producers.len();
        let descriptor = msg.duplicate();
        self.scheduled.push(msg);
        self.producers.push(
            Producer { descriptor, translation, timing, state: ProducerState::Created },
        );
        proof {
            assert(final(self).producers@.subrange(0, old(self).producers@.len() as int)
                =~= old(self).producers@);
        }
        Ok(handle)
    }

    /// Signals every tracked producer to stop: each moves to its terminal
    /// state and no further fire starts.  The caller then waits for any
    /// fire already in flight to drain.
    pub fn stop(&mut self)
        ensures
            final(self).scheduled@ == old(self).scheduled@,
            final(self).producers@.len() == old(self).producers@.len(),
            forall|i: int|
                0 <= i < old(self).producers@.len() ==> {
                    &&& (#[trigger] final(self).producers@[i]).state == ProducerState::Stopped
                    &&& final(self).producers@[i].descriptor == old(self).producers@[i].descriptor
                    &&& final(self).producers@[i].translation == old(
                        self,
                    ).producers@[i].translation
                    &&& final(self).producers@[i].timing == old(self).producers@[i].timing
                },
    {
        let n = self.producers.len();
        for i in 0..n
            invariant
                n == self.producers@.len(),
                self.scheduled@ == old(self).scheduled@,
                forall|p: int|
                    0 <= p < i ==> {
                        &&& (#[trigger] self.producers@[p]).state == ProducerState::Stopped
                        &&& self.producers@[p].descriptor == old(self).producers@[p].descriptor
                        &&& self.producers@[p].translation == old(self).producers@[p].translation
                        &&& self.producers@[p].timing == old(self).producers@[p].timing
                    },
                forall|p: int|
                    i <= p < n ==> #[trigger] self.producers@[p] == old(self).producers@[p],
        {
            let producer = &mut self.producers[i];
            producer.state = ProducerState::Stopped;
        }
    }
}

impl WebProducerSchedule {
    /// A field-for-field copy with the same content.
    pub fn duplicate(&self) -> (r: WebProducerSchedule)
        ensures
            same_descriptor(r, *self),
    {
        let body = match &self.body {
            Some(b) => Some(b.clone()),
            None => None,
        };
        let mut headers: Vec<(String, String)> = Vec::new();
        let n = self.headers.len();
        for i in 0..n
            invariant
                n == self.headers@.len(),
                headers@.len() == i as nat,
                forall|p: int| 0 <= p < i ==> #[trigger] headers@[p] == self.headers@[p],
        {
            let entry = &self.headers[i];
            headers.push((entry.0.clone(), entry.1.clone()));
        }
        let timing = match &self.timing {
            TimingConfig::IntervalSeconds(seconds) => TimingConfig::IntervalSeconds(*seconds),
            TimingConfig::CronExpression(expression) => TimingConfig::CronExpression(
                expression.clone(),
            ),
        };
        let r = WebProducerSchedule {
            source_name: self.source_name.clone(),
            api_url: self.api_url.clone(),
            request_type: self.request_type,
            body,
            headers,
            timing,
            jmespatch_query: self.jmespatch_query.clone(),
            response_action: self.response_action,
            defer_first: self.defer_first,
        };
        proof {
            assert(r.headers@ =~= self.headers@);
        }
        r
    }
}

} // verus!
