//! A polling/measurement engine: schedule descriptors are submitted to a
//! scheduler, which runs one producer per descriptor.  Each producer fires on
//! its schedule (fixed interval or cron expression), substitutes stored
//! variables into its request template, evaluates a JMESPath query against the
//! JSON response, and either publishes the extracted measurements to a broker
//! or stores the extracted pairs in the shared variable store.
use vstd::prelude::*;

pub mod broker;
pub mod extract;
pub mod producer;
pub mod query;
pub mod scheduler;
pub mod subst;
pub mod timing;
pub mod varstore;

verus! {

/// Name/value pairs destined for the variable store.
pub type VarPairs = Vec<(String, String)>;

/// What a basic request actor does with a successful response: the
/// request-level counterpart of the producer's
/// [`producer::ProducerAction`].
#[derive(Clone, Copy, PartialEq, Eq, Structural, Debug)]
pub enum ResponseAction {
    /// Extract measurement groups and publish them to the broker.
    PUBLISHDATA,
    /// Extract name/value pairs and write them to the variable store.
    STOREVARIABLE,
}

/// The HTTP method of a basic request: the request-level counterpart of
/// the producer's [`producer::ApiRequestType`].
#[derive(Clone, Copy, PartialEq, Eq, Structural, Debug)]
pub enum RequestType {
    GET,
    POST,
}

/// An error that rejects a schedule descriptor at submission time.
/// Nothing was scheduled when one of these is returned.
#[derive(Clone, Copy, PartialEq, Eq, Structural, Debug)]
pub enum RegistrationError {
    /// The JMESPath query expression did not compile.
    InvalidQuery,
    /// The cron expression did not parse.
    InvalidCron,
}

/// A per-fire failure.  Every variant is recoverable: the producer arms
/// itself for the next occurrence exactly as it would after a success.
#[derive(Clone, Copy, PartialEq, Eq, Structural, Debug)]
pub enum FireError {
    /// The request failed in transport (no response, timeout, non-2xx).
    Transport,
    /// The response body was not valid JSON.
    Parse,
    /// The query failed to evaluate against the parsed document.
    Query,
    /// The query result did not have the shape the response action expects.
    ShapeMismatch,
    /// The variable store was unavailable for this fire.  The library
    /// never raises this itself; the driver that owns the store's lock
    /// reports it when the lock cannot be taken.
    StoreLock,
}

} // verus!
