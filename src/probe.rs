use vstd::prelude::*;
use crate::decode::{decodable, decode, decodes_to, RawResponse, ServerMetadata, ServerType};
use crate::endpoint::Endpoint;
use crate::error::Error;

verus! {

/// The secondary protocol family, whose wire format is not defined yet: every
/// probe of it fails with `ProtocolFailed`, whatever the endpoint.
pub fn probe_secondary(endpoint: &Endpoint) -> (r: Result<RawResponse, Error>)
    ensures
        r is Err && r->Err_0 is ProtocolFailed,
{
    Err(Error::ProtocolFailed(String::from_str("Bedrock servers not yet supported")))
}

/// What the orchestrator does after the primary probe.
#[derive(Debug)]
pub enum ProbeStep {
    /// Probe the secondary family at the same endpoint, keeping the primary's error.
    ProbeSecondary(Error),
    /// The probe is over, with this outcome.
    Finished(Result<ServerMetadata, Error>),
}

/// `r` is the step taken after a primary probe that gave `outcome` in `latency` ms.
pub open spec fn primary_step(outcome: Result<RawResponse, Error>, latency: u64, r: ProbeStep) -> bool {
    match outcome {
        Ok(raw) => if decodable(raw) {
            r is Finished && r->Finished_0 is Ok
                && decodes_to(raw, latency, ServerType::Java, r->Finished_0->Ok_0)
        } else {
            r is ProbeSecondary && r->ProbeSecondary_0 is ProtocolFailed
        },
        Err(e) => r == ProbeStep::ProbeSecondary(e),
    }
}

/// `r` is the final outcome after the primary failed with `primary_error` and the
/// secondary probe gave `outcome` in `latency` ms.
pub open spec fn secondary_outcome(
    primary_error: Error,
    outcome: Result<RawResponse, Error>,
    latency: u64,
    r: Result<ServerMetadata, Error>,
) -> bool {
    match outcome {
        Ok(raw) => if decodable(raw) {
            r is Ok && decodes_to(raw, latency, ServerType::Bedrock, r->Ok_0)
        } else {
            r == Err::<ServerMetadata, Error>(primary_error)
        },
        Err(_) => r == Err::<ServerMetadata, Error>(primary_error),
    }
}

/// Decides the next step from the primary probe's outcome and its latency.
/// A success that decodes ends the probe; any failure, a response that cannot be
/// decoded included, moves on to the secondary family.
pub fn after_primary(outcome: Result<RawResponse, Error>, latency: u64) -> (r: ProbeStep)
    ensures
        primary_step(outcome, latency, r),
{
    match outcome {
        Ok(raw) => match decode(raw, latency, ServerType::Java) {
            Ok(m) => ProbeStep::Finished(Ok(m)),
            Err(e) => ProbeStep::ProbeSecondary(e),
        },
        Err(e) => ProbeStep::ProbeSecondary(e),
    }
}

/// The final outcome after the secondary probe. When the secondary family fails
/// too, the primary's error is what the caller sees.
pub fn after_secondary(
    primary_error: Error,
    outcome: Result<RawResponse, Error>,
    latency: u64,
) -> (r: Result<ServerMetadata, Error>)
    ensures
        secondary_outcome(primary_error, outcome, latency, r),
{
    match outcome {
        Ok(raw) => match decode(raw, latency, ServerType::Bedrock) {
            Ok(m) => Ok(m),
            Err(_) => Err(primary_error),
        },
        Err(_) => Err(primary_error),
    }
}

/// A primary probe that succeeds with a decodable response ends the probe: the
/// secondary family is never asked.
pub proof fn primary_success_short_circuits(raw: RawResponse, latency: u64, r: ProbeStep)
    requires
        decodable(raw),
        primary_step(Ok(raw), latency, r),
    ensures
        r is Finished,
        r->Finished_0 is Ok,
{
}

/// When both families fail, the final error is exactly the primary's, whatever
/// the secondary's error was.
pub proof fn primary_error_takes_precedence(
    primary_error: Error,
    secondary_error: Error,
    latency: u64,
    r: Result<ServerMetadata, Error>,
)
    requires
        secondary_outcome(primary_error, Err(secondary_error), latency, r),
    ensures
        r == Err::<ServerMetadata, Error>(primary_error),
{
}

} // verus!
