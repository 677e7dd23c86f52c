//! One artifact fetch, split at the I/O edge: the decision of what to do
//! (skip, or request a URL) and the mapping from how the attempt ended to
//! its recorded outcome are decided and proved here; the caller performs the
//! network retrieval and the file write and reports back what happened.
use vstd::prelude::*;
use crate::policy::{should_fetch, spec_digest_view, spec_should_fetch, OverwritePolicy};
use crate::urls::{remote_url_for, spec_remote_url};

verus! {

/// Why a fetch attempt failed.
#[derive(Clone, Copy, Debug, PartialEq, Eq)]
pub enum FailureCause {
    /// Connection failure or non-success response status.
    Network,
    /// Local directory creation or file write failure.
    Io,
}

/// How one artifact's fetch attempt ended. Failures are recorded, never
/// raised: a failed item is skipped for the run.
#[derive(Clone, Copy, Debug, PartialEq, Eq)]
pub enum FetchOutcome {
    /// The artifact was retrieved and fully written.
    Written,
    /// The local copy was already current; no network access occurred.
    SkippedAlreadyCurrent,
    /// The attempt failed and the item was skipped for this run.
    Failed(FailureCause),
}

/// What one fetch should do next.
pub enum FetchStep {
    /// The local copy is current: do nothing.
    Skip,
    /// Retrieve this full remote URL and write it to the destination.
    Request(Vec<u8>),
}

/// How an issued request ended, as the caller observed it.
#[derive(Clone, Copy, Debug, PartialEq, Eq)]
pub enum FetchEvent {
    /// The response body was streamed to disk in full.
    BodyWritten,
    /// The request failed: connection error or non-success status.
    RequestFailed,
    /// Directories could not be created or the file could not be written.
    WriteFailed,
}

/// Decide one fetch: request exactly when the policy says to fetch, and
/// then request exactly the URL the suffix rule resolves `path` to.
pub fn plan_fetch(
    path: &[u8],
    exists: bool,
    policy: &OverwritePolicy,
    local_digest: Option<&Vec<u8>>,
) -> (r: FetchStep)
    ensures
        (r is Request) == spec_should_fetch(exists, *policy, spec_digest_view(local_digest)),
        r matches FetchStep::Request(url) ==> url@ == spec_remote_url(path@),
{
    if should_fetch(exists, policy, local_digest) {
        FetchStep::Request(remote_url_for(path))
    } else {
        FetchStep::Skip
    }
}

/// The outcome a request's end maps to.
pub open spec fn spec_outcome_of_request(e: FetchEvent) -> FetchOutcome {
    match e {
        FetchEvent::BodyWritten => FetchOutcome::Written,
        FetchEvent::RequestFailed => FetchOutcome::Failed(FailureCause::Network),
        FetchEvent::WriteFailed => FetchOutcome::Failed(FailureCause::Io),
    }
}

/// Record how an issued request ended. Every event yields an outcome;
/// nothing is raised to the caller.
pub fn outcome_of_request(e: &FetchEvent) -> (r: FetchOutcome)
    ensures
        r == spec_outcome_of_request(*e),
{
    match e {
        FetchEvent::BodyWritten => FetchOutcome::Written,
        FetchEvent::RequestFailed => FetchOutcome::Failed(FailureCause::Network),
        FetchEvent::WriteFailed => FetchOutcome::Failed(FailureCause::Io),
    }
}

} // verus!
