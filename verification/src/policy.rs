//! The download decision policy: given whether the local file exists, the
//! overwrite mode, and (when the mode asks for one) a digest of the local
//! content, decide whether to fetch.
use vstd::prelude::*;
use crate::bytes::bytes_equal;
use crate::checksum::sha256_of;

verus! {

/// When an already-present local file is replaced.
pub enum OverwritePolicy {
    /// Fetch unconditionally.
    AlwaysFetch,
    /// Fetch only when the local file does not exist.
    FetchIfMissing,
    /// Fetch when the local file is absent or its digest disagrees with the
    /// expected 32-byte digest.
    FetchIfChecksumMismatch(Vec<u8>),
}

/// The digest of the local content, if it could be read.
pub open spec fn spec_digest_view(d: Option<&Vec<u8>>) -> Option<Seq<u8>> {
    match d {
        Some(v) => Some(v@),
        None => None,
    }
}

/// The fetch decision. A missing file is always fetched; a present file is
/// re-fetched always, never, or on digest disagreement, by policy. An
/// unreadable local file (`local_digest == None`) counts as a mismatch.
pub open spec fn spec_should_fetch(
    exists: bool,
    policy: OverwritePolicy,
    local_digest: Option<Seq<u8>>,
) -> bool {
    if !exists {
        true
    } else {
        match policy {
            OverwritePolicy::AlwaysFetch => true,
            OverwritePolicy::FetchIfMissing => false,
            OverwritePolicy::FetchIfChecksumMismatch(d) => local_digest != Some(d@),
        }
    }
}

/// Whether the decision needs a digest of the local content at all.
/// Only a checksum policy on a present file ever reads the file.
pub open spec fn spec_needs_local_digest(exists: bool, policy: OverwritePolicy) -> bool {
    exists && policy is FetchIfChecksumMismatch
}

/// The fetch decision, as `spec_should_fetch` states it.
pub fn should_fetch(
    exists: bool,
    policy: &OverwritePolicy,
    local_digest: Option<&Vec<u8>>,
) -> (r: bool)
    ensures
        r == spec_should_fetch(exists, *policy, spec_digest_view(local_digest)),
{
    if !exists {
        return true;
    }
    match policy {
        OverwritePolicy::AlwaysFetch => true,
        OverwritePolicy::FetchIfMissing => false,
        OverwritePolicy::FetchIfChecksumMismatch(d) => match local_digest {
            Some(ld) => !bytes_equal(ld.as_slice(), d.as_slice()),
            None => true,
        },
    }
}

/// Whether the decision needs the local content read and digested first.
pub fn needs_local_digest(exists: bool, policy: &OverwritePolicy) -> (r: bool)
    ensures
        r == spec_needs_local_digest(exists, *policy),
{
    match policy {
        OverwritePolicy::FetchIfChecksumMismatch(_) => exists,
        _ => false,
    }
}

/// A missing file is fetched under every policy: there is nothing local to
/// compare against.
pub proof fn lemma_missing_always_fetched(policy: OverwritePolicy, d: Option<Seq<u8>>)
    ensures
        spec_should_fetch(false, policy, d),
{
}

/// The always-fetch policy decides `true` whatever the local state, and the
/// decision never consults a digest of the local content.
pub proof fn lemma_always_fetch_never_reads(exists: bool, d: Option<Seq<u8>>)
    ensures
        spec_should_fetch(exists, OverwritePolicy::AlwaysFetch, d),
        !spec_needs_local_digest(exists, OverwritePolicy::AlwaysFetch),
{
}

/// The missing-only policy never re-fetches a present file.
pub proof fn lemma_missing_only_skips_present(d: Option<Seq<u8>>)
    ensures
        !spec_should_fetch(true, OverwritePolicy::FetchIfMissing, d),
{
}

/// With the checksum policy and the file present and readable, the decision
/// is `true` exactly when the content's digest differs from the expected one.
pub proof fn lemma_checksum_policy_decides_by_digest(expected: Vec<u8>, content: Seq<u8>)
    ensures
        spec_should_fetch(
            true,
            OverwritePolicy::FetchIfChecksumMismatch(expected),
            Some(sha256_of(content)),
        ) == (sha256_of(content) != expected@),
{
}

/// Missing-only fetching is idempotent: once a first run has either found
/// the file in place or fetched and written it, the file exists, and a
/// second run decides not to fetch. Two consecutive missing-only runs on a
/// path therefore issue at most one network request, provided the first
/// run's request (if any) succeeded and wrote the file.
pub proof fn lemma_missing_only_idempotent(exists0: bool, d: Option<Seq<u8>>)
    ensures
        ({
            let first = spec_should_fetch(exists0, OverwritePolicy::FetchIfMissing, None);
            let exists1 = exists0 || first;
            !spec_should_fetch(exists1, OverwritePolicy::FetchIfMissing, d)
        }),
{
}

} // verus!
