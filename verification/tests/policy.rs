use squire::checksum::verify_content;
use squire::fetch::{plan_fetch, outcome_of_request, FailureCause, FetchEvent, FetchOutcome, FetchStep};
use squire::policy::{needs_local_digest, should_fetch, OverwritePolicy};
use sha2::Digest;

fn sha256(data: &[u8]) -> Vec<u8> {
    sha2::Sha256::digest(data).to_vec()
}

#[test]
fn missing_file_is_fetched_under_every_policy() {
    let digest = sha256(b"anything");
    assert!(should_fetch(false, &OverwritePolicy::AlwaysFetch, None));
    assert!(should_fetch(false, &OverwritePolicy::FetchIfMissing, None));
    assert!(should_fetch(
        false,
        &OverwritePolicy::FetchIfChecksumMismatch(digest),
        None
    ));
}

#[test]
fn always_fetch_refetches_and_never_needs_a_digest() {
    assert!(should_fetch(true, &OverwritePolicy::AlwaysFetch, None));
    assert!(!needs_local_digest(true, &OverwritePolicy::AlwaysFetch));
    assert!(!needs_local_digest(false, &OverwritePolicy::AlwaysFetch));
}

#[test]
fn missing_only_skips_a_present_file() {
    assert!(!should_fetch(true, &OverwritePolicy::FetchIfMissing, None));
    assert!(!needs_local_digest(true, &OverwritePolicy::FetchIfMissing));
}

#[test]
fn checksum_policy_fetches_exactly_on_mismatch() {
    let content = b"crate archive bytes";
    let good = sha256(content);
    let bad = sha256(b"other bytes");
    let local = sha256(content);
    assert!(!should_fetch(
        true,
        &OverwritePolicy::FetchIfChecksumMismatch(good.clone()),
        Some(&local)
    ));
    assert!(should_fetch(
        true,
        &OverwritePolicy::FetchIfChecksumMismatch(bad),
        Some(&local)
    ));
    // An unreadable local file counts as a mismatch.
    assert!(should_fetch(
        true,
        &OverwritePolicy::FetchIfChecksumMismatch(good.clone()),
        None
    ));
    assert!(needs_local_digest(
        true,
        &OverwritePolicy::FetchIfChecksumMismatch(good)
    ));
}

#[test]
fn verify_content_agrees_with_a_known_digest() {
    // SHA-256 of the empty input, as the standard gives it.
    let expected: Vec<u8> = vec![
        0xe3, 0xb0, 0xc4, 0x42, 0x98, 0xfc, 0x1c, 0x14, 0x9a, 0xfb, 0xf4, 0xc8, 0x99, 0x6f,
        0xb9, 0x24, 0x27, 0xae, 0x41, 0xe4, 0x64, 0x9b, 0x93, 0x4c, 0xa4, 0x95, 0x99, 0x1b,
        0x78, 0x52, 0xb8, 0x55,
    ];
    assert!(verify_content(b"", &expected));
    assert!(!verify_content(b"x", &expected));
}

#[test]
fn missing_only_fetch_is_idempotent() {
    // An in-memory stand-in for the destination: does the file exist?
    let mut exists = false;
    let mut requests = 0;
    for _ in 0..2 {
        match plan_fetch(b"/dist/pkg.tar.xz", exists, &OverwritePolicy::FetchIfMissing, None) {
            FetchStep::Request(_url) => {
                requests += 1;
                exists = true; // the request succeeds and the body is written
            }
            FetchStep::Skip => {}
        }
    }
    assert_eq!(requests, 1);
}

#[test]
fn every_request_event_maps_to_its_outcome() {
    assert_eq!(
        outcome_of_request(&FetchEvent::BodyWritten),
        FetchOutcome::Written
    );
    assert_eq!(
        outcome_of_request(&FetchEvent::RequestFailed),
        FetchOutcome::Failed(FailureCause::Network)
    );
    assert_eq!(
        outcome_of_request(&FetchEvent::WriteFailed),
        FetchOutcome::Failed(FailureCause::Io)
    );
}
