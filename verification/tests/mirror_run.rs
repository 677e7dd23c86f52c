//! An end-to-end run against an in-memory destination: the library decides
//! everything (what to fetch, from which URL, with which outcome) and the
//! test plays the part of the network and the filesystem.
use std::collections::HashMap;

use squire::fetch::{plan_fetch, outcome_of_request, FetchEvent, FetchOutcome, FetchStep};
use squire::policy::{needs_local_digest, OverwritePolicy};
use squire::scheduler::Scheduler;
use squire::stages::PlannedFetch;
use squire::urls::local_destination;

fn v(s: &str) -> Vec<u8> {
    s.as_bytes().to_vec()
}

/// Run one stage's plan to completion against an in-memory file tree,
/// returning the outcomes and how many network requests were made.
fn run_stage(
    plan: &[PlannedFetch],
    files: &mut HashMap<Vec<u8>, Vec<u8>>,
    root: &[u8],
) -> (Vec<FetchOutcome>, usize) {
    let mut requests = 0;
    let mut sched = Scheduler::new(plan.len(), 2);
    while !sched.is_done() {
        while sched.can_start_next() {
            let idx = sched.start_next();
            let item = &plan[idx];
            let dest = local_destination(root, &item.path);
            let exists = files.contains_key(&dest);
            // The decision never needs a digest in this scenario.
            assert!(!needs_local_digest(exists, &item.policy));
            let outcome = match plan_fetch(&item.path, exists, &item.policy, None) {
                FetchStep::Skip => FetchOutcome::SkippedAlreadyCurrent,
                FetchStep::Request(url) => {
                    requests += 1;
                    files.insert(dest, url);
                    outcome_of_request(&FetchEvent::BodyWritten)
                }
            };
            sched.complete(outcome);
        }
    }
    (sched.outcomes, requests)
}

#[test]
fn a_fresh_mirror_writes_everything_and_a_rerun_only_the_manifest() {
    let root = b"/mirror";
    let mut files: HashMap<Vec<u8>, Vec<u8>> = HashMap::new();

    let mut plan: Vec<PlannedFetch> = Vec::new();
    plan.push(PlannedFetch {
        path: v("/dist/channel-rust-stable.toml"),
        policy: OverwritePolicy::AlwaysFetch,
    });
    for p in ["/dist/a.tar.xz", "/dist/b.tar.xz", "/dist/c.tar.xz"] {
        plan.push(PlannedFetch {
            path: v(p),
            policy: OverwritePolicy::FetchIfMissing,
        });
    }

    let (outcomes, requests) = run_stage(&plan, &mut files, root);
    assert_eq!(files.len(), 4);
    assert_eq!(requests, 4);
    assert_eq!(outcomes.len(), 4);
    assert!(outcomes.iter().all(|o| matches!(o, FetchOutcome::Written)));

    let (outcomes, requests) = run_stage(&plan, &mut files, root);
    assert_eq!(files.len(), 4);
    assert_eq!(requests, 1);
    let written = outcomes
        .iter()
        .filter(|o| matches!(o, FetchOutcome::Written))
        .count();
    let skipped = outcomes
        .iter()
        .filter(|o| matches!(o, FetchOutcome::SkippedAlreadyCurrent))
        .count();
    assert_eq!(written, 1);
    assert_eq!(skipped, 3);
}

#[test]
fn each_file_lands_under_the_output_root() {
    let dest = local_destination(b"/mirror", b"/dist/a.tar.xz");
    assert_eq!(dest, v("/mirror/dist/a.tar.xz"));
}
