//! A verified core for mirroring a remote artifact tree (toolchain
//! distribution, installer, package registry) onto local disk: the per-item
//! download decision policy, checksum verification, manifest extraction,
//! fetch planning, bounded-concurrency scheduling, and per-stage descriptor
//! planning. Network and filesystem access stay outside, behind the
//! decisions proved here.
pub mod bytes;
pub mod checksum;
pub mod fetch;
pub mod manifest;
pub mod policy;
pub mod scheduler;
pub mod stages;
pub mod urls;
