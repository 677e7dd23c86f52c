use squire::policy::OverwritePolicy;
use squire::stages::{
    channel_manifest_path, crate_archive_path, crates_plan, dist_plan, filter_architectures,
    rustup_path, rustup_plan, select_crate_versions, with_side_files, CrateEntry, CrateVersion,
};
use squire::urls::{local_destination, remote_url_for};

fn v(s: &str) -> Vec<u8> {
    s.as_bytes().to_vec()
}

#[test]
fn registry_suffix_selects_the_registry_origin() {
    assert_eq!(
        remote_url_for(b"/crates/serde/serde-1.0.0.crate"),
        v("https://static.crates.io/crates/serde/serde-1.0.0.crate")
    );
    assert_eq!(
        remote_url_for(b"/dist/channel-rust-stable.toml"),
        v("https://static.rust-lang.org/dist/channel-rust-stable.toml")
    );
}

#[test]
fn the_local_destination_mirrors_the_remote_path() {
    assert_eq!(
        local_destination(b"/mnt/mirror", b"/rustup/release-stable.toml"),
        v("/mnt/mirror/rustup/release-stable.toml")
    );
}

#[test]
fn the_channel_manifest_path_names_the_channel() {
    assert_eq!(
        channel_manifest_path(b"stable"),
        v("/dist/channel-rust-stable.toml")
    );
    assert_eq!(
        channel_manifest_path(b"2023-01-01"),
        v("/dist/channel-rust-2023-01-01.toml")
    );
}

#[test]
fn side_files_are_the_signature_and_the_checksum() {
    assert_eq!(
        with_side_files(b"/dist/channel-rust-beta.toml"),
        vec![
            v("/dist/channel-rust-beta.toml"),
            v("/dist/channel-rust-beta.toml.asc"),
            v("/dist/channel-rust-beta.toml.sha256"),
        ]
    );
}

#[test]
fn windows_installers_carry_the_executable_suffix() {
    assert_eq!(
        rustup_path(b"x86_64-pc-windows-msvc"),
        v("/rustup/dist/x86_64-pc-windows-msvc/rustup-init.exe")
    );
    assert_eq!(
        rustup_path(b"x86_64-unknown-linux-gnu"),
        v("/rustup/dist/x86_64-unknown-linux-gnu/rustup-init")
    );
}

#[test]
fn the_installer_plan_always_refetches() {
    let archs = vec![v("x86_64-unknown-linux-gnu"), v("aarch64-pc-windows-msvc")];
    let plan = rustup_plan(&archs);
    assert_eq!(plan.len(), 3);
    assert_eq!(plan[0].path, v("/rustup/release-stable.toml"));
    assert_eq!(
        plan[1].path,
        v("/rustup/dist/x86_64-unknown-linux-gnu/rustup-init")
    );
    assert_eq!(
        plan[2].path,
        v("/rustup/dist/aarch64-pc-windows-msvc/rustup-init.exe")
    );
    for p in &plan {
        assert!(matches!(p.policy, OverwritePolicy::AlwaysFetch));
    }
}

#[test]
fn the_toolchain_plan_expands_each_path_with_its_side_files() {
    let paths = vec![v("/dist/a.tar.xz"), v("/dist/b.tar.xz")];
    let plan = dist_plan(&paths);
    assert_eq!(plan.len(), 6);
    assert_eq!(plan[0].path, v("/dist/a.tar.xz"));
    assert_eq!(plan[1].path, v("/dist/a.tar.xz.asc"));
    assert_eq!(plan[2].path, v("/dist/a.tar.xz.sha256"));
    assert_eq!(plan[3].path, v("/dist/b.tar.xz"));
    assert_eq!(plan[4].path, v("/dist/b.tar.xz.asc"));
    assert_eq!(plan[5].path, v("/dist/b.tar.xz.sha256"));
    for p in &plan {
        assert!(matches!(p.policy, OverwritePolicy::FetchIfMissing));
    }
}

fn version(name: &str, ver: &str, digest: u8, yanked: bool) -> CrateVersion {
    CrateVersion {
        name: v(name),
        version: v(ver),
        checksum: vec![digest; 32],
        yanked,
    }
}

#[test]
fn selection_keeps_non_yanked_versions_of_multi_version_crates() {
    let entries = vec![
        CrateEntry {
            versions: vec![
                version("serde", "1.0.0", 1, false),
                version("serde", "1.0.1", 2, true),
                version("serde", "1.0.2", 3, false),
            ],
        },
        CrateEntry {
            versions: vec![version("lonely", "0.1.0", 4, false)],
        },
        CrateEntry {
            versions: vec![
                version("both-yanked", "0.1.0", 5, true),
                version("both-yanked", "0.2.0", 6, true),
            ],
        },
    ];
    let selected = select_crate_versions(entries);
    let got: Vec<(Vec<u8>, Vec<u8>)> = selected
        .iter()
        .map(|s| (s.name.clone(), s.version.clone()))
        .collect();
    assert_eq!(
        got,
        vec![(v("serde"), v("1.0.0")), (v("serde"), v("1.0.2"))]
    );
}

#[test]
fn the_registry_plan_uses_the_archive_path_and_the_requested_policy() {
    assert_eq!(
        crate_archive_path(b"serde", b"1.0.2"),
        v("/crates/serde/serde-1.0.2.crate")
    );
    let selected = vec![version("serde", "1.0.2", 7, false)];
    let missing_only = crates_plan(selected, false);
    assert_eq!(missing_only.len(), 1);
    assert_eq!(missing_only[0].path, v("/crates/serde/serde-1.0.2.crate"));
    assert!(matches!(
        missing_only[0].policy,
        OverwritePolicy::FetchIfMissing
    ));

    let selected = vec![version("serde", "1.0.2", 7, false)];
    let validated = crates_plan(selected, true);
    match &validated[0].policy {
        OverwritePolicy::FetchIfChecksumMismatch(d) => assert_eq!(d, &vec![7u8; 32]),
        other => panic!("unexpected policy: {:?}", other_name(other)),
    }
}

fn other_name(p: &OverwritePolicy) -> &'static str {
    match p {
        OverwritePolicy::AlwaysFetch => "AlwaysFetch",
        OverwritePolicy::FetchIfMissing => "FetchIfMissing",
        OverwritePolicy::FetchIfChecksumMismatch(_) => "FetchIfChecksumMismatch",
    }
}

#[test]
fn the_architecture_filter_keeps_matches_in_order() {
    let archs = vec![
        v("x86_64-unknown-linux-gnu"),
        v("aarch64-apple-darwin"),
        v("x86_64-pc-windows-msvc"),
    ];
    let kept = filter_architectures(archs, b"x86_64").expect("pattern compiles");
    assert_eq!(
        kept,
        vec![v("x86_64-unknown-linux-gnu"), v("x86_64-pc-windows-msvc")]
    );
}

#[test]
fn an_invalid_filter_pattern_is_reported() {
    let archs = vec![v("x86_64-unknown-linux-gnu")];
    assert!(filter_architectures(archs, b"(unclosed").is_none());
}
