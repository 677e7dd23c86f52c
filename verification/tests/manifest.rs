use squire::manifest::{extract_architectures, extract_package_paths};

fn v(s: &str) -> Vec<u8> {
    s.as_bytes().to_vec()
}

#[test]
fn extracts_one_target_line() {
    let text = "target = \"x86_64-unknown-linux-gnu\"\nother=1\n";
    let archs = extract_architectures(text.as_bytes());
    assert_eq!(archs, vec![v("x86_64-unknown-linux-gnu")]);
}

#[test]
fn collapses_duplicate_targets_and_trims() {
    let text = "  target = \"aarch64-apple-darwin\"  \ntarget = \"x86_64-pc-windows-msvc\"\ntarget = \"aarch64-apple-darwin\"\ntargets = \"not-a-target-line\"\n";
    let archs = extract_architectures(text.as_bytes());
    assert_eq!(
        archs,
        vec![v("aarch64-apple-darwin"), v("x86_64-pc-windows-msvc")]
    );
}

#[test]
fn empty_text_yields_no_architectures() {
    let archs = extract_architectures(b"");
    assert!(archs.is_empty());
}

#[test]
fn package_path_is_reduced_to_its_path_component() {
    let text = "url = \"https://static.rust-lang.org/dist/2023-01-01/rustc-1.66.0-x86_64-unknown-linux-gnu.tar.xz\"\n";
    let archs = vec![v("x86_64-unknown-linux-gnu")];
    let paths = extract_package_paths(text.as_bytes(), &archs);
    assert_eq!(
        paths,
        vec![v("/dist/2023-01-01/rustc-1.66.0-x86_64-unknown-linux-gnu.tar.xz")]
    );
}

#[test]
fn mismatched_origin_is_dropped_even_when_the_architecture_matches() {
    let text = "url = \"https://example.com/dist/rustc-1.66.0-x86_64-unknown-linux-gnu.tar.xz\"\nxz_url = \"https://static.rust-lang.org/dist/cargo-1.66.0-x86_64-unknown-linux-gnu.tar.xz\"\n";
    let archs = vec![v("x86_64-unknown-linux-gnu")];
    let paths = extract_package_paths(text.as_bytes(), &archs);
    assert_eq!(
        paths,
        vec![v("/dist/cargo-1.66.0-x86_64-unknown-linux-gnu.tar.xz")]
    );
}

#[test]
fn wrong_scheme_is_a_different_origin_and_is_dropped() {
    let text = "url = \"http://static.rust-lang.org/dist/rust-src-1.66.0-x86_64-unknown-linux-gnu.tar.xz\"\n";
    let archs = vec![v("x86_64-unknown-linux-gnu")];
    let paths = extract_package_paths(text.as_bytes(), &archs);
    assert!(paths.is_empty());
}

#[test]
fn unlisted_architecture_is_dropped_and_order_is_kept() {
    let text = "url = \"https://static.rust-lang.org/dist/rustc-1.66.0-x86_64-unknown-linux-gnu.tar.xz\"\nurl = \"https://static.rust-lang.org/dist/rustc-1.66.0-riscv64gc-unknown-none-elf.tar.xz\"\nxz_url = \"https://static.rust-lang.org/dist/cargo-1.66.0-x86_64-unknown-linux-gnu.tar.xz\"\n";
    let archs = vec![v("x86_64-unknown-linux-gnu")];
    let paths = extract_package_paths(text.as_bytes(), &archs);
    assert_eq!(
        paths,
        vec![
            v("/dist/rustc-1.66.0-x86_64-unknown-linux-gnu.tar.xz"),
            v("/dist/cargo-1.66.0-x86_64-unknown-linux-gnu.tar.xz"),
        ]
    );
}

#[test]
fn unparsable_url_is_dropped() {
    let text = "url = \"not a url at all x86_64-unknown-linux-gnu\"\n";
    let archs = vec![v("x86_64-unknown-linux-gnu")];
    let paths = extract_package_paths(text.as_bytes(), &archs);
    assert!(paths.is_empty());
}
