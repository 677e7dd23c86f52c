//! Per-stage descriptor planning: which root-relative paths each mirroring
//! stage fetches, under which overwrite policy, and in which order. The
//! installer stage always re-fetches; toolchain packages are fetched only
//! when missing; registry archives are fetched when missing or, when
//! checksum validation is requested, when the local digest disagrees.
use vstd::prelude::*;
use vstd::slice::slice_to_vec;
use crate::bytes::{concat_bytes, contains_sub, spec_contains_sub};
use crate::policy::OverwritePolicy;
use crate::urls::{crate_suffix, spec_crate_suffix};

verus! {

/// The byte string `"/rustup/release-stable.toml"`.
pub open spec fn spec_rustup_manifest_path() -> Seq<u8> {
    seq![47u8, 114u8, 117u8, 115u8, 116u8, 117u8, 112u8, 47u8, 114u8, 101u8, 108u8, 101u8, 97u8, 115u8, 101u8, 45u8, 115u8, 116u8, 97u8, 98u8, 108u8, 101u8, 46u8, 116u8, 111u8, 109u8, 108u8]
}

/// The byte string `"/rustup/release-stable.toml"`.
pub fn rustup_manifest_path() -> (r: Vec<u8>)
    ensures
        r@ =~= spec_rustup_manifest_path(),
{
    vec![47u8, 114u8, 117u8, 115u8, 116u8, 117u8, 112u8, 47u8, 114u8, 101u8, 108u8, 101u8, 97u8, 115u8, 101u8, 45u8, 115u8, 116u8, 97u8, 98u8, 108u8, 101u8, 46u8, 116u8, 111u8, 109u8, 108u8]
}

/// The byte string `"/rustup/dist/"`.
pub open spec fn spec_rustup_dist_prefix() -> Seq<u8> {
    seq![47u8, 114u8, 117u8, 115u8, 116u8, 117u8, 112u8, 47u8, 100u8, 105u8, 115u8, 116u8, 47u8]
}

/// The byte string `"/rustup/dist/"`.
pub fn rustup_dist_prefix() -> (r: Vec<u8>)
    ensures
        r@ =~= spec_rustup_dist_prefix(),
{
    vec![47u8, 114u8, 117u8, 115u8, 116u8, 117u8, 112u8, 47u8, 100u8, 105u8, 115u8, 116u8, 47u8]
}

/// The byte string `"/rustup-init"`.
pub open spec fn spec_rustup_init_name() -> Seq<u8> {
    seq![47u8, 114u8, 117u8, 115u8, 116u8, 117u8, 112u8, 45u8, 105u8, 110u8, 105u8, 116u8]
}

/// The byte string `"/rustup-init"`.
pub fn rustup_init_name() -> (r: Vec<u8>)
    ensures
        r@ =~= spec_rustup_init_name(),
{
    vec![47u8, 114u8, 117u8, 115u8, 116u8, 117u8, 112u8, 45u8, 105u8, 110u8, 105u8, 116u8]
}

/// The byte string `".exe"`.
pub open spec fn spec_exe_suffix() -> Seq<u8> {
    seq![46u8, 101u8, 120u8, 101u8]
}

/// The byte string `".exe"`.
pub fn exe_suffix() -> (r: Vec<u8>)
    ensures
        r@ =~= spec_exe_suffix(),
{
    vec![46u8, 101u8, 120u8, 101u8]
}

/// The byte string `"windows"`.
pub open spec fn spec_windows_marker() -> Seq<u8> {
    seq![119u8, 105u8, 110u8, 100u8, 111u8, 119u8, 115u8]
}

/// The byte string `"windows"`.
pub fn windows_marker() -> (r: Vec<u8>)
    ensures
        r@ =~= spec_windows_marker(),
{
    vec![119u8, 105u8, 110u8, 100u8, 111u8, 119u8, 115u8]
}

/// The byte string `"/dist/channel-rust-"`.
pub open spec fn spec_channel_prefix() -> Seq<u8> {
    seq![47u8, 100u8, 105u8, 115u8, 116u8, 47u8, 99u8, 104u8, 97u8, 110u8, 110u8, 101u8, 108u8, 45u8, 114u8, 117u8, 115u8, 116u8, 45u8]
}

/// The byte string `"/dist/channel-rust-"`.
pub fn channel_prefix() -> (r: Vec<u8>)
    ensures
        r@ =~= spec_channel_prefix(),
{
    vec![47u8, 100u8, 105u8, 115u8, 116u8, 47u8, 99u8, 104u8, 97u8, 110u8, 110u8, 101u8, 108u8, 45u8, 114u8, 117u8, 115u8, 116u8, 45u8]
}

/// The byte string `".toml"`.
pub open spec fn spec_toml_suffix() -> Seq<u8> {
    seq![46u8, 116u8, 111u8, 109u8, 108u8]
}

/// The byte string `".toml"`.
pub fn toml_suffix() -> (r: Vec<u8>)
    ensures
        r@ =~= spec_toml_suffix(),
{
    vec![46u8, 116u8, 111u8, 109u8, 108u8]
}

/// The byte string `".asc"`.
pub open spec fn spec_asc_suffix() -> Seq<u8> {
    seq![46u8, 97u8, 115u8, 99u8]
}

/// The byte string `".asc"`.
pub fn asc_suffix() -> (r: Vec<u8>)
    ensures
        r@ =~= spec_asc_suffix(),
{
    vec![46u8, 97u8, 115u8, 99u8]
}

/// The byte string `".sha256"`.
pub open spec fn spec_sha256_suffix() -> Seq<u8> {
    seq![46u8, 115u8, 104u8, 97u8, 50u8, 53u8, 54u8]
}

/// The byte string `".sha256"`.
pub fn sha256_suffix() -> (r: Vec<u8>)
    ensures
        r@ =~= spec_sha256_suffix(),
{
    vec![46u8, 115u8, 104u8, 97u8, 50u8, 53u8, 54u8]
}

/// The byte string `"/crates/"`.
pub open spec fn spec_crates_dir() -> Seq<u8> {
    seq![47u8, 99u8, 114u8, 97u8, 116u8, 101u8, 115u8, 47u8]
}

/// The byte string `"/crates/"`.
pub fn crates_dir() -> (r: Vec<u8>)
    ensures
        r@ =~= spec_crates_dir(),
{
    vec![47u8, 99u8, 114u8, 97u8, 116u8, 101u8, 115u8, 47u8]
}

/// The byte string `"/"`.
pub open spec fn spec_slash() -> Seq<u8> {
    seq![47u8]
}

/// The byte string `"/"`.
pub fn slash() -> (r: Vec<u8>)
    ensures
        r@ =~= spec_slash(),
{
    vec![47u8]
}

/// The byte string `"-"`.
pub open spec fn spec_dash() -> Seq<u8> {
    seq![45u8]
}

/// The byte string `"-"`.
pub fn dash() -> (r: Vec<u8>)
    ensures
        r@ =~= spec_dash(),
{
    vec![45u8]
}

/// One planned fetch: a root-relative remote path and the overwrite policy
/// to apply at the destination.
pub struct PlannedFetch {
    /// The root-relative remote path of the artifact.
    pub path: Vec<u8>,
    /// When an already-present local copy is replaced.
    pub policy: OverwritePolicy,
}

/// The installer executable's path for one architecture; Windows
/// architectures carry the executable suffix.
pub open spec fn spec_rustup_path(arch: Seq<u8>) -> Seq<u8> {
    spec_rustup_dist_prefix() + arch + spec_rustup_init_name() + (if spec_contains_sub(
        arch,
        spec_windows_marker(),
    ) {
        spec_exe_suffix()
    } else {
        Seq::<u8>::empty()
    })
}

/// The installer executable's path for one architecture.
pub fn rustup_path(arch: &[u8]) -> (r: Vec<u8>)
    ensures
        r@ == spec_rustup_path(arch@),
{
    let wm = windows_marker();
    let mut p = rustup_dist_prefix();
    let ri = rustup_init_name();
    p.extend_from_slice(arch);
    p.extend_from_slice(ri.as_slice());
    if contains_sub(arch, wm.as_slice()) {
        let ex = exe_suffix();
        p.extend_from_slice(ex.as_slice());
        proof {
            assert(p@ =~= spec_rustup_path(arch@));
        }
    } else {
        proof {
            assert(p@ =~= spec_rustup_path(arch@));
        }
    }
    p
}

/// The installer stage's plan: the top-level installer manifest, then one
/// installer executable per architecture, every one always re-fetched.
pub fn rustup_plan(architectures: &Vec<Vec<u8>>) -> (r: Vec<PlannedFetch>)
    ensures
        r@.len() == 1 + architectures@.len(),
        r@[0].path@ == spec_rustup_manifest_path(),
        r@[0].policy is AlwaysFetch,
        forall|i: int|
            0 <= i < architectures@.len() ==> (#[trigger] r@[i + 1]).path@ == spec_rustup_path(
                architectures.deep_view()[i],
            ) && r@[i + 1].policy is AlwaysFetch,
{
    let mut out: Vec<PlannedFetch> = Vec::new();
    out.push(PlannedFetch { path: rustup_manifest_path(), policy: OverwritePolicy::AlwaysFetch });
    let n = architectures.len();
    let mut i: usize = 0;
    while i < n
        invariant
            0 <= i <= n == architectures@.len(),
            out@.len() == 1 + i,
            out@[0].path@ == spec_rustup_manifest_path(),
            out@[0].policy is AlwaysFetch,
            forall|j: int|
                0 <= j < i ==> (#[trigger] out@[j + 1]).path@ == spec_rustup_path(
                    architectures.deep_view()[j],
                ) && out@[j + 1].policy is AlwaysFetch,
        decreases n - i,
    {
        proof {
            assert(architectures.deep_view()[i as int] =~= architectures@[i as int]@);
        }
        let p = rustup_path(architectures[i].as_slice());
        out.push(PlannedFetch { path: p, policy: OverwritePolicy::AlwaysFetch });
        i = i + 1;
    }
    out
}

/// The channel manifest's path for one channel name.
pub open spec fn spec_channel_manifest_path(channel: Seq<u8>) -> Seq<u8> {
    spec_channel_prefix() + channel + spec_toml_suffix()
}

/// The channel manifest's path for one channel name.
pub fn channel_manifest_path(channel: &[u8]) -> (r: Vec<u8>)
    ensures
        r@ == spec_channel_manifest_path(channel@),
{
    let mut p = channel_prefix();
    let ts = toml_suffix();
    p.extend_from_slice(channel);
    p.extend_from_slice(ts.as_slice());
    proof {
        assert(p@ =~= spec_channel_manifest_path(channel@));
    }
    p
}

/// A toolchain file's path together with its signature and checksum side
/// files, in that order.
pub open spec fn spec_side_files(path: Seq<u8>) -> Seq<Seq<u8>> {
    seq![path, path + spec_asc_suffix(), path + spec_sha256_suffix()]
}

/// A toolchain file's path with its signature and checksum side files.
pub fn with_side_files(path: &[u8]) -> (r: Vec<Vec<u8>>)
    ensures
        r.deep_view() == spec_side_files(path@),
{
    let asc = asc_suffix();
    let sha = sha256_suffix();
    let mut out: Vec<Vec<u8>> = Vec::new();
    out.push(slice_to_vec(path));
    out.push(concat_bytes(path, asc.as_slice()));
    out.push(concat_bytes(path, sha.as_slice()));
    proof {
        assert(out.deep_view() =~~= spec_side_files(path@));
    }
    out
}

/// The toolchain stage's plan for a list of paths: each path expands to
/// itself and its two side files, in order, all fetched only when missing.
pub fn dist_plan(paths: &Vec<Vec<u8>>) -> (r: Vec<PlannedFetch>)
    ensures
        r@.len() == 3 * paths@.len(),
        forall|i: int|
            0 <= i < paths@.len() ==> {
                let p = #[trigger] paths.deep_view()[i];
                &&& r@[3 * i].path@ == p
                &&& r@[3 * i + 1].path@ == p + spec_asc_suffix()
                &&& r@[3 * i + 2].path@ == p + spec_sha256_suffix()
                &&& r@[3 * i].policy is FetchIfMissing
                &&& r@[3 * i + 1].policy is FetchIfMissing
                &&& r@[3 * i + 2].policy is FetchIfMissing
            },
{
    let mut out: Vec<PlannedFetch> = Vec::new();
    let n = paths.len();
    let mut i: usize = 0;
    while i < n
        invariant
            0 <= i <= n == paths@.len(),
            out@.len() == 3 * i,
            forall|j: int|
                0 <= j < i ==> {
                    let p = #[trigger] paths.deep_view()[j];
                    &&& out@[3 * j].path@ == p
                    &&& out@[3 * j + 1].path@ == p + spec_asc_suffix()
                    &&& out@[3 * j + 2].path@ == p + spec_sha256_suffix()
                    &&& out@[3 * j].policy is FetchIfMissing
                    &&& out@[3 * j + 1].policy is FetchIfMissing
                    &&& out@[3 * j + 2].policy is FetchIfMissing
                },
        decreases n - i,
    {
        proof {
            assert(paths.deep_view()[i as int] =~= paths@[i as int]@);
        }
        let files = with_side_files(paths[i].as_slice());
        proof {
            assert(files.deep_view()[0] == paths.deep_view()[i as int]);
            assert(files.deep_view()[1] == paths.deep_view()[i as int] + spec_asc_suffix());
            assert(files.deep_view()[2] == paths.deep_view()[i as int] + spec_sha256_suffix());
        }
        let mut files = files;
        proof {
            assert(files@.len() == files.deep_view().len());
            assert(files.deep_view().len() == 3);
        }
        let f0 = files.remove(0);
        let f1 = files.remove(0);
        let f2 = files.remove(0);
        out.push(PlannedFetch { path: f0, policy: OverwritePolicy::FetchIfMissing });
        out.push(PlannedFetch { path: f1, policy: OverwritePolicy::FetchIfMissing });
        out.push(PlannedFetch { path: f2, policy: OverwritePolicy::FetchIfMissing });
        i = i + 1;
    }
    out
}

/// One version of one package, as the registry index asserts it: its name,
/// version string, expected archive digest, and whether it was yanked.
pub struct CrateVersion {
    /// The package's name.
    pub name: Vec<u8>,
    /// The version string.
    pub version: Vec<u8>,
    /// The 32-byte digest the index asserts for the archive.
    pub checksum: Vec<u8>,
    /// Whether this version was withdrawn.
    pub yanked: bool,
}

/// One package of the registry index: every version the index lists.
pub struct CrateEntry {
    /// The package's versions, oldest first, as the index lists them.
    pub versions: Vec<CrateVersion>,
}

/// The versions of one package that are mirrored: the non-yanked ones.
pub open spec fn spec_kept_versions(vs: Seq<CrateVersion>) -> Seq<CrateVersion> {
    vs.filter(|v: CrateVersion| !v.yanked)
}

/// The versions the registry stage mirrors: for every package with at
/// least two listed versions, its non-yanked versions, in index order.
pub open spec fn spec_selected_versions(entries: Seq<CrateEntry>) -> Seq<CrateVersion>
    decreases entries.len(),
{
    if entries.len() == 0 {
        Seq::empty()
    } else {
        (if entries[0].versions@.len() >= 2 {
            spec_kept_versions(entries[0].versions@)
        } else {
            Seq::empty()
        }) + spec_selected_versions(entries.drop_first())
    }
}

/// Keep the non-yanked versions of `vs`, in order.
fn kept_versions(vs: Vec<CrateVersion>) -> (r: Vec<CrateVersion>)
    ensures
        r@ == spec_kept_versions(vs@),
{
    let ghost orig = vs@;
    let mut rest = vs;
    let mut out: Vec<CrateVersion> = Vec::new();
    let mut k: usize = 0;
    let n = rest.len();
    proof {
        reveal_with_fuel(Seq::<_>::filter, 2);
        assert(orig.subrange(0, 0) =~= Seq::<CrateVersion>::empty());
        assert(Seq::<CrateVersion>::empty().filter(|v: CrateVersion| !v.yanked)
            =~= Seq::<CrateVersion>::empty());
        assert(rest@ =~= orig.subrange(0, n as int));
    }
    while k < n
        invariant
            0 <= k <= n == orig.len(),
            rest@ == orig.subrange(k as int, n as int),
            out@ == spec_kept_versions(orig.subrange(0, k as int)),
        decreases n - k,
    {
        let v = rest.remove(0);
        proof {
            assert(v == orig[k as int]);
            assert(orig.subrange(k as int, n as int).remove(0) =~= orig.subrange(
                k + 1,
                n as int,
            ));
            assert(orig.subrange(0, k + 1).drop_last() =~= orig.subrange(0, k as int));
            assert(orig.subrange(0, k + 1).last() == orig[k as int]);
        }
        if !v.yanked {
            out.push(v);
        }
        proof {
            reveal_with_fuel(Seq::<_>::filter, 2);
            let s = orig.subrange(0, k + 1);
            assert(s.drop_last() =~= orig.subrange(0, k as int));
            assert(s.drop_last() == orig.subrange(0, k as int));
            assert(s.last() == orig[k as int]);
            assert(spec_kept_versions(s) == (if !orig[k as int].yanked {
                spec_kept_versions(orig.subrange(0, k as int)).push(orig[k as int])
            } else {
                spec_kept_versions(orig.subrange(0, k as int))
            }));
        }
        k = k + 1;
    }
    proof {
        assert(orig.subrange(0, n as int) =~= orig);
    }
    out
}

/// Select what the registry stage mirrors: for every package with at least
/// two listed versions, its non-yanked versions, flattened in index order.
pub fn select_crate_versions(entries: Vec<CrateEntry>) -> (r: Vec<CrateVersion>)
    ensures
        r@ == spec_selected_versions(entries@),
{
    let ghost orig = entries@;
    let mut rest = entries;
    let mut out: Vec<CrateVersion> = Vec::new();
    let n = rest.len();
    let mut k: usize = 0;
    proof {
        assert(rest@ =~= orig.subrange(0, n as int));
    }
    while k < n
        invariant
            0 <= k <= n == orig.len(),
            rest@ == orig.subrange(k as int, n as int),
            out@ + spec_selected_versions(orig.subrange(k as int, n as int))
                =~= spec_selected_versions(orig),
        decreases n - k,
    {
        let ghost suf = orig.subrange(k as int, n as int);
        proof {
            assert(suf[0] == orig[k as int]);
            assert(suf.drop_first() =~= orig.subrange(k + 1, n as int));
        }
        let e = rest.remove(0);
        proof {
            assert(e == orig[k as int]);
            assert(orig.subrange(k as int, n as int).remove(0) =~= orig.subrange(
                k + 1,
                n as int,
            ));
        }
        if e.versions.len() >= 2 {
            let mut kept = kept_versions(e.versions);
            out.append(&mut kept);
        }
        k = k + 1;
    }
    proof {
        assert(orig.subrange(n as int, n as int) =~= Seq::<CrateEntry>::empty());
        assert(out@ =~= spec_selected_versions(orig));
    }
    out
}

/// The registry archive path of one crate version.
pub open spec fn spec_crate_archive_path(name: Seq<u8>, version: Seq<u8>) -> Seq<u8> {
    spec_crates_dir() + name + spec_slash() + name + spec_dash() + version + spec_crate_suffix()
}

/// The registry archive path of one crate version.
pub fn crate_archive_path(name: &[u8], version: &[u8]) -> (r: Vec<u8>)
    ensures
        r@ == spec_crate_archive_path(name@, version@),
{
    let mut p = crates_dir();
    let sl = slash();
    let da = dash();
    let cs = crate_suffix();
    p.extend_from_slice(name);
    p.extend_from_slice(sl.as_slice());
    p.extend_from_slice(name);
    p.extend_from_slice(da.as_slice());
    p.extend_from_slice(version);
    p.extend_from_slice(cs.as_slice());
    proof {
        assert(p@ =~= spec_crate_archive_path(name@, version@));
    }
    p
}

/// Whether one planned fetch mirrors one selected crate version: the
/// archive path is the version's, and the policy is checksum-verified
/// against the index's digest when validation is requested, missing-only
/// otherwise.
pub open spec fn spec_planned_for(pf: PlannedFetch, v: CrateVersion, validate: bool) -> bool {
    &&& pf.path@ == spec_crate_archive_path(v.name@, v.version@)
    &&& (validate ==> (pf.policy matches OverwritePolicy::FetchIfChecksumMismatch(d) && d@
        == v.checksum@))
    &&& (!validate ==> pf.policy is FetchIfMissing)
}

/// The registry stage's plan: one archive per selected version, fetched
/// when missing, or checksum-verified against the index's digest when
/// validation is requested.
pub fn crates_plan(selected: Vec<CrateVersion>, validate_checksums: bool) -> (r: Vec<PlannedFetch>)
    ensures
        r@.len() == selected@.len(),
        forall|i: int|
            0 <= i < selected@.len() ==> spec_planned_for(
                #[trigger] r@[i],
                selected@[i],
                validate_checksums,
            ),
{
    let ghost orig = selected@;
    let mut rest = selected;
    let mut out: Vec<PlannedFetch> = Vec::new();
    let n = rest.len();
    let mut k: usize = 0;
    proof {
        assert(rest@ =~= orig.subrange(0, n as int));
    }
    while k < n
        invariant
            0 <= k <= n == orig.len(),
            rest@ == orig.subrange(k as int, n as int),
            out@.len() == k,
            forall|i: int|
                0 <= i < k ==> spec_planned_for(#[trigger] out@[i], orig[i], validate_checksums),
        decreases n - k,
    {
        let v = rest.remove(0);
        proof {
            assert(v == orig[k as int]);
            assert(orig.subrange(k as int, n as int).remove(0) =~= orig.subrange(
                k + 1,
                n as int,
            ));
        }
        let path = crate_archive_path(v.name.as_slice(), v.version.as_slice());
        let policy = if validate_checksums {
            OverwritePolicy::FetchIfChecksumMismatch(v.checksum)
        } else {
            OverwritePolicy::FetchIfMissing
        };
        out.push(PlannedFetch { path, policy });
        proof {
            assert(spec_planned_for(out@[k as int], orig[k as int], validate_checksums));
        }
        k = k + 1;
    }
    out
}

/// Whether the pattern is a valid regular expression (valid UTF-8
/// included).
pub uninterp spec fn spec_regex_compiles(pattern: Seq<u8>) -> bool;

/// Whether the compiled pattern matches somewhere in the text: the text is
/// valid UTF-8 and the regex engine finds a match in it.
pub uninterp spec fn spec_regex_matches(pattern: Seq<u8>, text: Seq<u8>) -> bool;

/// Relies on `regex::Regex::new` and `regex::Regex::is_match`: whether a
/// pattern compiles, and whether it matches a text, are functions of the
/// two strings alone.
#[verifier::external_body]
fn regex_is_match(pattern: &[u8], text: &[u8]) -> (r: Option<bool>)
    ensures
        (r is Some) == spec_regex_compiles(pattern@),
        r matches Some(b) ==> b == spec_regex_matches(pattern@, text@),
{
    let p = match core::str::from_utf8(pattern) {
        Ok(p) => p,
        Err(_) => return None,
    };
    let re = match regex::Regex::new(p) {
        Ok(re) => re,
        Err(_) => return None,
    };
    match core::str::from_utf8(text) {
        Ok(t) => Some(re.is_match(t)),
        Err(_) => Some(false),
    }
}

/// The architectures the filter pattern keeps, in order.
pub open spec fn spec_filtered_archs(archs: Seq<Seq<u8>>, pattern: Seq<u8>) -> Seq<Seq<u8>> {
    archs.filter(|a: Seq<u8>| spec_regex_matches(pattern, a))
}

/// Keep the architectures the filter pattern matches, in order; `None`
/// exactly when the pattern is not a valid regular expression.
pub fn filter_architectures(archs: Vec<Vec<u8>>, pattern: &[u8]) -> (r: Option<Vec<Vec<u8>>>)
    ensures
        (r is Some) == spec_regex_compiles(pattern@),
        r matches Some(kept) ==> kept.deep_view() == spec_filtered_archs(
            archs.deep_view(),
            pattern@,
        ),
{
    let probe: Vec<u8> = Vec::new();
    match regex_is_match(pattern, probe.as_slice()) {
        Some(_) => {},
        None => {
            return None;
        },
    }
    let ghost orig = archs.deep_view();
    let ghost origv = archs@;
    let mut rest = archs;
    let mut out: Vec<Vec<u8>> = Vec::new();
    let n = rest.len();
    let mut k: usize = 0;
    proof {
        reveal_with_fuel(Seq::<_>::filter, 2);
        assert(orig.subrange(0, 0) =~= Seq::<Seq<u8>>::empty());
        assert(Seq::<Seq<u8>>::empty().filter(|a: Seq<u8>| spec_regex_matches(pattern@, a))
            =~= Seq::<Seq<u8>>::empty());
        assert(out.deep_view() =~= Seq::<Seq<u8>>::empty());
        assert(rest@ =~= origv.subrange(0, n as int));
    }
    while k < n
        invariant
            0 <= k <= n == origv.len() == orig.len(),
            spec_regex_compiles(pattern@),
            rest@ == origv.subrange(k as int, n as int),
            forall|i: int| 0 <= i < n ==> #[trigger] orig[i] == origv[i]@,
            out.deep_view() == spec_filtered_archs(orig.subrange(0, k as int), pattern@),
        decreases n - k,
    {
        let a = rest.remove(0);
        proof {
            assert(a == origv.subrange(k as int, n as int)[0]);
            assert(a@ == orig[k as int]);
            assert(origv.subrange(k as int, n as int).remove(0) =~= origv.subrange(
                k + 1,
                n as int,
            ));
        }
        let matched = match regex_is_match(pattern, a.as_slice()) {
            Some(b) => b,
            None => {
                proof {
                    assert(false);
                }
                false
            },
        };
        if matched {
            let ghost old_out = out.deep_view();
            out.push(a);
            proof {
                assert(out.deep_view() =~~= old_out.push(orig[k as int]));
            }
        }
        proof {
            reveal_with_fuel(Seq::<_>::filter, 2);
            let s = orig.subrange(0, k + 1);
            assert(s.drop_last() =~= orig.subrange(0, k as int));
            assert(s.drop_last() == orig.subrange(0, k as int));
            assert(s.last() == orig[k as int]);
            assert(spec_filtered_archs(s, pattern@) == (if spec_regex_matches(
                pattern@,
                orig[k as int],
            ) {
                spec_filtered_archs(orig.subrange(0, k as int), pattern@).push(orig[k as int])
            } else {
                spec_filtered_archs(orig.subrange(0, k as int), pattern@)
            }));
        }
        k = k + 1;
    }
    proof {
        assert(orig.subrange(0, n as int) =~= orig);
    }
    Some(out)
}

} // verus!
