//! Remote-origin selection and path building. Two origins exist: the
//! toolchain distribution and the package registry; a root-relative path is
//! resolved against the registry exactly when it carries the package-archive
//! suffix, and against the toolchain origin otherwise. The local destination
//! mirrors the remote path under the output root.
use vstd::prelude::*;
use crate::bytes::{concat_bytes, has_suffix, spec_has_suffix};

verus! {

/// The byte string `"https://static.rust-lang.org"`.
pub open spec fn spec_toolchain_origin() -> Seq<u8> {
    seq![104u8, 116u8, 116u8, 112u8, 115u8, 58u8, 47u8, 47u8, 115u8, 116u8, 97u8, 116u8, 105u8, 99u8, 46u8, 114u8, 117u8, 115u8, 116u8, 45u8, 108u8, 97u8, 110u8, 103u8, 46u8, 111u8, 114u8, 103u8]
}

/// The byte string `"https://static.rust-lang.org"`.
pub fn toolchain_origin() -> (r: Vec<u8>)
    ensures
        r@ =~= spec_toolchain_origin(),
{
    vec![104u8, 116u8, 116u8, 112u8, 115u8, 58u8, 47u8, 47u8, 115u8, 116u8, 97u8, 116u8, 105u8, 99u8, 46u8, 114u8, 117u8, 115u8, 116u8, 45u8, 108u8, 97u8, 110u8, 103u8, 46u8, 111u8, 114u8, 103u8]
}

/// The byte string `"https://static.crates.io"`.
pub open spec fn spec_registry_origin() -> Seq<u8> {
    seq![104u8, 116u8, 116u8, 112u8, 115u8, 58u8, 47u8, 47u8, 115u8, 116u8, 97u8, 116u8, 105u8, 99u8, 46u8, 99u8, 114u8, 97u8, 116u8, 101u8, 115u8, 46u8, 105u8, 111u8]
}

/// The byte string `"https://static.crates.io"`.
pub fn registry_origin() -> (r: Vec<u8>)
    ensures
        r@ =~= spec_registry_origin(),
{
    vec![104u8, 116u8, 116u8, 112u8, 115u8, 58u8, 47u8, 47u8, 115u8, 116u8, 97u8, 116u8, 105u8, 99u8, 46u8, 99u8, 114u8, 97u8, 116u8, 101u8, 115u8, 46u8, 105u8, 111u8]
}

/// The byte string `".crate"`.
pub open spec fn spec_crate_suffix() -> Seq<u8> {
    seq![46u8, 99u8, 114u8, 97u8, 116u8, 101u8]
}

/// The byte string `".crate"`.
pub fn crate_suffix() -> (r: Vec<u8>)
    ensures
        r@ =~= spec_crate_suffix(),
{
    vec![46u8, 99u8, 114u8, 97u8, 116u8, 101u8]
}

/// A path that resolves against the package registry: one ending in the
/// package-archive suffix.
pub open spec fn spec_is_registry_path(path: Seq<u8>) -> bool {
    spec_has_suffix(path, spec_crate_suffix())
}

/// The origin a root-relative path resolves against.
pub open spec fn spec_origin_for(path: Seq<u8>) -> Seq<u8> {
    if spec_is_registry_path(path) {
        spec_registry_origin()
    } else {
        spec_toolchain_origin()
    }
}

/// The full remote URL of a root-relative path: its origin, then the path.
pub open spec fn spec_remote_url(path: Seq<u8>) -> Seq<u8> {
    spec_origin_for(path) + path
}

/// The full remote URL for `path`, per the suffix rule.
pub fn remote_url_for(path: &[u8]) -> (r: Vec<u8>)
    ensures
        r@ == spec_remote_url(path@),
{
    let cs = crate_suffix();
    let origin = if has_suffix(path, cs.as_slice()) {
        registry_origin()
    } else {
        toolchain_origin()
    };
    concat_bytes(origin.as_slice(), path)
}

/// Where `path` is materialized on disk: the output root, then the path,
/// mirroring the remote directory structure.
pub open spec fn spec_local_destination(root: Seq<u8>, path: Seq<u8>) -> Seq<u8> {
    root + path
}

/// The local destination of `path` under `root`.
pub fn local_destination(root: &[u8], path: &[u8]) -> (r: Vec<u8>)
    ensures
        r@ == spec_local_destination(root@, path@),
{
    concat_bytes(root, path)
}

} // verus!
