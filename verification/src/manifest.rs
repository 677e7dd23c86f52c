//! Manifest extraction: line-oriented scanning of a downloaded channel
//! manifest. Architectures come from lines whose trimmed form begins with
//! `target = `; package URLs come from lines whose trimmed form begins with
//! `url` or `xz_url`, are kept when they mention an allowed architecture and
//! their URL origin is exactly the toolchain origin, and are reduced to
//! their path component. This is deliberately not a structured-format
//! parser: the contract is prefix match plus quoted-value extraction,
//! nothing more.
use vstd::prelude::*;
use vstd::slice::{slice_subrange, slice_to_vec};
use crate::bytes::{
    bytes_equal, contains_sub, has_prefix, after_first, strip_trailing, trim_ascii,
    spec_after_first, spec_contains_sub, spec_drop_trailing, spec_has_prefix, spec_trim,
};
use crate::urls::spec_toolchain_origin;
use crate::urls::toolchain_origin;

verus! {

/// The byte string `"target = "`.
pub open spec fn spec_target_prefix() -> Seq<u8> {
    seq![116u8, 97u8, 114u8, 103u8, 101u8, 116u8, 32u8, 61u8, 32u8]
}

/// The byte string `"target = "`.
pub fn target_prefix() -> (r: Vec<u8>)
    ensures
        r@ =~= spec_target_prefix(),
{
    vec![116u8, 97u8, 114u8, 103u8, 101u8, 116u8, 32u8, 61u8, 32u8]
}

/// The byte string `"url"`.
pub open spec fn spec_url_key() -> Seq<u8> {
    seq![117u8, 114u8, 108u8]
}

/// The byte string `"url"`.
pub fn url_key() -> (r: Vec<u8>)
    ensures
        r@ =~= spec_url_key(),
{
    vec![117u8, 114u8, 108u8]
}

/// The byte string `"xz_url"`.
pub open spec fn spec_xz_url_key() -> Seq<u8> {
    seq![120u8, 122u8, 95u8, 117u8, 114u8, 108u8]
}

/// The byte string `"xz_url"`.
pub fn xz_url_key() -> (r: Vec<u8>)
    ensures
        r@ =~= spec_xz_url_key(),
{
    vec![120u8, 122u8, 95u8, 117u8, 114u8, 108u8]
}

/// The manifest text split at every line feed; always at least one
/// (possibly empty) line.
pub open spec fn spec_split_lines(t: Seq<u8>) -> Seq<Seq<u8>>
    decreases t.len(),
{
    if t.len() == 0 {
        seq![t]
    } else if t[0] == 10u8 {
        seq![Seq::<u8>::empty()] + spec_split_lines(t.drop_first())
    } else {
        let rest = spec_split_lines(t.drop_first());
        seq![seq![t[0]] + rest[0]] + rest.drop_first()
    }
}

pub proof fn lemma_split_lines_nonempty(t: Seq<u8>)
    ensures
        spec_split_lines(t).len() >= 1,
    decreases t.len(),
{
    if t.len() == 0 {
    } else {
        lemma_split_lines_nonempty(t.drop_first());
    }
}

/// Splitting distributes over the first line feed.
pub proof fn lemma_split_lines_at(t: Seq<u8>, i: int)
    requires
        0 <= i < t.len(),
        t[i] == 10u8,
        forall|j: int| 0 <= j < i ==> t[j] != 10u8,
    ensures
        spec_split_lines(t) == seq![t.subrange(0, i)] + spec_split_lines(
            t.subrange(i + 1, t.len() as int),
        ),
    decreases i,
{
    if i == 0 {
        assert(t.subrange(0, 0) =~= Seq::<u8>::empty());
        assert(t.drop_first() =~= t.subrange(1, t.len() as int));
        assert(spec_split_lines(t) =~= seq![t.subrange(0, 0)] + spec_split_lines(
            t.subrange(1, t.len() as int),
        ));
    } else {
        let d = t.drop_first();
        lemma_split_lines_at(d, i - 1);
        lemma_split_lines_nonempty(d.subrange(i, d.len() as int));
        let x = d.subrange(0, i - 1);
        let y = spec_split_lines(d.subrange(i, d.len() as int));
        assert(spec_split_lines(d) == seq![x] + y);
        assert((seq![x] + y)[0] == x);
        assert((seq![x] + y).drop_first() =~= y);
        assert(d.subrange(i, d.len() as int) =~= t.subrange(i + 1, t.len() as int));
        assert(seq![t[0]] + x =~= t.subrange(0, i));
        assert(spec_split_lines(t) =~= seq![t.subrange(0, i)] + spec_split_lines(
            t.subrange(i + 1, t.len() as int),
        ));
    }
}

/// A text without a line feed is one single line.
pub proof fn lemma_split_lines_whole(t: Seq<u8>)
    requires
        forall|j: int| 0 <= j < t.len() ==> t[j] != 10u8,
    ensures
        spec_split_lines(t) == seq![t],
    decreases t.len(),
{
    if t.len() == 0 {
    } else {
        lemma_split_lines_whole(t.drop_first());
        assert(seq![t[0]] + t.drop_first() =~= t);
        assert(spec_split_lines(t) =~= seq![t]);
    }
}

/// The manifest text split at every line feed.
pub fn split_lines(text: &[u8]) -> (r: Vec<Vec<u8>>)
    ensures
        r.deep_view() == spec_split_lines(text@),
{
    let n: usize = text.len();
    let mut out: Vec<Vec<u8>> = Vec::new();
    let mut start: usize = 0;
    let mut i: usize = 0;
    proof {
        assert(out.deep_view() =~= Seq::<Seq<u8>>::empty());
        assert(text@.subrange(0, n as int) =~= text@);
    }
    while i < n
        invariant
            0 <= start <= i <= n == text@.len(),
            forall|j: int| start <= j < i ==> text@[j] != 10u8,
            spec_split_lines(text@) =~= out.deep_view() + spec_split_lines(
                text@.subrange(start as int, n as int),
            ),
        decreases n - i,
    {
        if text[i] == 10u8 {
            proof {
                let suf = text@.subrange(start as int, n as int);
                lemma_split_lines_at(suf, i - start);
                assert(suf.subrange(0, i - start) =~= text@.subrange(start as int, i as int));
                assert(suf.subrange(i - start + 1, suf.len() as int) =~= text@.subrange(
                    i + 1,
                    n as int,
                ));
            }
            let ghost old_out = out.deep_view();
            let line = slice_to_vec(slice_subrange(text, start, i));
            out.push(line);
            proof {
                assert(out.deep_view() =~~= old_out.push(text@.subrange(start as int, i as int)));
                assert(spec_split_lines(text@) =~= out.deep_view() + spec_split_lines(
                    text@.subrange(i + 1, n as int),
                ));
            }
            start = i + 1;
        }
        i = i + 1;
    }
    proof {
        lemma_split_lines_whole(text@.subrange(start as int, n as int));
    }
    let ghost old_out = out.deep_view();
    let last = slice_to_vec(slice_subrange(text, start, n));
    out.push(last);
    proof {
        assert(out.deep_view() =~~= old_out.push(text@.subrange(start as int, n as int)));
        assert(out.deep_view() =~= spec_split_lines(text@));
    }
    out
}

/// The value between the first double quote and the trailing double quotes
/// of a (trimmed) manifest line: everything after the first `"`, with every
/// trailing `"` removed.
pub open spec fn spec_quoted_value(t: Seq<u8>) -> Seq<u8> {
    spec_drop_trailing(spec_after_first(t, 34u8), |b: u8| b == 34u8)
}

/// The quoted value of a line, as `spec_quoted_value` states it.
pub fn quoted_value(t: &[u8]) -> (r: Vec<u8>)
    ensures
        r@ == spec_quoted_value(t@),
{
    let q = after_first(t, 34u8);
    strip_trailing(q.as_slice(), 34u8)
}

/// The architecture a manifest line contributes: the quoted value of a
/// trimmed line beginning with `target = `, if any.
pub open spec fn spec_arch_of_line(line: Seq<u8>) -> Option<Seq<u8>> {
    let t = spec_trim(line);
    if spec_has_prefix(t, spec_target_prefix()) {
        Some(spec_quoted_value(t))
    } else {
        None
    }
}

/// The architectures the lines contribute, first occurrence first,
/// duplicates collapsed, continuing from those already in `acc`.
pub open spec fn spec_architectures_from(lines: Seq<Seq<u8>>, acc: Seq<Seq<u8>>) -> Seq<Seq<u8>>
    decreases lines.len(),
{
    if lines.len() == 0 {
        acc
    } else {
        let acc2 = match spec_arch_of_line(lines[0]) {
            Some(a) => if acc.contains(a) {
                acc
            } else {
                acc.push(a)
            },
            None => acc,
        };
        spec_architectures_from(lines.drop_first(), acc2)
    }
}

/// Every architecture the manifest text names, first occurrence first,
/// duplicates collapsed.
pub open spec fn spec_architectures(text: Seq<u8>) -> Seq<Seq<u8>> {
    spec_architectures_from(spec_split_lines(text), Seq::empty())
}

/// Whether `x` already occurs in `list`.
fn contains_bytes(list: &Vec<Vec<u8>>, x: &Vec<u8>) -> (r: bool)
    ensures
        r == list.deep_view().contains(x@),
{
    let mut i: usize = 0;
    while i < list.len()
        invariant
            0 <= i <= list@.len(),
            forall|j: int| 0 <= j < i ==> list.deep_view()[j] != x@,
        decreases list@.len() - i,
    {
        if bytes_equal(list[i].as_slice(), x.as_slice()) {
            proof {
                assert(list.deep_view()[i as int] =~= list@[i as int]@);
                assert(list.deep_view()[i as int] == x@);
            }
            return true;
        }
        proof {
            assert(list.deep_view()[i as int] =~= list@[i as int]@);
        }
        i = i + 1;
    }
    proof {
        assert(!list.deep_view().contains(x@));
    }
    false
}

/// Extract every architecture identifier the manifest names: one per line
/// whose trimmed form begins with `target = `, in first-occurrence order,
/// duplicates collapsed.
pub fn extract_architectures(text: &[u8]) -> (r: Vec<Vec<u8>>)
    ensures
        r.deep_view() == spec_architectures(text@),
{
    let lines = split_lines(text);
    let mut out: Vec<Vec<u8>> = Vec::new();
    let tp = target_prefix();
    let n = lines.len();
    let mut li: usize = 0;
    proof {
        assert(out.deep_view() =~= Seq::<Seq<u8>>::empty());
        assert(lines.deep_view().subrange(0, n as int) =~= lines.deep_view());
    }
    while li < n
        invariant
            0 <= li <= n == lines@.len(),
            tp@ == spec_target_prefix(),
            lines.deep_view() == spec_split_lines(text@),
            spec_architectures(text@) == spec_architectures_from(
                lines.deep_view().subrange(li as int, n as int),
                out.deep_view(),
            ),
        decreases n - li,
    {
        let ghost ld = lines.deep_view();
        let ghost suf = ld.subrange(li as int, n as int);
        proof {
            assert(suf[0] == ld[li as int]);
            assert(suf.drop_first() =~= ld.subrange(li + 1, n as int));
        }
        let line = &lines[li];
        proof {
            assert(ld[li as int] =~= line@);
        }
        let t = trim_ascii(line.as_slice());
        if has_prefix(t.as_slice(), tp.as_slice()) {
            let v = quoted_value(t.as_slice());
            proof {
                assert(spec_arch_of_line(ld[li as int]) == Some(v@));
            }
            if !contains_bytes(&out, &v) {
                let ghost old_out = out.deep_view();
                out.push(v);
                proof {
                    assert(out.deep_view() =~~= old_out.push(spec_quoted_value(spec_trim(
                        ld[li as int],
                    ))));
                }
            }
        } else {
            proof {
                assert(spec_arch_of_line(ld[li as int]) is None);
            }
        }
        li = li + 1;
    }
    proof {
        assert(lines.deep_view().subrange(n as int, n as int) =~= Seq::<Seq<u8>>::empty());
    }
    out
}

/// Whether the url crate parses this byte string (taken as UTF-8) as an
/// absolute URL.
pub uninterp spec fn spec_url_parses(s: Seq<u8>) -> bool;

/// The ASCII serialization of the parsed URL's origin, as UTF-8 bytes.
pub uninterp spec fn spec_url_origin(s: Seq<u8>) -> Seq<u8>;

/// The path component of the parsed URL, as UTF-8 bytes.
pub uninterp spec fn spec_url_path(s: Seq<u8>) -> Seq<u8>;

/// Relies on `url::Url::parse`, `url::Url::origin`,
/// `url::Origin::ascii_serialization` and `url::Url::path`: parsing either
/// fails or yields the URL's origin serialization and path component, and
/// every one of these is a function of the input string alone (an opaque
/// origin always serializes to "null").
#[verifier::external_body]
fn split_url(s: &[u8]) -> (r: Option<(Vec<u8>, Vec<u8>)>)
    ensures
        (r is Some) == spec_url_parses(s@),
        r matches Some(p) ==> p.0@ == spec_url_origin(s@) && p.1@ == spec_url_path(s@),
{
    let text = match core::str::from_utf8(s) {
        Ok(t) => t,
        Err(_) => return None,
    };
    match url::Url::parse(text) {
        Ok(u) => {
            let origin = u.origin().ascii_serialization().into_bytes();
            let path = u.path().as_bytes().to_vec();
            Some((origin, path))
        },
        Err(_) => None,
    }
}

/// The package URL a manifest line offers: the quoted value of a trimmed
/// line beginning with `url` or `xz_url`, if any.
pub open spec fn spec_pkg_value_of_line(line: Seq<u8>) -> Option<Seq<u8>> {
    let t = spec_trim(line);
    if spec_has_prefix(t, spec_url_key()) || spec_has_prefix(t, spec_xz_url_key()) {
        Some(spec_quoted_value(t))
    } else {
        None
    }
}

/// Whether `v` mentions one of the allowed architectures as a substring.
pub open spec fn spec_matches_any_arch(v: Seq<u8>, archs: Seq<Seq<u8>>) -> bool {
    exists|i: int| 0 <= i < archs.len() && spec_contains_sub(v, #[trigger] archs[i])
}

/// Whether an offered URL is kept: it mentions an allowed architecture,
/// parses, and its origin is exactly the toolchain origin. A value whose
/// origin differs is dropped, not an error.
pub open spec fn spec_keeps_value(v: Seq<u8>, archs: Seq<Seq<u8>>) -> bool {
    &&& spec_matches_any_arch(v, archs)
    &&& spec_url_parses(v)
    &&& spec_url_origin(v) == spec_toolchain_origin()
}

/// The kept package URLs of the lines, reduced to their path components,
/// in encountered order.
pub open spec fn spec_package_paths_from(lines: Seq<Seq<u8>>, archs: Seq<Seq<u8>>) -> Seq<Seq<u8>>
    decreases lines.len(),
{
    if lines.len() == 0 {
        Seq::empty()
    } else {
        let rest = spec_package_paths_from(lines.drop_first(), archs);
        match spec_pkg_value_of_line(lines[0]) {
            Some(v) => if spec_keeps_value(v, archs) {
                seq![spec_url_path(v)] + rest
            } else {
                rest
            },
            None => rest,
        }
    }
}

/// The package paths the manifest text offers for the allowed
/// architectures, in encountered order.
pub open spec fn spec_package_paths(text: Seq<u8>, archs: Seq<Seq<u8>>) -> Seq<Seq<u8>> {
    spec_package_paths_from(spec_split_lines(text), archs)
}

/// Whether `v` mentions one of `archs` as a substring.
fn matches_any_arch(v: &[u8], archs: &Vec<Vec<u8>>) -> (r: bool)
    ensures
        r == spec_matches_any_arch(v@, archs.deep_view()),
{
    let mut i: usize = 0;
    while i < archs.len()
        invariant
            0 <= i <= archs@.len(),
            forall|j: int| 0 <= j < i ==> !spec_contains_sub(v@, #[trigger] archs.deep_view()[j]),
        decreases archs@.len() - i,
    {
        proof {
            assert(archs.deep_view()[i as int] =~= archs@[i as int]@);
        }
        if contains_sub(v, archs[i].as_slice()) {
            return true;
        }
        i = i + 1;
    }
    false
}

/// Extract the package paths the manifest offers: one per line whose
/// trimmed form begins with `url` or `xz_url`, kept when the quoted URL
/// mentions an allowed architecture and has exactly the toolchain origin,
/// reduced to its path component, in encountered order.
pub fn extract_package_paths(text: &[u8], archs: &Vec<Vec<u8>>) -> (r: Vec<Vec<u8>>)
    ensures
        r.deep_view() == spec_package_paths(text@, archs.deep_view()),
{
    let lines = split_lines(text);
    let mut out: Vec<Vec<u8>> = Vec::new();
    let uk = url_key();
    let xk = xz_url_key();
    let origin = toolchain_origin();
    let n = lines.len();
    let mut li: usize = 0;
    proof {
        assert(out.deep_view() =~= Seq::<Seq<u8>>::empty());
        assert(lines.deep_view().subrange(0, n as int) =~= lines.deep_view());
    }
    while li < n
        invariant
            0 <= li <= n == lines@.len(),
            uk@ == spec_url_key(),
            xk@ == spec_xz_url_key(),
            origin@ == spec_toolchain_origin(),
            lines.deep_view() == spec_split_lines(text@),
            spec_package_paths(text@, archs.deep_view()) =~= out.deep_view()
                + spec_package_paths_from(
                lines.deep_view().subrange(li as int, n as int),
                archs.deep_view(),
            ),
        decreases n - li,
    {
        let ghost ld = lines.deep_view();
        let ghost suf = ld.subrange(li as int, n as int);
        proof {
            assert(suf[0] == ld[li as int]);
            assert(suf.drop_first() =~= ld.subrange(li + 1, n as int));
        }
        let line = &lines[li];
        proof {
            assert(ld[li as int] =~= line@);
        }
        let t = trim_ascii(line.as_slice());
        if has_prefix(t.as_slice(), uk.as_slice()) || has_prefix(t.as_slice(), xk.as_slice()) {
            let v = quoted_value(t.as_slice());
            proof {
                assert(spec_pkg_value_of_line(ld[li as int]) == Some(v@));
            }
            if matches_any_arch(v.as_slice(), archs) {
                match split_url(v.as_slice()) {
                    Some(p) => {
                        if bytes_equal(p.0.as_slice(), origin.as_slice()) {
                            let ghost old_out = out.deep_view();
                            out.push(p.1);
                            proof {
                                assert(spec_keeps_value(v@, archs.deep_view()));
                                assert(out.deep_view() =~~= old_out.push(spec_url_path(v@)));
                            }
                        } else {
                            proof {
                                assert(!spec_keeps_value(v@, archs.deep_view()));
                            }
                        }
                    },
                    None => {
                        proof {
                            assert(!spec_keeps_value(v@, archs.deep_view()));
                        }
                    },
                }
            } else {
                proof {
                    assert(!spec_keeps_value(v@, archs.deep_view()));
                }
            }
        } else {
            proof {
                assert(spec_pkg_value_of_line(ld[li as int]) is None);
            }
        }
        li = li + 1;
    }
    proof {
        assert(lines.deep_view().subrange(n as int, n as int) =~= Seq::<Seq<u8>>::empty());
    }
    out
}

} // verus!
