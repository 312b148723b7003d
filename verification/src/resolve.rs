//! Recovery of the locally saved file for a photo attachment.
//!
//! The export stores only a remote URL; the local file name is a
//! decoded and sometimes re-mangled version of the URL's last path
//! segment.  Encoding is inconsistent: the segment may be
//! percent-encoded once or twice, `+` may stand for a space, `?` may
//! have been rewritten to `_`, and the saved file may lack the
//! extension.  The resolver tries candidate names in a fixed order
//! against the names present in the search directory, handed in as a
//! plain list.

use vstd::prelude::*;
use vstd::string::StringSliceAdditionalSpecFns;
use vstd::utf8::{encode_utf8, valid_utf8};
use crate::urldecode::percent_decode;
use crate::urldecode::percent_decode_bytes;

verus! {

/// The suffix of `t` after its last slash; `t` itself when it has
/// none.
pub open spec fn after_last_slash(t: Seq<u8>) -> Seq<u8>
    decreases t.len(),
{
    if t.len() == 0 {
        t
    } else if t.last() == 0x2f {
        Seq::empty()
    } else {
        after_last_slash(t.drop_last()).push(t.last())
    }
}

/// The URL's last path segment: one trailing slash is ignored, as a
/// path-splitting iterator ignores a trailing empty piece.
pub open spec fn last_segment(u: Seq<u8>) -> Seq<u8> {
    if u.len() > 0 && u.last() == 0x2f {
        after_last_slash(u.drop_last())
    } else {
        after_last_slash(u)
    }
}

proof fn lemma_after_last_slash(t: Seq<u8>, k: int)
    requires
        0 <= k <= t.len(),
        forall|j: int| k <= j < t.len() ==> #[trigger] t[j] != 0x2f,
        k > 0 ==> t[k - 1] == 0x2f,
    ensures
        after_last_slash(t) == t.skip(k),
    decreases t.len(),
{
    if t.len() == 0 {
        assert(t.skip(0) =~= t);
    } else if t.last() == 0x2f {
        assert(t.skip(k) =~= Seq::<u8>::empty());
    } else {
        lemma_after_last_slash(t.drop_last(), k);
        assert(t.skip(k) =~= t.drop_last().skip(k).push(t.last()));
    }
}

/// The byte views of the directory's file names.
pub open spec fn dirv(dir: Seq<String>) -> Seq<Seq<u8>> {
    dir.map_values(|e: String| encode_utf8(e@))
}

/// Whether a file of this exact name is present.
pub open spec fn in_dir(dir: Seq<Seq<u8>>, n: Seq<u8>) -> bool {
    exists|i: int| 0 <= i < dir.len() && dir[i] == n
}

/// Whether the name already carries an extension: a dot at any
/// position after the first byte.
pub open spec fn has_ext(n: Seq<u8>) -> bool {
    exists|i: int| 1 <= i < n.len() && n[i] == 0x2e
}

/// The default image extension appended to extensionless candidates.
pub open spec fn jpg_ext() -> Seq<u8> {
    seq![0x2e, 0x6a, 0x70, 0x67]
}

pub open spec fn with_jpg(n: Seq<u8>) -> Seq<u8> {
    n + jpg_ext()
}

/// One candidate either is present itself, or lacks an extension and
/// is present with the default one appended.
pub open spec fn direct_hit(dir: Seq<Seq<u8>>, n: Seq<u8>) -> bool {
    in_dir(dir, n) || (!has_ext(n) && in_dir(dir, with_jpg(n)))
}

/// The name under which a direct hit was found.
pub open spec fn hit_name(dir: Seq<Seq<u8>>, n: Seq<u8>) -> Seq<u8> {
    if in_dir(dir, n) {
        n
    } else {
        with_jpg(n)
    }
}

/// The first phase: try the candidate, then unwrap one layer of
/// percent-encoding at a time, stopping at a fixed point, a
/// malformed encoding, or bytes that are not well-formed text.
pub open spec fn search_decoding(dir: Seq<Seq<u8>>, n: Seq<u8>) -> Option<Seq<u8>>
    decreases n.len(),
    via search_decoding_dec
{
    if direct_hit(dir, n) {
        Some(hit_name(dir, n))
    } else {
        match percent_decode(n) {
            Some(d) => if valid_utf8(d) && d != n {
                search_decoding(dir, d)
            } else {
                None
            },
            None => None,
        }
    }
}

#[via_fn]
proof fn search_decoding_dec(dir: Seq<Seq<u8>>, n: Seq<u8>) {
    crate::urldecode::lemma_decode_shrinks(n);
}

/// Every `+` becomes a space and every `?` an underscore, as the
/// exporter sometimes rewrites names.
pub open spec fn replace_pq(n: Seq<u8>) -> Seq<u8> {
    n.map_values(
        |b: u8|
            if b == 0x2b {
                0x20u8
            } else if b == 0x3f {
                0x5fu8
            } else {
                b
            },
    )
}

/// The second phase: like the first, but substituting `+` and `?`
/// in every candidate before trying it.
pub open spec fn search_substituted(dir: Seq<Seq<u8>>, n: Seq<u8>) -> Option<Seq<u8>>
    decreases n.len(),
    via search_substituted_dec
{
    let m = replace_pq(n);
    if direct_hit(dir, m) {
        Some(hit_name(dir, m))
    } else {
        match percent_decode(m) {
            Some(d) => if valid_utf8(d) && d != m {
                search_substituted(dir, d)
            } else {
                None
            },
            None => None,
        }
    }
}

#[via_fn]
proof fn search_substituted_dec(dir: Seq<Seq<u8>>, n: Seq<u8>) {
    crate::urldecode::lemma_decode_shrinks(replace_pq(n));
}

/// What the resolver returns: the URL's last segment is decoded
/// once; the decoding phase runs on it, and if that fails, the
/// substitution phase restarts from the same once-decoded name.
/// `None` when no candidate names an existing file.
pub open spec fn resolve_spec(url: Seq<u8>, dir: Seq<Seq<u8>>) -> Option<Seq<u8>> {
    match percent_decode(last_segment(url)) {
        Some(d0) => if valid_utf8(d0) {
            match search_decoding(dir, d0) {
                Some(h) => Some(h),
                None => search_substituted(dir, d0),
            }
        } else {
            None
        },
        None => None,
    }
}

/// Byte-for-byte equality of two byte slices.
fn bytes_eq(a: &[u8], b: &[u8]) -> (r: bool)
    ensures
        r == (a@ == b@),
{
    if a.len() != b.len() {
        proof {
            if a@ == b@ {
                assert(a@.len() == b@.len());
            }
        }
        return false;
    }
    let n = a.len();
    let mut i: usize = 0;
    while i < n
        invariant
            n == a@.len() == b@.len(),
            i <= n,
            forall|j: int| 0 <= j < i ==> a@[j] == b@[j],
        decreases n - i,
    {
        if a[i] != b[i] {
            return false;
        }
        i += 1;
    }
    proof {
        assert(a@ =~= b@);
    }
    true
}

/// Finds a directory entry whose bytes equal the candidate name.
fn dir_lookup<'a>(dir: &'a Vec<String>, name: &Vec<u8>) -> (r: Option<&'a String>)
    ensures
        match r {
            Some(e) => in_dir(dirv(dir@), name@) && encode_utf8(e@) == name@,
            None => !in_dir(dirv(dir@), name@),
        },
{
    let n = dir.len();
    let mut i: usize = 0;
    while i < n
        invariant
            n == dir@.len(),
            i <= n,
            forall|j: int| 0 <= j < i ==> #[trigger] dirv(dir@)[j] != name@,
        decreases n - i,
    {
        let e = &dir[i];
        if bytes_eq(e.as_str().as_bytes(), name.as_slice()) {
            proof {
                assert(dirv(dir@)[i as int] == encode_utf8(dir@[i as int]@));
            }
            return Some(e);
        }
        proof {
            assert(dirv(dir@)[i as int] == encode_utf8(dir@[i as int]@));
        }
        i += 1;
    }
    None
}

/// Whether the candidate carries an extension.
fn ext_check(name: &Vec<u8>) -> (r: bool)
    ensures
        r == has_ext(name@),
{
    let n = name.len();
    let mut i: usize = 1;
    while i < n
        invariant
            n == name@.len(),
            1 <= i || n == 0,
            i >= 1,
            forall|j: int| 1 <= j < i ==> #[trigger] name@[j] != 0x2e,
        decreases n - i,
    {
        if name[i] == 0x2e {
            return true;
        }
        i += 1;
    }
    false
}

/// The candidate with the default image extension appended.
fn append_jpg(name: &Vec<u8>) -> (r: Vec<u8>)
    ensures
        r@ == with_jpg(name@),
{
    let mut out: Vec<u8> = Vec::new();
    let n = name.len();
    let mut i: usize = 0;
    while i < n
        invariant
            n == name@.len(),
            i <= n,
            out@ =~= name@.subrange(0, i as int),
        decreases n - i,
    {
        out.push(name[i]);
        i += 1;
    }
    out.push(0x2e);
    out.push(0x6a);
    out.push(0x70);
    out.push(0x67);
    proof {
        assert(out@ =~= name@ + jpg_ext());
    }
    out
}

/// The candidate with `+` and `?` substituted.
fn apply_replace(name: &Vec<u8>) -> (r: Vec<u8>)
    ensures
        r@ == replace_pq(name@),
{
    let mut out: Vec<u8> = Vec::new();
    let n = name.len();
    let mut i: usize = 0;
    while i < n
        invariant
            n == name@.len(),
            i <= n,
            out@.len() == i,
            forall|j: int| 0 <= j < i ==> out@[j] == replace_pq(name@)[j],
        decreases n - i,
    {
        let b = name[i];
        if b == 0x2b {
            out.push(0x20);
        } else if b == 0x3f {
            out.push(0x5f);
        } else {
            out.push(b);
        }
        i += 1;
    }
    proof {
        assert(out@ =~= replace_pq(name@));
    }
    out
}

/// Relies on `str::from_utf8`: it returns `Ok` exactly when the
/// bytes are a well-formed UTF-8 encoding.
#[verifier::external_body]
fn utf8_ok(v: &[u8]) -> (r: bool)
    ensures
        r == valid_utf8(v@),
{
    core::str::from_utf8(v).is_ok()
}

/// Tries one candidate directly and with the default extension.
fn try_candidate<'a>(dir: &'a Vec<String>, name: &Vec<u8>) -> (r: Option<&'a String>)
    ensures
        match r {
            Some(e) => direct_hit(dirv(dir@), name@) && encode_utf8(e@) == hit_name(
                dirv(dir@),
                name@,
            ),
            None => !direct_hit(dirv(dir@), name@),
        },
{
    if let Some(e) = dir_lookup(dir, name) {
        return Some(e);
    }
    if !ext_check(name) {
        let jpg = append_jpg(name);
        if let Some(e) = dir_lookup(dir, &jpg) {
            return Some(e);
        }
    }
    None
}

/// Recovers the locally saved file for a remote URL by trying, in
/// order: the once-decoded last URL segment; iterated further
/// decoding to a fixed point; and the same ladder with `+` replaced
/// by a space and `?` by an underscore.  Every candidate is also
/// tried with the default image extension when it has none.  The
/// result is the name of the matching directory entry, or nothing
/// when no candidate names one; a malformed encoding merely stops
/// that ladder.
#[verifier::loop_isolation(false)]
pub fn find_local_file(url: &str, dir: &Vec<String>) -> (r: Option<String>)
    ensures
        match r {
            Some(name) => resolve_spec(url.spec_bytes(), dirv(dir@)) == Some(encode_utf8(name@))
                && in_dir(dirv(dir@), encode_utf8(name@)),
            None => resolve_spec(url.spec_bytes(), dirv(dir@)) is None,
        },
{
    let ub = url.as_bytes();
    let n = ub.len();
    let end: usize = if n > 0 && ub[n - 1] == 0x2f {
        n - 1
    } else {
        n
    };
    let mut k: usize = end;
    while k > 0 && ub[k - 1] != 0x2f
        invariant
            k <= end,
            end <= n == ub@.len(),
            forall|j: int| k <= j < end ==> #[trigger] ub@[j] != 0x2f,
        decreases k,
    {
        k -= 1;
    }
    let seg = &ub[k..end];
    proof {
        let t = if n > 0 && ub@.last() == 0x2f {
            ub@.drop_last()
        } else {
            ub@
        };
        assert(t =~= ub@.subrange(0, end as int));
        lemma_after_last_slash(t, k as int);
        assert(seg@ =~= t.skip(k as int));
        assert(last_segment(ub@) == seg@);
    }
    let d0 = match percent_decode_bytes(seg) {
        Ok(v) => v,
        Err(_) => {
            return None;
        },
    };
    if !utf8_ok(d0.as_slice()) {
        return None;
    }
    let ghost gdir = dirv(dir@);
    let ghost gd0 = d0@;

    // First phase: iterated decoding.
    let mut name = copy_bytes(&d0);
    let mut more = true;
    while more
        invariant
            search_decoding(gdir, name@) == search_decoding(gdir, gd0),
            !more ==> search_decoding(gdir, name@) is None,
        decreases name@.len(), (if more { 1int } else { 0int }),
    {
        if let Some(e) = try_candidate(dir, &name) {
            proof {
                lemma_hit_in_dir(gdir, name@);
            }
            return Some(e.clone());
        }
        let next = match percent_decode_bytes(name.as_slice()) {
            Ok(v) => v,
            Err(_) => {
                more = false;
                continue ;
            },
        };
        if !utf8_ok(next.as_slice()) {
            more = false;
            continue ;
        }
        if bytes_eq(next.as_slice(), name.as_slice()) {
            more = false;
            continue ;
        }
        proof {
            crate::urldecode::lemma_decode_shrinks(name@);
        }
        name = next;
    }

    // Second phase: restart from the once-decoded segment, now with
    // substitutions applied to every candidate.
    let mut from = d0;
    let mut more2 = true;
    while more2
        invariant
            search_substituted(gdir, from@) == search_substituted(gdir, gd0),
            !more2 ==> search_substituted(gdir, from@) is None,
            search_decoding(gdir, gd0) is None,
        decreases from@.len(), (if more2 { 1int } else { 0int }),
    {
        let m = apply_replace(&from);
        if let Some(e) = try_candidate(dir, &m) {
            proof {
                lemma_hit_in_dir(gdir, m@);
            }
            return Some(e.clone());
        }
        let next = match percent_decode_bytes(m.as_slice()) {
            Ok(v) => v,
            Err(_) => {
                more2 = false;
                continue ;
            },
        };
        if !utf8_ok(next.as_slice()) {
            more2 = false;
            continue ;
        }
        if bytes_eq(next.as_slice(), m.as_slice()) {
            more2 = false;
            continue ;
        }
        proof {
            crate::urldecode::lemma_decode_shrinks(replace_pq(from@));
        }
        from = next;
    }
    None
}

/// A direct hit names a file that is present.
proof fn lemma_hit_in_dir(dir: Seq<Seq<u8>>, n: Seq<u8>)
    requires
        direct_hit(dir, n),
    ensures
        in_dir(dir, hit_name(dir, n)),
{
}

/// A copy of a byte vector.
fn copy_bytes(v: &Vec<u8>) -> (r: Vec<u8>)
    ensures
        r@ == v@,
{
    let mut out: Vec<u8> = Vec::new();
    let n = v.len();
    let mut i: usize = 0;
    while i < n
        invariant
            n == v@.len(),
            i <= n,
            out@ =~= v@.subrange(0, i as int),
        decreases n - i,
    {
        out.push(v[i]);
        i += 1;
    }
    proof {
        assert(out@ =~= v@);
    }
    out
}

} // verus!
