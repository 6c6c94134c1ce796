//! The path mapper: relativizing object keys against a source prefix and
//! recognizing directory markers.
//!
//! Keys and paths are byte strings with `/` as the separator. A key whose
//! last byte is the separator is a directory marker: a zero-length object
//! standing for an otherwise invisible empty directory.

use vstd::prelude::*;

use crate::errors::Error;

verus! {

/// The path separator, `/`.
pub const SEP: u8 = 47;

/// A key names a directory marker iff it ends in the separator.
pub open spec fn is_dir_marker_spec(name: Seq<u8>) -> bool {
    name.len() > 0 && name.last() == SEP
}

/// Recognizes directory-marker keys.
pub fn is_dir_marker(name: &Vec<u8>) -> (r: bool)
    ensures
        r == is_dir_marker_spec(name@),
{
    name.len() > 0 && name[name.len() - 1] == SEP
}

/// A prefix normalized to end in exactly one separator: `p` and `p/` scope
/// the same listing, so both are brought to the same form before stripping.
pub open spec fn normalize_prefix_spec(prefix: Seq<u8>) -> Seq<u8> {
    if is_dir_marker_spec(prefix) {
        prefix
    } else {
        prefix.push(SEP)
    }
}

/// Appends a separator to the prefix unless it already ends in one.
pub fn normalize_prefix(prefix: &Vec<u8>) -> (r: Vec<u8>)
    ensures
        r@ == normalize_prefix_spec(prefix@),
{
    let mut out = prefix.clone();
    if !is_dir_marker(&out) {
        out.push(SEP);
    }
    out
}

/// The destination-relative form of `name` under `prefix`: the remainder of
/// `name` after the normalized prefix, or nothing when `name` does not start
/// with it.
pub open spec fn relativize_spec(name: Seq<u8>, prefix: Seq<u8>) -> Option<Seq<u8>> {
    let np = normalize_prefix_spec(prefix);
    if np.len() <= name.len() && name.subrange(0, np.len() as int) == np {
        Some(name.subrange(np.len() as int, name.len() as int))
    } else {
        None
    }
}

/// Strips the normalized prefix from a listed key.
///
/// A key that does not begin with the prefix must never come out of a
/// correct listing, so that case is reported as an internal-invariant
/// violation rather than handled.
pub fn relativize(name: &Vec<u8>, prefix: &Vec<u8>) -> (r: Result<Vec<u8>, Error>)
    ensures
        match r {
            Ok(rel) => relativize_spec(name@, prefix@) == Some(rel@),
            Err(e) => relativize_spec(name@, prefix@) is None && (e matches Error::WrongPath {
                path,
            } && path@ == name@),
        },
{
    let np = normalize_prefix(prefix);
    if np.len() > name.len() {
        return Err(Error::WrongPath { path: name.clone() });
    }
    let mut i: usize = 0;
    while i < np.len()
        invariant
            i <= np.len(),
            np.len() <= name.len(),
            np@ == normalize_prefix_spec(prefix@),
            forall|j: int| 0 <= j < i ==> name@[j] == np@[j],
        decreases np.len() - i,
    {
        if name[i] != np[i] {
            proof {
                assert(name@.subrange(0, np@.len() as int)[i as int] != np@[i as int]);
            }
            return Err(Error::WrongPath { path: name.clone() });
        }
        i += 1;
    }
    let mut rel: Vec<u8> = Vec::new();
    let mut j: usize = np.len();
    while j < name.len()
        invariant
            np.len() <= j <= name.len(),
            rel@ == name@.subrange(np.len() as int, j as int),
        decreases name.len() - j,
    {
        rel.push(name[j]);
        j += 1;
    }
    proof {
        assert(name@.subrange(0, np@.len() as int) =~= np@);
        assert(rel@ =~= name@.subrange(np@.len() as int, name@.len() as int));
    }
    Ok(rel)
}

/// Joins a directory path and an entry name with one separator, the shape
/// destination keys are built in.
pub fn join_path(dir: &Vec<u8>, name: &Vec<u8>) -> (r: Vec<u8>)
    ensures
        r@ == dir@ + seq![SEP] + name@,
{
    let mut out = dir.clone();
    out.push(SEP);
    let mut i: usize = 0;
    while i < name.len()
        invariant
            i <= name.len(),
            out@ == dir@ + seq![SEP] + name@.subrange(0, i as int),
        decreases name.len() - i,
    {
        out.push(name[i]);
        i += 1;
    }
    proof {
        assert(out@ =~= dir@ + seq![SEP] + name@);
    }
    out
}

/// The key of the directory marker standing for `dir`: the path with a
/// trailing separator.
pub fn marker_key(dir: &Vec<u8>) -> (r: Vec<u8>)
    ensures
        r@ == dir@.push(SEP),
{
    let mut out = dir.clone();
    out.push(SEP);
    out
}

/// Relativization is a left inverse of prefix concatenation: stripping the
/// normalized prefix from the key it was prepended to yields the suffix
/// back, for every prefix and suffix.
pub proof fn lemma_relativize_round_trip(prefix: Seq<u8>, suffix: Seq<u8>)
    ensures
        relativize_spec(normalize_prefix_spec(prefix) + suffix, prefix) == Some(suffix),
{
    let np = normalize_prefix_spec(prefix);
    let name = np + suffix;
    assert(name.subrange(0, np.len() as int) =~= np);
    assert(name.subrange(np.len() as int, name.len() as int) =~= suffix);
}

/// A prefix with and without a trailing separator relativizes every key
/// identically.
pub proof fn lemma_relativize_trailing_sep(name: Seq<u8>, prefix: Seq<u8>)
    requires
        !is_dir_marker_spec(prefix),
    ensures
        relativize_spec(name, prefix) == relativize_spec(name, prefix.push(SEP)),
{
    assert(normalize_prefix_spec(prefix.push(SEP)) =~= normalize_prefix_spec(prefix));
}

} // verus!
