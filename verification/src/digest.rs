//! SHA-256 content digests, written `sha256:<64 lowercase hex>`.
use vstd::prelude::*;

use crate::text::{has_prefix, hex_of, is_lower_hex_char, join2, lemma_hex_of_shape, text_starts_with, to_hex};

verus! {

/// The SHA-256 digest of `data`, as `sha2::Sha256` computes it.
pub uninterp spec fn sha256_of(data: Seq<u8>) -> Seq<u8>;

/// Wraps `<sha2::Sha256 as sha2::Digest>::digest`: the result is the digest
/// of `data`, a function of `data` alone, and is 32 bytes long (the
/// `OutputSize` of `Sha256` is `U32`).
#[verifier::external_body]
fn sha256_digest(data: &[u8]) -> (d: Vec<u8>)
    ensures
        d@ == sha256_of(data@),
        d@.len() == 32,
{
    <sha2::Sha256 as sha2::Digest>::digest(data).to_vec()
}

/// The text of a content digest: `sha256:` and the lowercase hex of the
/// digest bytes.
pub open spec fn sha256_uri_of(data: Seq<u8>) -> Seq<char> {
    "sha256:"@ + hex_of(sha256_of(data))
}

/// `v` reads `sha256:` followed by exactly 64 lowercase hex digits.
pub open spec fn is_sha256_uri_text(v: Seq<char>) -> bool {
    &&& has_prefix(v, "sha256:"@)
    &&& v.len() == 71
    &&& forall|i: int| 7 <= i < 71 ==> is_lower_hex_char(#[trigger] v[i])
}

/// The content digest of `data`.
pub fn sha256_uri(data: &[u8]) -> (r: String)
    ensures
        r@ == sha256_uri_of(data@),
        is_sha256_uri_text(r@),
{
    let d = sha256_digest(data);
    let hex = to_hex(d.as_slice());
    let r = join2("sha256:", hex.as_str());
    proof {
        lemma_sha256_uri_shape(data@);
    }
    r
}

/// Every content digest this library writes has the `sha256:<64 lowercase
/// hex>` shape that manifests are checked against.
pub proof fn lemma_sha256_uri_shape(data: Seq<u8>)
    requires
        sha256_of(data).len() == 32,
    ensures
        is_sha256_uri_text(sha256_uri_of(data)),
{
    reveal_strlit("sha256:");
    let v = sha256_uri_of(data);
    lemma_hex_of_shape(sha256_of(data));
    assert(v.subrange(0, 7) =~= "sha256:"@);
    assert forall|i: int| 7 <= i < 71 implies is_lower_hex_char(#[trigger] v[i]) by {
        assert(v[i] == hex_of(sha256_of(data))[i - 7]);
    }
}

/// Whether `value` reads `sha256:` followed by 64 lowercase hex digits.
pub fn is_sha256_uri(value: &str) -> (r: bool)
    ensures
        r == is_sha256_uri_text(value@),
{
    proof {
        reveal_strlit("sha256:");
    }
    if !text_starts_with(value, "sha256:") {
        return false;
    }
    let cs = crate::text::chars_of(value);
    if cs.len() != 71 {
        return false;
    }
    let mut i: usize = 7;
    while i < 71
        invariant
            7 <= i <= 71,
            cs@ == value@,
            cs@.len() == 71,
            forall|j: int| 7 <= j < i ==> is_lower_hex_char(#[trigger] cs@[j]),
        decreases 71 - i,
    {
        let c = cs[i];
        if !(('0' <= c && c <= '9') || ('a' <= c && c <= 'f')) {
            return false;
        }
        i += 1;
    }
    true
}

// ---------------------------------------------------------------------------
// Root fingerprints
// ---------------------------------------------------------------------------

/// The files of a genome as (path, contents) views.
pub open spec fn file_views(files: Seq<(String, Vec<u8>)>) -> Seq<(Seq<char>, Seq<u8>)> {
    files.map_values(|f: (String, Vec<u8>)| (f.0@, f.1@))
}

/// The bytes a root fingerprint digests: for each file in turn, its path
/// (UTF-8), a zero byte, the text of its content digest and a newline.
pub open spec fn fingerprint_bytes(files: Seq<(Seq<char>, Seq<u8>)>) -> Seq<u8>
    decreases files.len(),
{
    if files.len() == 0 {
        Seq::empty()
    } else {
        fingerprint_bytes(files.drop_last()) + vstd::utf8::encode_utf8(files.last().0) + seq![0u8]
            + vstd::utf8::encode_utf8(sha256_uri_of(files.last().1)) + seq![10u8]
    }
}

/// The fingerprint of a genome whose files (those a worktree copy keeps,
/// without the proposal's own files) are `files`, in path order: the
/// content digest of their fingerprint bytes.
pub fn root_fingerprint_of(files: &Vec<(String, Vec<u8>)>) -> (r: String)
    ensures
        r@ == sha256_uri_of(fingerprint_bytes(file_views(files@))),
        is_sha256_uri_text(r@),
{
    let ghost fv = file_views(files@);
    let mut bytes: Vec<u8> = Vec::new();
    let mut i: usize = 0;
    assert(fv.take(0) =~= Seq::<(Seq<char>, Seq<u8>)>::empty());
    while i < files.len()
        invariant
            i <= files@.len(),
            fv == file_views(files@),
            bytes@ == fingerprint_bytes(fv.take(i as int)),
        decreases files@.len() - i,
    {
        assert(fv.take(i + 1).drop_last() =~= fv.take(i as int));
        assert(fv.take(i + 1).last() == (files@[i as int].0@, files@[i as int].1@));
        let path = files[i].0.as_str().as_bytes();
        append_bytes(&mut bytes, path);
        bytes.push(0u8);
        let digest = sha256_uri(files[i].1.as_slice());
        append_bytes(&mut bytes, digest.as_str().as_bytes());
        bytes.push(10u8);
        assert(bytes@ =~= fingerprint_bytes(fv.take(i as int)) + vstd::utf8::encode_utf8(files@[i as int].0@)
            + seq![0u8] + vstd::utf8::encode_utf8(sha256_uri_of(files@[i as int].1@)) + seq![10u8]);
        i += 1;
    }
    assert(fv.take(i as int) =~= fv);
    sha256_uri(bytes.as_slice())
}

/// Appends the bytes of `more` to `bytes`.
fn append_bytes(bytes: &mut Vec<u8>, more: &[u8])
    ensures
        final(bytes)@ == old(bytes)@ + more@,
{
    let mut k: usize = 0;
    let ghost start = bytes@;
    while k < more.len()
        invariant
            k <= more@.len(),
            bytes@ == start + more@.take(k as int),
        decreases more@.len() - k,
    {
        bytes.push(more[k]);
        assert(more@.take(k + 1) =~= more@.take(k as int).push(more@[k as int]));
        k += 1;
    }
    assert(more@.take(k as int) =~= more@);
}

} // verus!
