//! Content-addressed names of the web assets and the version of the
//! service worker's precache list.

use vstd::prelude::*;
use vstd::string::{StrSliceExecFns, StringExecFns, StringSliceAdditionalSpecFns};

use crate::digest::{hex_encode, hex_lower, lemma_hex_lower_len, sha256, sha256_digest};
use crate::text::push_char;

verus! {

/// The tag of a content: the first 16 hexadecimal digits of its SHA-256.
pub open spec fn content_tag(data: Seq<u8>) -> Seq<char> {
    hex_lower(sha256_digest(data)).take(16)
}

pub fn content_hash16(data: &[u8]) -> (r: String)
    ensures
        r@ == content_tag(data@),
        r@.len() == 16,
{
    let digest = sha256(data);
    proof { lemma_hex_lower_len(digest@); }
    let hex = hex_encode(digest.as_slice());
    let mut out = String::new();
    let mut i: usize = 0;
    while i < 16
        invariant
            hex@.len() == 64,
            i <= 16,
            out@ == hex@.take(i as int),
        decreases 16 - i,
    {
        push_char(&mut out, hex.as_str().get_char(i));
        assert(hex@.take(i + 1) =~= hex@.take(i as int).push(hex@[i as int]));
        i = i + 1;
    }
    out
}

/// The published name of an asset: its stem, `-`, the tag of its content,
/// and its extension when it has one.
pub open spec fn hashed_name_of(stem: Seq<char>, ext: Seq<char>, data: Seq<u8>) -> Seq<char> {
    if ext.len() == 0 {
        stem + "-"@ + content_tag(data)
    } else {
        stem + "-"@ + content_tag(data) + "."@ + ext
    }
}

pub fn hashed_asset_name(stem: &str, ext: &str, data: &[u8]) -> (r: String)
    ensures
        r@ == hashed_name_of(stem@, ext@, data@),
{
    let tag = content_hash16(data);
    let name = String::from_str(stem).concat("-").concat(tag.as_str());
    if ext.is_empty() {
        name
    } else {
        name.concat(".").concat(ext)
    }
}

/// The version of the precache list: the tag of its JSON text.
pub fn precache_version(precache_json: &str) -> (r: String)
    ensures
        r@ == content_tag(precache_json.spec_bytes()),
{
    content_hash16(precache_json.as_bytes())
}

} // verus!
