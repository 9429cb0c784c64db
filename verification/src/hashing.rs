//! Content hashes: the URL-safe text under which a file's bytes are served,
//! so that a change of the bytes changes the address.

use vstd::prelude::*;

use crate::util::{uri_idempotent, uri_unreserved};

verus! {

/// The SHA-256 digest of `data`.
pub uninterp spec fn sha256(data: Seq<u8>) -> Seq<u8>;

/// The base64 text of `bytes` in the URL-safe alphabet, without padding.
pub uninterp spec fn base64_url(bytes: Seq<u8>) -> Seq<char>;

/// The content hash of `data`: the URL-safe base64 text of its SHA-256
/// digest.
pub open spec fn content_hash(data: Seq<u8>) -> Seq<char> {
    base64_url(sha256(data))
}

/// sha2's `Sha256` through `Digest::new`, `update` and `finalize`: the digest
/// of the data, which has 32 bytes. Its value is taken on trust as `sha256`.
#[verifier::external_body]
fn sha256_digest(data: &[u8]) -> (digest: Vec<u8>)
    ensures
        digest@ == sha256(data@),
        digest@.len() == 32,
{
    let mut hasher: sha2::Sha256 = sha2::Digest::new();
    sha2::Digest::update(&mut hasher, data);
    sha2::Digest::finalize(hasher).to_vec()
}

/// The number of characters of the content hash of any data.
pub const HASH_LEN: usize = 43;

/// Whether `c` is of the URL-safe alphabet of base64: an ASCII letter, an
/// ASCII digit, `-` or `_`.
pub open spec fn hash_char(c: char) -> bool {
    ||| 'A' <= c <= 'Z'
    ||| 'a' <= c <= 'z'
    ||| '0' <= c <= '9'
    ||| c == '-'
    ||| c == '_'
}

/// Whether a text has the shape of a content hash: 43 characters of the
/// URL-safe alphabet.
pub open spec fn hash_text(s: Seq<char>) -> bool {
    s.len() == HASH_LEN && forall|i: int| 0 <= i < s.len() ==> hash_char(#[trigger] s[i])
}

/// A text of the shape of a content hash is URI encoded to itself and is not
/// empty.
pub proof fn lemma_hash_text(s: Seq<char>)
    requires
        hash_text(s),
    ensures
        uri_idempotent(s),
        s.len() > 0,
{
    assert forall|i: int| 0 <= i < s.len() implies uri_unreserved(#[trigger] s[i]) by {
        assert(hash_char(s[i]));
    }
}

/// base64's `encode_config` with `URL_SAFE_NO_PAD`, on a digest of 32 bytes:
/// 43 characters of the URL-safe alphabet, which is letters, digits, `-` and
/// `_`. Which characters they are is taken on trust as `base64_url`.
#[verifier::external_body]
fn base64_url_no_pad(bytes: &[u8]) -> (text: String)
    requires
        bytes@.len() == 32,
    ensures
        text@ == base64_url(bytes@),
        hash_text(text@),
{
    base64::encode_config(bytes, base64::URL_SAFE_NO_PAD)
}

/// Returns the content hash of the data: its SHA-256 digest in URL-safe
/// base64.
pub fn hash(data: &[u8]) -> (h: String)
    ensures
        h@ == content_hash(data@),
        hash_text(h@),
        h@.len() == HASH_LEN,
        uri_idempotent(h@),
{
    let digest = sha256_digest(data);
    let h = base64_url_no_pad(digest.as_slice());
    proof {
        lemma_hash_text(h@);
    }
    h
}

/// The content hash of some data. It has 43 characters, each a letter, a
/// digit, `-` or `_`, so that it is never empty and can stand in an address
/// as it is.
#[derive(Debug)]
pub struct ContentHash {
    text: String,
}

impl View for ContentHash {
    type V = Seq<char>;

    closed spec fn view(&self) -> Seq<char> {
        self.text@
    }
}

impl ContentHash {
    /// Every content hash has the length and the alphabet of one.
    #[verifier::type_invariant]
    pub open spec fn well_formed(self) -> bool {
        hash_text(self@)
    }

    /// The content hash of the data.
    pub fn of(data: &[u8]) -> (h: ContentHash)
        ensures
            h@ == content_hash(data@),
            hash_text(h@),
            h@.len() == HASH_LEN,
            uri_idempotent(h@),
    {
        ContentHash { text: hash(data) }
    }

    /// The text of the hash.
    pub fn as_str(&self) -> (s: &str)
        ensures
            s@ == self@,
            hash_text(s@),
            s@.len() == HASH_LEN,
            uri_idempotent(s@),
    {
        proof {
            use_type_invariant(self);
            lemma_hash_text(self@);
        }
        self.text.as_str()
    }
}

/// Equal bytes have equal content hashes, whenever and wherever they are
/// hashed.
pub proof fn lemma_hash_deterministic(a: Seq<u8>, b: Seq<u8>)
    requires
        a == b,
    ensures
        content_hash(a) == content_hash(b),
{
}

} // verus!
