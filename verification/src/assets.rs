//! Serving embedded static assets: the entity tag of an asset and when a
//! request can be answered with "not modified".

use vstd::prelude::*;
use vstd::string::*;
use vstd::utf8::*;

verus! {

/// The lowercase hex digit of `d < 16`.
pub open spec fn hex_digit(d: int) -> char {
    if d < 10 {
        (d + 48) as char
    } else {
        (d + 87) as char
    }
}

/// The lowercase hex encoding of `bytes`: two digits per byte, high nibble
/// first.
pub open spec fn hex_text(bytes: Seq<u8>) -> Seq<char>
    decreases bytes.len(),
{
    if bytes.len() == 0 {
        Seq::empty()
    } else {
        hex_text(bytes.drop_last()) + seq![
            hex_digit(bytes.last() as int / 16),
            hex_digit(bytes.last() as int % 16),
        ]
    }
}

/// Calls hex's `encode`. Claimed, as the crate documents it: each byte
/// becomes two lowercase hex digits, in order.
#[verifier::external_body]
fn hex_encode(bytes: &[u8]) -> (r: String)
    ensures
        r@ == hex_text(bytes@),
{
    hex::encode(bytes)
}

/// Whether two byte strings are equal.
pub fn bytes_eq(a: &[u8], b: &[u8]) -> (r: bool)
    ensures
        r == (a@ == b@),
{
    if a.len() != b.len() {
        return false;
    }
    let mut i: usize = 0;
    while i < a.len()
        invariant
            a@.len() == b@.len(),
            i <= a@.len(),
            forall|k: int| 0 <= k < i ==> a@[k] == b@[k],
        decreases a.len() - i,
    {
        if a[i] != b[i] {
            return false;
        }
        i = i + 1;
    }
    assert(a@ =~= b@);
    true
}

/// The media type that mime_guess guesses first for `path` (by its
/// extension), `None` when it knows none.
pub uninterp spec fn first_mime(path: Seq<char>) -> Option<Seq<char>>;

/// Calls mime_guess's `from_path(path).first()` and writes the media type
/// out. Claimed: the guess depends on the path alone (a static table of
/// extensions, no disk access); what it is, is only named.
#[verifier::external_body]
fn guess_first_mime(path: &str) -> (r: Option<String>)
    ensures
        match r {
            Some(m) => first_mime(path@) == Some(m@),
            None => first_mime(path@) is None,
        },
{
    match mime_guess::from_path(path).first() {
        Some(m) => Some(m.as_ref().to_string()),
        None => None,
    }
}

/// The number of `/` at the start of `path`.
pub open spec fn leading_slashes(path: Seq<char>) -> nat
    decreases path.len(),
{
    if path.len() > 0 && path[0] == '/' {
        1 + leading_slashes(path.drop_first())
    } else {
        0
    }
}

/// The asset a request path names: the path without its leading slashes.
pub open spec fn asset_path_of(path: Seq<char>) -> Seq<char> {
    path.skip(leading_slashes(path) as int)
}

proof fn lemma_leading_slashes(path: Seq<char>, i: int)
    requires
        0 <= i <= path.len(),
        forall|k: int| 0 <= k < i ==> path[k] == '/',
    ensures
        leading_slashes(path) == i + leading_slashes(path.skip(i)),
    decreases i,
{
    if i > 0 {
        assert(path[0] == '/');
        assert forall|k: int| 0 <= k < i - 1 implies path.drop_first()[k] == '/' by {
            assert(path.drop_first()[k] == path[k + 1]);
        }
        lemma_leading_slashes(path.drop_first(), i - 1);
        assert(path.drop_first().skip(i - 1) =~= path.skip(i));
    } else {
        assert(path.skip(0) =~= path);
    }
}

/// The name under which an asset is looked up: the request path without its
/// leading slashes.
pub fn asset_path(path: &str) -> (r: String)
    ensures
        r@ == asset_path_of(path@),
{
    let n = path.unicode_len();
    let mut i: usize = 0;
    while i < n && path.get_char(i) == '/'
        invariant
            n == path@.len(),
            i <= n,
            forall|k: int| 0 <= k < i ==> path@[k] == '/',
        decreases n - i,
    {
        i = i + 1;
    }
    proof {
        lemma_leading_slashes(path@, i as int);
        if i < n {
            assert(path@.skip(i as int)[0] == path@[i as int]);
        }
        assert(leading_slashes(path@.skip(i as int)) == 0);
        assert(path@.subrange(i as int, n as int) =~= path@.skip(i as int));
    }
    String::from_str(path.substring_char(i, n))
}

/// How to answer a request for a static asset.
#[derive(Clone, Debug)]
pub enum AssetResponse {
    /// No such asset.
    NotFound,
    /// The client's copy is current: answer 304 with an empty body.
    NotModified,
    /// Send the asset with this entity tag, and this content type when one
    /// is known.
    Found { etag: String, content_type: Option<String> },
}

/// Answers a request for the asset at `path` whose content hash is `hash`
/// (none when the asset does not exist), given the request's
/// `If-None-Match` header: the entity tag is the hex encoding of the hash, a
/// request that already holds it gets "not modified", and the content type
/// is the media type guessed from the asset's name.
pub fn asset_response(path: &str, hash: Option<&[u8]>, if_none_match: Option<&[u8]>) -> (r:
    AssetResponse)
    ensures
        match hash {
            None => r is NotFound,
            Some(h) => if if_none_match matches Some(tag) && tag@ == encode_utf8(hex_text(h@)) {
                r is NotModified
            } else {
                r matches AssetResponse::Found { etag, content_type } && etag@ == hex_text(h@)
                    && match content_type {
                    Some(c) => first_mime(asset_path_of(path@)) == Some(c@),
                    None => first_mime(asset_path_of(path@)) is None,
                }
            },
        },
{
    let h = match hash {
        Some(h) => h,
        None => {
            return AssetResponse::NotFound;
        },
    };
    let etag = hex_encode(h);
    if let Some(tag) = if_none_match {
        let etag_bytes = etag.as_str().as_bytes();
        if bytes_eq(tag, etag_bytes) {
            return AssetResponse::NotModified;
        }
    }
    let name = asset_path(path);
    let content_type = guess_first_mime(name.as_str());
    AssetResponse::Found { etag, content_type }
}

} // verus!
