//! The custom URI scheme protocol that serves the application's assets: which asset a
//! request names, and the answer.
use vstd::prelude::*;
use vstd::string::*;
use vstd::utf8::*;
use crate::error::ManagerError;
use crate::text::{before_query, is_query_delimiter, lemma_query_index, query_index, char_len, path_part, remove_all, removed, without_trailing_slash};

verus! {

/// The origin under which the application's own pages are served.
pub open spec fn local_origin() -> Seq<char> {
    "tauri://localhost"@
}

/// The page served for a request of the bare origin.
pub open spec fn index_page() -> Seq<char> {
    "index.html"@
}

/// The value of an ASCII hexadecimal digit, either case.
pub open spec fn hex_value(b: u8) -> Option<u8> {
    if 48 <= b <= 57 {
        Some((b - 48) as u8)
    } else if 97 <= b <= 102 {
        Some((b - 87) as u8)
    } else if 65 <= b <= 70 {
        Some((b - 55) as u8)
    } else {
        None
    }
}

/// Percent-decoding of bytes: each `%` followed by two hexadecimal digits becomes the byte
/// they spell; every other byte, a `%` without two digits after it too, stays as it is.
pub open spec fn percent_decoded(s: Seq<u8>) -> Seq<u8>
    decreases s.len(),
{
    if s.len() == 0 {
        s
    } else if s[0] == 37 && s.len() >= 3 && hex_value(s[1]) is Some && hex_value(s[2]) is Some {
        seq![(hex_value(s[1])->0 * 16 + hex_value(s[2])->0) as u8] + percent_decoded(s.skip(3))
    } else {
        seq![s[0]] + percent_decoded(s.skip(1))
    }
}

/// What `String::from_utf8_lossy` makes of bytes (invalid sequences become U+FFFD).
pub uninterp spec fn utf8_lossy(bytes: Seq<u8>) -> Seq<char>;

/// Calls `percent_encoding::percent_decode` on the UTF-8 bytes of `text` and then
/// `decode_utf8_lossy` on the decoded bytes, which hands them to `String::from_utf8_lossy`.
/// The decoding is stated in full; the lossy text is named, and equals the plain decoding
/// where the bytes are valid UTF-8.
#[verifier::external_body]
fn percent_decode_lossy(text: &str) -> (r: String)
    ensures
        r@ == utf8_lossy(percent_decoded(text.spec_bytes())),
        valid_utf8(percent_decoded(text.spec_bytes())) ==> r@ == decode_utf8(
            percent_decoded(text.spec_bytes()),
        ),
{
    percent_encoding::percent_decode(text.as_bytes()).decode_utf8_lossy().to_string()
}

/// The path that a request names before decoding: the text before any query or fragment,
/// with the local origin taken out, without a trailing `/`.
pub open spec fn asset_path(request: Seq<char>) -> Seq<char> {
    without_trailing_slash(removed(path_part(request), local_origin()))
}

/// The key for a decoded path: the index page where it is empty, and otherwise all but its
/// first char (the leading `/`).
pub open spec fn key_of_decoded(decoded: Seq<char>) -> Seq<char> {
    if decoded.len() == 0 {
        index_page()
    } else {
        decoded.drop_first()
    }
}

/// The bytes of the path that a request names, percent-decoded.
pub open spec fn decoded_path_bytes(request: Seq<char>) -> Seq<u8> {
    percent_decoded(encode_utf8(asset_path(request)))
}

/// The path of the asset that a request to the custom protocol names: its path, percent-decoded
/// (invalid UTF-8 replaced), as `key_of_decoded` says.
pub open spec fn asset_key_of(request: Seq<char>) -> Seq<char> {
    key_of_decoded(utf8_lossy(decoded_path_bytes(request)))
}

/// `s` without one trailing `/`.
pub fn trim_trailing_slash(s: &str) -> (r: String)
    ensures
        r@ == without_trailing_slash(s@),
{
    let n = s.unicode_len();
    if n > 0 && s.get_char(n - 1) == '/' {
        let part = s.substring_char(0, n - 1);
        proof {
            assert(part@ =~= s@.drop_last());
        }
        String::from_str(part)
    } else {
        String::from_str(s)
    }
}

/// The key under which the asset that `request` names is looked up.
pub fn asset_key(request: &str) -> (key: String)
    ensures
        key@ == asset_key_of(request@),
        valid_utf8(decoded_path_bytes(request@)) ==> key@ == key_of_decoded(
            decode_utf8(decoded_path_bytes(request@)),
        ),
{
    let path = before_query(request);
    let origin = "tauri://localhost";
    proof {
        reveal_strlit("tauri://localhost");
    }
    let path = remove_all(path.as_str(), origin);
    let path = trim_trailing_slash(path.as_str());
    let decoded = percent_decode_lossy(path.as_str());
    let n = char_len(decoded.as_str());
    if n == 0 {
        String::from_str("index.html")
    } else {
        let rest = decoded.as_str().substring_char(1, n);
        proof {
            assert(rest@ =~= decoded@.drop_first());
        }
        String::from_str(rest)
    }
}

/// The protocol's answer: the asset's bytes where one is stored under `key`, and otherwise
/// `AssetNotFound` with the key.
pub fn asset_response(key: String, asset: Option<Vec<u8>>) -> (r: Result<Vec<u8>, ManagerError>)
    ensures
        match asset {
            Some(bytes) => r == Ok::<Vec<u8>, ManagerError>(bytes),
            None => r == Err::<Vec<u8>, ManagerError>(ManagerError::AssetNotFound(key)),
        },
{
    match asset {
        Some(bytes) => Ok(bytes),
        None => Err(ManagerError::AssetNotFound(key)),
    }
}

/// A query string or fragment does not change which asset a request names: for a path with
/// no `?` or `#` in it, the request made of the path and any text that starts with `?` or `#`
/// names the same asset as the path alone.
pub proof fn law_query_does_not_change_asset(path: Seq<char>, tail: Seq<char>)
    requires
        forall|j: int| 0 <= j < path.len() ==> !is_query_delimiter(#[trigger] path[j]),
        tail.len() > 0,
        is_query_delimiter(tail[0]),
    ensures
        asset_key_of(path + tail) == asset_key_of(path),
{
    let full = path + tail;
    assert forall|j: int| 0 <= j < path.len() implies !is_query_delimiter(#[trigger] full[j]) by {
        assert(full[j] == path[j]);
    }
    assert(full[path.len() as int] == tail[0]);
    lemma_query_index(full, path.len() as int);
    lemma_query_index(path, path.len() as int);
    assert(path_part(full) =~= path_part(path));
}

} // verus!
