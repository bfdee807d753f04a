//! Output and input encodings: the data-URL form of a rendered poster, and
//! the decoding of an embedded (data-URL) image source.
//!
//! The base64 transcoding itself is done by the `base64` crate behind
//! trusted wrappers; everything around the calls — framing, prefix and
//! payload handling, error mapping — is verified.

use vstd::prelude::*;

use base64::Engine;

use crate::model::PosterError;

verus! {

/// What base64's standard engine returns for a byte run: the padded
/// standard-alphabet encoding, a function of the bytes alone.
pub uninterp spec fn b64_of(b: Seq<u8>) -> Seq<char>;

/// What base64's standard engine returns when decoding a run: the decoded
/// bytes, or nothing when the run is not valid padded standard-alphabet
/// base64; a function of the run alone.
pub uninterp spec fn b64_decode_of(s: Seq<char>) -> Option<Seq<u8>>;

/// Relies on `base64::engine::general_purpose::STANDARD.encode`: the
/// result is a function of the input bytes alone, four characters for
/// every started group of three bytes (the output is padded); it is drawn
/// from the standard alphabet and `=` padding, so it never contains a
/// comma; and decoding it with the same engine returns the input bytes.
/// The length bound keeps the engine's internal size computation from
/// overflowing.
#[verifier::external_body]
fn b64_encode(b: &Vec<u8>) -> (r: String)
    requires
        4 * b@.len() <= usize::MAX,
    ensures
        r@ == b64_of(b@),
        r@.len() == 4 * ((b@.len() + 2) / 3),
        forall|i: int| 0 <= i < r@.len() ==> r@[i] != ',',
        b64_decode_of(r@) == Some(b@),
{
    base64::engine::general_purpose::STANDARD.encode(b)
}

/// The error type of base64's decoder, declared so that it can stand in
/// the trusted wrapper's signature; verified code maps it to
/// `PosterError`.
#[verifier::external_type_specification]
#[verifier::external_body]
pub struct ExDecodeError(base64::DecodeError);

/// Relies on `base64::engine::general_purpose::STANDARD.decode`: the
/// result is a function of the input alone; a run that is not valid padded
/// standard-alphabet base64 is rejected with an error.
#[verifier::external_body]
fn b64_decode(s: &str) -> (r: Result<Vec<u8>, base64::DecodeError>)
    ensures
        r matches Ok(v) ==> b64_decode_of(s@) == Some(v@),
        r matches Err(e) ==> b64_decode_of(s@) is None,
{
    base64::engine::general_purpose::STANDARD.decode(s)
}

/// The marker that a data-URL output is prefixed with.
pub open spec fn spec_data_url_prefix() -> Seq<char> {
    "data:image/png;base64,"@
}

/// Wraps encoded PNG bytes as a data-URL string: the canonical
/// `data:image/png;base64,` marker followed by the padded base64 encoding
/// of the bytes.  The result is itself a well-formed data URL whose
/// payload decodes back to exactly the given bytes.
pub fn data_url(png: &Vec<u8>) -> (r: String)
    requires
        4 * png@.len() <= usize::MAX,
    ensures
        r@ == spec_data_url_prefix() + b64_of(png@),
        spec_is_data_url(r@),
        b64_decode_of(spec_data_url_payload(r@)) == Some(png@),
{
    let mut s = String::from_str("data:image/png;base64,");
    let b = b64_encode(png);
    s.append(b.as_str());
    proof {
        reveal_strlit("data:image/png;base64,");
        reveal_strlit("data:image/");
        let pre = "data:image/png;base64,"@;
        assert(pre.len() == 22);
        assert(s@ == pre + b@);
        assert(s@.subrange(0, 11) =~= "data:image/"@);
        // the only comma before the payload ends the marker, and the
        // payload itself is comma-free, so the payload is the whole
        // encoded run.
        assert(pre[21] == ',');
        assert(forall|j: int| 0 <= j < 21 ==> s@[j] == pre[j] && pre[j] != ',');
        lemma_find_char_at(s@, ',', 0, 21);
        assert(forall|j: int| 22 <= j < s@.len() ==> s@[j] == b@[j - 22] && s@[j] != ',');
        lemma_find_char_none(s@, ',', 22);
        assert(spec_data_url_payload(s@) =~= b@);
    }
    s
}

/// When `c` first occurs at `k` past `from`, the search finds `k`.
proof fn lemma_find_char_at(s: Seq<char>, c: char, from: int, k: int)
    requires
        0 <= from <= k < s.len(),
        s[k] == c,
        forall|j: int| from <= j < k ==> s[j] != c,
    ensures
        spec_find_char(s, c, from) == k,
    decreases k - from,
{
    if from < k {
        lemma_find_char_at(s, c, from + 1, k);
    }
}

/// When `c` does not occur at or past `from`, the search yields the
/// length.
proof fn lemma_find_char_none(s: Seq<char>, c: char, from: int)
    requires
        0 <= from <= s.len(),
        forall|j: int| from <= j < s.len() ==> s[j] != c,
    ensures
        spec_find_char(s, c, from) == s.len(),
    decreases s.len() - from,
{
    if from < s.len() {
        lemma_find_char_none(s, c, from + 1);
    }
}

/// Whether a source string is an embedded (data-URL) image rather than a
/// file path: it starts with `data:image/`.
pub open spec fn spec_is_data_url(s: Seq<char>) -> bool {
    s.len() >= 11 && s.subrange(0, 11) == "data:image/"@
}

/// Tests whether an image source is an embedded data URL.
pub fn is_data_url(src: &str) -> (r: bool)
    ensures
        r == spec_is_data_url(src@),
{
    proof {
        reveal_strlit("data:image/");
    }
    let pat = "data:image/";
    let n = src.unicode_len();
    if n < 11 {
        return false;
    }
    let mut i: usize = 0;
    while i < 11
        invariant
            11 <= n == src@.len(),
            0 <= i <= 11,
            pat@ == "data:image/"@,
            pat@.len() == 11,
            forall|j: int| 0 <= j < i ==> src@[j] == pat@[j],
        decreases 11 - i,
    {
        if src.get_char(i) != pat.get_char(i) {
            proof {
                assert(src@.subrange(0, 11)[i as int] != pat@[i as int]);
            }
            return false;
        }
        i = i + 1;
    }
    proof {
        assert(src@.subrange(0, 11) =~= pat@);
    }
    true
}

/// The position of the first `c` in `s` at or after `from`, or the length
/// of `s` when there is none.
pub open spec fn spec_find_char(s: Seq<char>, c: char, from: int) -> int
    decreases s.len() - from,
{
    if from < 0 || from >= s.len() {
        s.len() as int
    } else if s[from] == c {
        from
    } else {
        spec_find_char(s, c, from + 1)
    }
}

/// Finds the first `c` in `src` at or after `from` (the length when there
/// is none).
fn find_char(src: &str, c: char, from: usize) -> (r: usize)
    requires
        from <= src@.len(),
    ensures
        r == spec_find_char(src@, c, from as int),
        from <= r <= src@.len(),
{
    let n = src.unicode_len();
    let mut i: usize = from;
    while i < n
        invariant
            n == src@.len(),
            from <= i <= n,
            spec_find_char(src@, c, from as int) == spec_find_char(src@, c, i as int),
        decreases n - i,
    {
        if src.get_char(i) == c {
            return i;
        }
        i = i + 1;
    }
    n
}

/// The base64 payload of a data URL: the characters between the first
/// comma and the following comma (or the end).
pub open spec fn spec_data_url_payload(s: Seq<char>) -> Seq<char> {
    let i = spec_find_char(s, ',', 0);
    s.subrange(i + 1, spec_find_char(s, ',', i + 1))
}

/// Decodes the payload of an embedded (data-URL) image source.  A source
/// without a comma-separated payload, or whose payload is not valid
/// base64, is rejected with an image-load error; otherwise the decoded
/// bytes are returned.
pub fn decode_data_url(src: &str) -> (r: Result<Vec<u8>, PosterError>)
    requires
        spec_is_data_url(src@),
    ensures
        spec_find_char(src@, ',', 0) == src@.len() ==> (r matches Err(e) && e matches
            PosterError::ImageLoadError(m) && m@ == "Invalid base64 image format"@),
        spec_find_char(src@, ',', 0) < src@.len() && b64_decode_of(
            spec_data_url_payload(src@),
        ) is Some ==> (r matches Ok(v) && Some(v@) == b64_decode_of(spec_data_url_payload(src@))),
        spec_find_char(src@, ',', 0) < src@.len() && b64_decode_of(
            spec_data_url_payload(src@),
        ) is None ==> (r matches Err(e) && e matches PosterError::ImageLoadError(m) && m@
            == "Invalid base64 image data"@),
{
    let n = src.unicode_len();
    let i = find_char(src, ',', 0);
    if i == n {
        return Err(PosterError::ImageLoadError(String::from_str("Invalid base64 image format")));
    }
    let j = find_char(src, ',', i + 1);
    let payload = src.substring_char(i + 1, j);
    match b64_decode(payload) {
        Ok(bytes) => Ok(bytes),
        Err(_) => Err(PosterError::ImageLoadError(String::from_str("Invalid base64 image data"))),
    }
}

} // verus!
