//! Icon loading: turning an icon source string into a raw RGBA pixel
//! buffer.
//!
//! A source is either a data URL `data:<mime>;base64,<payload>` or a
//! filesystem path.  For a data URL the payload after the `base64,` marker
//! is base64-decoded and the bytes are decoded as an image of the declared
//! MIME type, falling back to JPEG when the MIME type is unrecognized; the
//! result is an RGBA8 buffer with explicit width and height.  A source that
//! is not a data URL is classified as a path and handed back for the caller
//! to open; opening files is outside this crate.

use vstd::prelude::*;
use vstd::slice::slice_subrange;
use vstd::utf8::encode_utf8;

use base64::Engine;

verus! {

/// A decoded icon: RGBA8 bytes, 4 per pixel, with explicit dimensions.
pub struct RgbaIcon {
    pub data: Vec<u8>,
    pub width: u32,
    pub height: u32,
}

/// What an icon source string turned out to be.
pub enum IconData {
    /// A data URL, decoded to pixels.
    Rgba(RgbaIcon),
    /// Not a data URL: a filesystem path for the caller to open.
    FilePath(String),
}

/// Why decoding an icon source failed.
#[derive(Clone, Copy, PartialEq, Eq, Structural, Debug)]
pub enum IconError {
    /// A data URL without a `base64,` marker.
    MalformedDataUrl,
    /// The payload after the marker is not valid base64.
    Base64DecodeError,
    /// The decoded bytes are not a valid image of the tried format.
    ImageDecodeError,
}

/// The bytes of `data:image/`, the prefix that marks a data URL source.
pub open spec fn data_url_prefix() -> Seq<u8> {
    seq![100u8, 97u8, 116u8, 97u8, 58u8, 105u8, 109u8, 97u8, 103u8, 101u8, 47u8]
}

/// The bytes of `base64,`, the marker before the payload.
pub open spec fn base64_marker() -> Seq<u8> {
    seq![98u8, 97u8, 115u8, 101u8, 54u8, 52u8, 44u8]
}

/// The bytes of `image/jpeg`, the fallback MIME type.
pub open spec fn jpeg_mime() -> Seq<u8> {
    seq![105u8, 109u8, 97u8, 103u8, 101u8, 47u8, 106u8, 112u8, 101u8, 103u8]
}

/// The source starts with `data:image/`.
pub open spec fn has_data_prefix(b: Seq<u8>) -> bool {
    b.len() >= 11 && b.subrange(0, 11) == data_url_prefix()
}

/// The `base64,` marker stands at position `i`.
pub open spec fn marker_at(b: Seq<u8>, i: int) -> bool {
    0 <= i && i + 7 <= b.len() && b.subrange(i, i + 7) == base64_marker()
}

/// The position of the first `base64,` marker at or after `from`.
pub open spec fn find_marker(b: Seq<u8>, from: int) -> Option<int>
    decreases b.len() - from,
{
    if from < 0 || from + 7 > b.len() {
        None
    } else if marker_at(b, from) {
        Some(from)
    } else {
        find_marker(b, from + 1)
    }
}

/// The MIME substring of a data URL whose marker stands at `idx`: the bytes
/// between `data:` and the `;` before the marker.
pub open spec fn spec_mime(b: Seq<u8>, idx: int) -> Seq<u8> {
    b.subrange(5, idx - 1)
}

/// The base64 payload of a data URL whose marker stands at `idx`.
pub open spec fn spec_payload(b: Seq<u8>, idx: int) -> Seq<u8> {
    b.subrange(idx + 7, b.len() as int)
}

/// What base64-decoding the payload yields: the decoded bytes, or nothing
/// when the payload is not valid base64.  Determined by the payload alone.
pub uninterp spec fn base64_decoding(payload: Seq<u8>) -> Option<Seq<u8>>;

/// Whether the image library recognizes a MIME string as a known format.
pub uninterp spec fn mime_known(m: Seq<u8>) -> bool;

/// What decoding image bytes as the format named by a recognized MIME
/// string yields: width, height and RGBA8 pixels, or nothing when the bytes
/// are not a valid image of that format.  Determined by bytes and MIME
/// string alone.
pub uninterp spec fn decoded_rgba(bytes: Seq<u8>, mime: Seq<u8>) -> Option<(u32, u32, Seq<u8>)>;

/// The MIME string the decoder is asked to use: the declared one when
/// recognized, else the JPEG fallback.
pub open spec fn effective_mime(m: Seq<u8>) -> Seq<u8> {
    if mime_known(m) {
        m
    } else {
        jpeg_mime()
    }
}

/// The outcome of decoding a data URL source `b`: the first failing step's
/// error, or the decoded dimensions and pixels.
pub open spec fn decode_data_url(b: Seq<u8>) -> Result<(u32, u32, Seq<u8>), IconError> {
    match find_marker(b, 0) {
        None => Err(IconError::MalformedDataUrl),
        Some(idx) => match base64_decoding(spec_payload(b, idx)) {
            None => Err(IconError::Base64DecodeError),
            Some(raw) => match decoded_rgba(raw, effective_mime(spec_mime(b, idx))) {
                None => Err(IconError::ImageDecodeError),
                Some((w, h, px)) => Ok((w, h, px)),
            },
        },
    }
}

/// Relies on base64::engine::general_purpose::STANDARD.decode: the decoded
/// bytes are a function of the payload alone; invalid base64 yields nothing.
#[verifier::external_body]
fn decode_base64(payload: &[u8]) -> (r: Option<Vec<u8>>)
    ensures
        match r {
            Some(v) => base64_decoding(payload@) == Some(v@),
            None => base64_decoding(payload@) is None,
        },
{
    base64::engine::general_purpose::STANDARD.decode(payload).ok()
}

/// Relies on image::ImageFormat::from_mime_type: whether a MIME string
/// names a format the image library knows, a function of the string alone.
#[verifier::external_body]
fn mime_is_known(m: &[u8]) -> (r: bool)
    ensures
        r == mime_known(m@),
{
    match core::str::from_utf8(m) {
        Ok(s) => image::ImageFormat::from_mime_type(s).is_some(),
        Err(_) => false,
    }
}

/// Relies on image::load_from_memory_with_format (with the format named by
/// the MIME string via image::ImageFormat::from_mime_type) and on
/// image::DynamicImage::into_rgba8: decoding is a function of the bytes and
/// the MIME string alone, and the RGBA8 buffer holds 4 bytes per pixel of
/// the returned dimensions.
#[verifier::external_body]
fn decode_image_rgba(bytes: &[u8], mime: &[u8]) -> (r: Option<RgbaIcon>)
    requires
        mime_known(mime@) || mime@ == jpeg_mime(),
    ensures
        match r {
            Some(ic) => decoded_rgba(bytes@, mime@) == Some((ic.width, ic.height, ic.data@))
                && ic.data@.len() == 4 * (ic.width as int) * (ic.height as int),
            None => decoded_rgba(bytes@, mime@) is None,
        },
{
    let s = match core::str::from_utf8(mime) {
        Ok(s) => s,
        Err(_) => return None,
    };
    let fmt = image::ImageFormat::from_mime_type(s)?;
    match image::load_from_memory_with_format(bytes, fmt) {
        Ok(img) => {
            let rgba = img.into_rgba8();
            let (w, h) = rgba.dimensions();
            Some(RgbaIcon { data: rgba.into_raw(), width: w, height: h })
        },
        Err(_) => None,
    }
}

fn data_url_prefix_vec() -> (v: Vec<u8>)
    ensures
        v@ == data_url_prefix(),
{
    let v: Vec<u8> = vec![100u8, 97u8, 116u8, 97u8, 58u8, 105u8, 109u8, 97u8, 103u8, 101u8, 47u8];
    proof {
        assert(v@ =~= data_url_prefix());
    }
    v
}

fn base64_marker_vec() -> (v: Vec<u8>)
    ensures
        v@ == base64_marker(),
{
    let v: Vec<u8> = vec![98u8, 97u8, 115u8, 101u8, 54u8, 52u8, 44u8];
    proof {
        assert(v@ =~= base64_marker());
    }
    v
}

fn jpeg_mime_vec() -> (v: Vec<u8>)
    ensures
        v@ == jpeg_mime(),
{
    let v: Vec<u8> = vec![105u8, 109u8, 97u8, 103u8, 101u8, 47u8, 106u8, 112u8, 101u8, 103u8];
    proof {
        assert(v@ =~= jpeg_mime());
    }
    v
}

/// Compare `pat` against the bytes of `b` starting at `at`.
fn slice_matches(b: &[u8], at: usize, pat: &Vec<u8>) -> (r: bool)
    requires
        at + pat@.len() <= b@.len(),
    ensures
        r == (b@.subrange(at as int, at + pat@.len()) == pat@),
{
    let n = pat.len();
    let blen = b.len();
    let mut j: usize = 0;
    while j < n
        invariant
            j <= n,
            n == pat@.len(),
            blen == b@.len(),
            at + n <= blen,
            forall|k: int| 0 <= k < j ==> b@[at + k] == pat@[k],
        decreases n - j,
    {
        let x = *vstd::slice::slice_index_get(b, at + j);
        if x != pat[j] {
            proof {
                assert(b@.subrange(at as int, at + pat@.len())[j as int] != pat@[j as int]);
            }
            return false;
        }
        j += 1;
    }
    proof {
        assert(b@.subrange(at as int, at + pat@.len()) =~= pat@);
    }
    true
}

proof fn lemma_find_marker_some(b: Seq<u8>, from: int, idx: int)
    requires
        0 <= from,
        find_marker(b, from) == Some(idx),
    ensures
        from <= idx,
        marker_at(b, idx),
    decreases b.len() - from,
{
    if from + 7 <= b.len() && !marker_at(b, from) {
        lemma_find_marker_some(b, from + 1, idx);
    }
}

proof fn lemma_marker_past_prefix(b: Seq<u8>, idx: int)
    requires
        has_data_prefix(b),
        marker_at(b, idx),
    ensures
        idx >= 11,
{
    if idx < 11 {
        assert(b.subrange(idx, idx + 7)[0] == base64_marker()[0]);
        assert(b[idx] == 98);
        assert(b.subrange(0, 11)[idx] == data_url_prefix()[idx]);
        assert(b[idx] == data_url_prefix()[idx]);
        assert(data_url_prefix()[idx] != 98);
    }
}

/// Find the first `base64,` marker of `b`.
fn find_base64_marker(b: &[u8]) -> (r: Option<usize>)
    ensures
        match r {
            Some(i) => find_marker(b@, 0) == Some(i as int),
            None => find_marker(b@, 0) is None,
        },
{
    let pat = base64_marker_vec();
    let n = b.len();
    if n < 7 {
        return None;
    }
    let mut i: usize = 0;
    while i <= n - 7
        invariant
            n == b@.len(),
            7 <= n,
            i <= n,
            pat@ == base64_marker(),
            find_marker(b@, 0) == find_marker(b@, i as int),
        decreases n - i,
    {
        if slice_matches(b, i, &pat) {
            return Some(i);
        }
        i += 1;
    }
    None
}

/// Decode an icon source string.
///
/// A string starting with `data:image/` is a data URL: the payload after
/// the first `base64,` marker is base64-decoded and decoded as an image of
/// the MIME type declared between `data:` and the marker (JPEG when that
/// type is unrecognized), yielding RGBA8 pixels with explicit dimensions.
/// A data URL without a marker, with an undecodable payload, or with bytes
/// that are no valid image fails with the step's error.  Any other string
/// is classified as a filesystem path and returned unchanged.
pub fn parse_icon_from_string(icon: String) -> (r: Result<IconData, IconError>)
    ensures
        ({
            let b = encode_utf8(icon@);
            if has_data_prefix(b) {
                match decode_data_url(b) {
                    Ok((w, h, px)) => r matches Ok(IconData::Rgba(ic)) && ic.width == w
                        && ic.height == h && ic.data@ == px,
                    Err(e) => r == Err::<IconData, IconError>(e),
                }
            } else {
                r matches Ok(IconData::FilePath(p)) && p@ == icon@
            }
        }),
{
    let bytes = icon.as_str().as_bytes();
    let prefix = data_url_prefix_vec();
    let is_data_url = bytes.len() >= 11 && slice_matches(bytes, 0, &prefix);
    if !is_data_url {
        return Ok(IconData::FilePath(icon));
    }
    match find_base64_marker(bytes) {
        None => Err(IconError::MalformedDataUrl),
        Some(idx) => {
            proof {
                lemma_find_marker_some(bytes@, 0, idx as int);
                lemma_marker_past_prefix(bytes@, idx as int);
            }
            let mime = slice_subrange(bytes, 5, idx - 1);
            let payload = slice_subrange(bytes, idx + 7, bytes.len());
            match decode_base64(payload) {
                None => Err(IconError::Base64DecodeError),
                Some(raw) => {
                    let known = mime_is_known(mime);
                    let decoded = if known {
                        decode_image_rgba(raw.as_slice(), mime)
                    } else {
                        let fallback = jpeg_mime_vec();
                        decode_image_rgba(raw.as_slice(), fallback.as_slice())
                    };
                    match decoded {
                        None => Err(IconError::ImageDecodeError),
                        Some(ic) => Ok(IconData::Rgba(ic)),
                    }
                },
            }
        },
    }
}

} // verus!
