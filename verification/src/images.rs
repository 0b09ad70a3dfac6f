//! Where request images come from and how their bytes become images: links
//! and base64 payloads (bare or as `data:` URLs), download checks, base64
//! decoding and image decoding.
use vstd::prelude::*;
use base64::Engine;
use crate::error::AppError;
use crate::text::{occurs_at, occurs_in, split_once, starts_with, trim, trim_text};

verus! {

/// A decoded image, as the `image` crate holds it.
#[verifier::external_type_specification]
#[verifier::external_body]
pub struct ExDynamicImage(image::DynamicImage);

/// What `image::load_from_memory` gives for `bytes`: the width and height of the
/// decoded image, or the text of the decoding error.
pub uninterp spec fn image_decoding(bytes: Seq<u8>) -> Result<(u32, u32), Seq<char>>;

/// What base64 decoding with the standard alphabet and padding gives for `input`:
/// the decoded bytes, or the text of the decoding error.
pub uninterp spec fn base64_standard_decoding(input: Seq<char>) -> Result<Seq<u8>, Seq<char>>;

/// The character of the standard base64 alphabet (`A-Z`, `a-z`, `0-9`, `+`, `/`)
/// for the six-bit value `v`.
pub open spec fn base64_char(v: int) -> char {
    if v < 26 {
        (65 + v) as char
    } else if v < 52 {
        (97 + v - 26) as char
    } else if v < 62 {
        (48 + v - 52) as char
    } else if v == 62 {
        '+'
    } else {
        '/'
    }
}

/// Base64 with the standard alphabet: every group of three bytes becomes four
/// characters; a final group of one or two bytes is completed with `=`.
pub open spec fn base64_standard_encoding(bytes: Seq<u8>) -> Seq<char>
    decreases bytes.len(),
{
    if bytes.len() == 0 {
        Seq::empty()
    } else if bytes.len() == 1 {
        let a = bytes[0] as int;
        seq![base64_char(a / 4), base64_char((a % 4) * 16), '=', '=']
    } else if bytes.len() == 2 {
        let a = bytes[0] as int;
        let b = bytes[1] as int;
        seq![base64_char(a / 4), base64_char((a % 4) * 16 + b / 16), base64_char((b % 16) * 4), '=']
    } else {
        let a = bytes[0] as int;
        let b = bytes[1] as int;
        let c = bytes[2] as int;
        seq![
            base64_char(a / 4),
            base64_char((a % 4) * 16 + b / 16),
            base64_char((b % 16) * 4 + c / 64),
            base64_char(c % 64),
        ] + base64_standard_encoding(bytes.skip(3))
    }
}

/// The encoding has four characters for every started group of three bytes.
pub proof fn lemma_base64_encoding_len(bytes: Seq<u8>)
    ensures
        base64_standard_encoding(bytes).len() == (bytes.len() + 2) / 3 * 4,
    decreases bytes.len(),
{
    if bytes.len() >= 3 {
        lemma_base64_encoding_len(bytes.skip(3));
    }
}

/// A decoded image with its dimensions in pixels.
pub struct DecodedImage {
    pub image: image::DynamicImage,
    pub width: u32,
    pub height: u32,
}

/// Largest image, in bytes, accepted from a link (20 MiB).
pub const MAX_DOWNLOAD_BYTES: usize = 20971520;

/// Marker that separates the header of a `data:` URL from its base64 payload.
pub open spec fn base64_marker() -> Seq<char> {
    ";base64,"@
}

/// `t` is an image link.
pub open spec fn is_url_text(t: Seq<char>) -> bool {
    "http://"@.is_prefix_of(t) || "https://"@.is_prefix_of(t)
}

/// Position of the first occurrence of `p` in `s` (meaningful when `p` occurs).
pub open spec fn first_occurrence(s: Seq<char>, p: Seq<char>) -> int {
    choose|i: int| occurs_at(s, p, i) && forall|j: int| 0 <= j < i ==> !occurs_at(s, p, j)
}

/// The base64 text of an image string: what follows the first `;base64,`
/// marker, or the whole string when it has none.
pub open spec fn base64_payload_text(t: Seq<char>) -> Seq<char> {
    if occurs_in(t, base64_marker()) {
        t.skip(first_occurrence(t, base64_marker()) + base64_marker().len())
    } else {
        t
    }
}

/// Where an image given as text comes from.
pub enum ImageSource {
    /// An `http(s)://` link (trimmed) to download the image from.
    Url(String),
    /// The base64 payload of the image.
    Base64(String),
}

/// The source that the image string `source` designates: after trimming, a link
/// if it starts with `http://` or `https://`, else a base64 payload.
pub open spec fn image_source_of(source: Seq<char>, r: ImageSource) -> bool {
    let t = trim_text(source);
    match r {
        ImageSource::Url(u) => is_url_text(t) && u@ == t,
        ImageSource::Base64(p) => !is_url_text(t) && p@ == base64_payload_text(t),
    }
}

/// `image::load_from_memory`: decodes the bytes of an image whose format is
/// guessed from its content; the decoded image comes with its `width()` and
/// `height()`. The contract names the dimensions and the error text; the pixels
/// are carried through without a statement about them.
#[verifier::external_body]
fn load_image(bytes: &[u8]) -> (r: Result<DecodedImage, String>)
    ensures
        match r {
            Ok(img) => image_decoding(bytes@) == Ok::<(u32, u32), Seq<char>>((img.width, img.height)),
            Err(e) => image_decoding(bytes@) == Err::<(u32, u32), Seq<char>>(e@),
        },
{
    match image::load_from_memory(bytes) {
        Ok(image) => {
            let (width, height) = (image.width(), image.height());
            Ok(DecodedImage { image, width, height })
        },
        Err(e) => Err(e.to_string()),
    }
}

/// `Engine::decode` of `base64::engine::general_purpose::STANDARD`: decodes
/// base64 text with the standard alphabet and canonical padding.
#[verifier::external_body]
fn decode_base64_standard(input: &str) -> (r: Result<Vec<u8>, String>)
    ensures
        match r {
            Ok(bytes) => base64_standard_decoding(input@) == Ok::<Seq<u8>, Seq<char>>(bytes@),
            Err(e) => base64_standard_decoding(input@) == Err::<Seq<u8>, Seq<char>>(e@),
        },
{
    base64::engine::general_purpose::STANDARD.decode(input).map_err(|e| e.to_string())
}

/// `Engine::encode` of `base64::engine::general_purpose::STANDARD`: encodes
/// bytes as base64 with the standard alphabet and `=` padding.
#[verifier::external_body]
fn encode_base64_standard(bytes: &[u8]) -> (r: String)
    requires
        bytes@.len() <= usize::MAX / 2,
    ensures
        r@ == base64_standard_encoding(bytes@),
{
    base64::engine::general_purpose::STANDARD.encode(bytes)
}

/// The base64 text of downloaded image bytes, for previews in the browser.
pub fn preview_base64(body: &[u8]) -> (r: String)
    requires
        body@.len() <= MAX_DOWNLOAD_BYTES,
    ensures
        r@ == base64_standard_encoding(body@),
        r@.len() == (body@.len() + 2) / 3 * 4,
{
    proof {
        lemma_base64_encoding_len(body@);
    }
    encode_base64_standard(body)
}

/// The outcome of decoding image bytes: decoding errors become `ImageLoad`.
pub fn image_load_outcome(decoded: Result<DecodedImage, String>) -> (r: Result<DecodedImage, AppError>)
    ensures
        match decoded {
            Ok(img) => r == Ok::<DecodedImage, AppError>(img),
            Err(e) => r matches Err(AppError::ImageLoad(msg)) && msg@ == e@,
        },
{
    match decoded {
        Ok(img) => Ok(img),
        Err(e) => Err(AppError::ImageLoad(e)),
    }
}

/// Decodes image bytes (format guessed from the content).
pub fn img_from_bytes(bytes: &[u8]) -> (r: Result<DecodedImage, AppError>)
    ensures
        match image_decoding(bytes@) {
            Ok((w, h)) => r matches Ok(img) && img.width == w && img.height == h,
            Err(e) => r matches Err(AppError::ImageLoad(msg)) && msg@ == e,
        },
{
    image_load_outcome(load_image(bytes))
}

/// The outcome of decoding a base64 payload: decoding errors become
/// `Base64Decode`, decoded bytes are returned as they are.
pub fn base64_outcome(decoded: Result<Vec<u8>, String>) -> (r: Result<Vec<u8>, AppError>)
    ensures
        match decoded {
            Ok(bytes) => r matches Ok(b) && b@ == bytes@,
            Err(e) => r matches Err(AppError::Base64Decode(msg)) && msg@ == "解码失败: "@ + e@,
        },
{
    match decoded {
        Ok(bytes) => Ok(bytes),
        Err(e) => Err(AppError::Base64Decode(String::from_str("解码失败: ").concat(e.as_str()))),
    }
}

/// Decodes the image held by a base64 payload.
pub fn image_from_base64(payload: &str) -> (r: Result<DecodedImage, AppError>)
    ensures
        match base64_standard_decoding(payload@) {
            Ok(bytes) => match image_decoding(bytes) {
                Ok((w, h)) => r matches Ok(img) && img.width == w && img.height == h,
                Err(e) => r matches Err(AppError::ImageLoad(msg)) && msg@ == e,
            },
            Err(e) => r matches Err(AppError::Base64Decode(msg)) && msg@ == "解码失败: "@ + e,
        },
{
    let bytes = base64_outcome(decode_base64_standard(payload))?;
    img_from_bytes(bytes.as_slice())
}

/// Checks the HTTP status of an image download: anything but a 2xx status fails
/// with `HTTP <status>` (`status_text` is how the status is displayed).
pub fn check_download_status(status: u16, status_text: &str) -> (r: Result<(), AppError>)
    ensures
        200 <= status <= 299 ==> r == Ok::<(), AppError>(()),
        !(200 <= status <= 299) ==> (r matches Err(AppError::ImageDownload(msg)) && msg@ == "HTTP "@
            + status_text@),
{
    if 200 <= status && status <= 299 {
        Ok(())
    } else {
        Err(AppError::ImageDownload(String::from_str("HTTP ").concat(status_text)))
    }
}

/// Decodes a downloaded image, refusing bodies larger than 20 MiB.
pub fn image_from_download(body: &[u8]) -> (r: Result<DecodedImage, AppError>)
    ensures
        body@.len() > MAX_DOWNLOAD_BYTES ==> (r matches Err(AppError::ImageDownload(msg)) && msg@
            == "图片过大 (超过 20MB)"@),
        body@.len() <= MAX_DOWNLOAD_BYTES ==> match image_decoding(body@) {
            Ok((w, h)) => r matches Ok(img) && img.width == w && img.height == h,
            Err(e) => r matches Err(AppError::ImageLoad(msg)) && msg@ == e,
        },
{
    if body.len() > MAX_DOWNLOAD_BYTES {
        return Err(AppError::ImageDownload(String::from_str("图片过大 (超过 20MB)")));
    }
    img_from_bytes(body)
}

/// The base64 payload of an image string: what follows its first `;base64,`
/// marker, or the whole string.
pub fn base64_payload<'a>(t: &'a str) -> (p: &'a str)
    ensures
        p@ == base64_payload_text(t@),
{
    proof {
        reveal_strlit(";base64,");
    }
    match split_once(t, ";base64,") {
        Some((before, after)) => {
            let ghost i = before@.len() as int;
            let ghost f = first_occurrence(t@, base64_marker());
            assert(occurs_at(t@, base64_marker(), i));
            assert(occurs_at(t@, base64_marker(), f) && forall|j: int|
                0 <= j < f ==> !occurs_at(t@, base64_marker(), j));
            assert(!(f < i));
            assert(!(i < f));
            after
        },
        None => t,
    }
}

/// Both `http://` and `https://` strings are links, downloaded as given after
/// trimming; every other string is a base64 payload.
pub proof fn lemma_links_are_downloaded(source: Seq<char>, r: ImageSource)
    requires
        image_source_of(source, r),
    ensures
        ("http://"@.is_prefix_of(trim_text(source)) || "https://"@.is_prefix_of(trim_text(source)))
            ==> (r matches ImageSource::Url(u) && u@ == trim_text(source)),
        !("http://"@.is_prefix_of(trim_text(source)) || "https://"@.is_prefix_of(trim_text(source)))
            ==> r is Base64,
{
}

/// Classifies an image string: a link to download, or a base64 payload to decode.
pub fn classify_image_source(source: &str) -> (r: ImageSource)
    ensures
        image_source_of(source@, r),
{
    let t = trim(source);
    if starts_with(t, "http://") || starts_with(t, "https://") {
        ImageSource::Url(String::from_str(t))
    } else {
        ImageSource::Base64(String::from_str(base64_payload(t)))
    }
}

/// Adds the estimated size of a decoded `width` x `height` RGB image
/// (three bytes per pixel) to `total`.
pub fn add_estimated_image_size(total: u64, width: u32, height: u32) -> (r: u64)
    requires
        total + width * height * 3 <= u64::MAX,
    ensures
        r == total + width * height * 3,
{
    assert((width as u64) * (height as u64) <= u64::MAX) by (nonlinear_arith)
        requires
            total + width * height * 3 <= u64::MAX,
    ;
    total + (width as u64) * (height as u64) * 3
}

/// A `data:` URL and its bare base64 payload designate the same bytes: when
/// neither the header nor the payload contain `;base64,`, the payload of
/// `header ;base64, payload` is `payload`.
pub proof fn lemma_data_url_payload(header: Seq<char>, payload: Seq<char>)
    requires
        !occurs_in(header, base64_marker()),
        !occurs_in(payload, base64_marker()),
    ensures
        base64_payload_text(header + base64_marker() + payload) == base64_payload_text(payload),
{
    let m = base64_marker();
    let s = header + m + payload;
    let h = header.len() as int;
    reveal_strlit(";base64,");
    assert(s.subrange(h, h + m.len()) =~= m);
    assert(occurs_at(s, m, h));
    assert forall|j: int| 0 <= j < h implies !occurs_at(s, m, j) by {
        if occurs_at(s, m, j) {
            if j + m.len() <= h {
                assert(header.subrange(j, j + m.len()) =~= s.subrange(j, j + m.len()));
                assert(occurs_at(header, m, j));
            } else {
                let k = h - j;
                assert(s.subrange(j, j + m.len())[k] == s[h]);
                assert(s[h] == ';');
                assert(m[k] != ';');
            }
        }
    }
    let f = first_occurrence(s, m);
    assert(!(f < h));
    assert(!(h < f));
    assert(s.skip(h + m.len()) =~= payload);
}

} // verus!
