//! Decisions of the HTTP handlers: token checks, upload validation, planning of
//! JSON OCR requests, request log entries, chart selection and the health report.
use vstd::prelude::*;
use vstd::utf8::encode_utf8;
use crate::error::AppError;
use crate::images::{base64_standard_encoding, is_url_text, preview_base64, MAX_DOWNLOAD_BYTES};
use crate::logger::{OcrLogEntry, today_text};
use crate::text::{append_zero_padded, starts_with, str_equals, strip_prefix, trim, trim_text, zero_padded};
use crate::types::{EngineStatus, HealthEngines, HealthResponse};
use crate::logger::{
    append_date, lemma_today_text_shape, lemma_year_after_epoch, lemma_zero_padded_exact, SECS_PER_DAY,
};
use crate::calendar::civil_from_days;

verus! {

/// The image MIME types accepted for uploads: JPEG, PNG, BMP, WebP and TIFF.
pub open spec fn is_supported_mime_text(mime: Seq<char>) -> bool {
    ||| mime == "image/jpeg"@
    ||| mime == "image/png"@
    ||| mime == "image/bmp"@
    ||| mime == "image/webp"@
    ||| mime == "image/tiff"@
}

/// Exactly the five documented formats are accepted: `image/jpeg`, `image/png`,
/// `image/bmp`, `image/webp` and `image/tiff`; any other type (such as
/// `image/svg+xml` or `image/gif`) is refused by `validate_mime` with
/// `UnsupportedFormat`.
pub proof fn lemma_supported_mime_types(mime: Seq<char>)
    ensures
        is_supported_mime_text(mime) <==> (mime == "image/jpeg"@ || mime == "image/png"@ || mime
            == "image/bmp"@ || mime == "image/webp"@ || mime == "image/tiff"@),
{
}

/// Whether `mime` is one of the supported image MIME types.
pub fn is_supported_mime(mime: &str) -> (r: bool)
    ensures
        r == is_supported_mime_text(mime@),
{
    str_equals(mime, "image/jpeg") || str_equals(mime, "image/png") || str_equals(mime, "image/bmp")
        || str_equals(mime, "image/webp") || str_equals(mime, "image/tiff")
}

/// Checks the declared content type of an upload: a missing type is accepted,
/// a present one must be supported.
pub fn validate_mime(content_type: &Option<String>) -> (r: Result<(), AppError>)
    ensures
        match content_type {
            None => r == Ok::<(), AppError>(()),
            Some(ct) => if is_supported_mime_text(ct@) {
                r == Ok::<(), AppError>(())
            } else {
                r matches Err(AppError::UnsupportedFormat(f)) && f@ == ct@
            },
        },
{
    if let Some(ct) = content_type {
        if !is_supported_mime(ct.as_str()) {
            return Err(AppError::UnsupportedFormat(ct.clone()));
        }
    }
    Ok(())
}

/// Path of the health endpoint, which never needs a token.
pub open spec fn health_path() -> Seq<char> {
    "/api/health"@
}

/// The token a request presents: its `Authorization` header value after
/// `Bearer `, trimmed; empty when there is no such header value.
pub open spec fn presented_token(authorization: Option<Seq<char>>) -> Seq<char> {
    match authorization {
        Some(v) => if "Bearer "@.is_prefix_of(v) {
            trim_text(v.skip("Bearer "@.len() as int))
        } else {
            Seq::empty()
        },
        None => Seq::empty(),
    }
}

/// The answer to the token check of a request for `path`, when the service
/// expects `expected` (`None`: authentication disabled).
pub open spec fn token_check_outcome(
    expected: Option<Seq<char>>,
    path: Seq<char>,
    authorization: Option<Seq<char>>,
) -> Result<(), AppError> {
    match expected {
        None => Ok(()),
        Some(token) => if path == health_path() {
            Ok(())
        } else if presented_token(authorization).len() == 0 {
            Err(AppError::MissingToken)
        } else if presented_token(authorization) != token {
            Err(AppError::InvalidToken)
        } else {
            Ok(())
        },
    }
}

/// The view of an optional string slice.
pub open spec fn opt_text(o: Option<&str>) -> Option<Seq<char>> {
    match o {
        Some(s) => Some(s@),
        None => None,
    }
}

/// The view of an optional string.
pub open spec fn opt_string_text(o: Option<String>) -> Option<Seq<char>> {
    match o {
        Some(s) => Some(s@),
        None => None,
    }
}

/// Checks the API token of a request for `path` whose `Authorization` header
/// (when present and readable as text) is `authorization`.
pub fn check_token(expected: &Option<String>, path: &str, authorization: Option<&str>) -> (r: Result<(), AppError>)
    ensures
        r == token_check_outcome(opt_string_text(*expected), path@, opt_text(authorization)),
{
    let token = match expected {
        None => return Ok(()),
        Some(t) => t,
    };
    if str_equals(path, "/api/health") {
        return Ok(());
    }
    proof {
        reveal_strlit("");
    }
    let provided: &str = match authorization {
        Some(v) => match strip_prefix(v, "Bearer ") {
            Some(rest) => trim(rest),
            None => "",
        },
        None => "",
    };
    assert(provided@ == presented_token(opt_text(authorization)));
    if provided.is_empty() {
        Err(AppError::MissingToken)
    } else if !str_equals(provided, token.as_str()) {
        Err(AppError::InvalidToken)
    } else {
        Ok(())
    }
}

/// Without a configured token, every request passes the token check.
pub proof fn lemma_no_token_no_check(path: Seq<char>, authorization: Option<Seq<char>>)
    ensures
        token_check_outcome(None, path, authorization) == Ok::<(), AppError>(()),
{
}

/// The health endpoint passes the token check whatever the request carries.
pub proof fn lemma_health_is_public(expected: Option<Seq<char>>, authorization: Option<Seq<char>>)
    ensures
        token_check_outcome(expected, health_path(), authorization) == Ok::<(), AppError>(()),
{
}

/// A request that presents the configured token as `Bearer <token>` passes,
/// for a non-empty token without surrounding whitespace.
pub proof fn lemma_bearer_token_accepted(token: Seq<char>, path: Seq<char>)
    requires
        token.len() > 0,
        trim_text(token) == token,
    ensures
        token_check_outcome(Some(token), path, Some("Bearer "@ + token)) == Ok::<(), AppError>(()),
{
    reveal_strlit("Bearer ");
    let v = "Bearer "@ + token;
    assert("Bearer "@.is_prefix_of(v)) by {
        assert(v.take("Bearer "@.len() as int) =~= "Bearer "@);
    }
    assert(v.skip("Bearer "@.len() as int) =~= token);
}

/// Where a token is configured, any other endpoint refuses a request without
/// an `Authorization` header as missing the token.
pub proof fn lemma_missing_token_refused(token: Seq<char>, path: Seq<char>)
    requires
        path != health_path(),
    ensures
        token_check_outcome(Some(token), path, None) == Err::<(), AppError>(AppError::MissingToken),
{
}

/// `YYYY-MM-DDTHH:MM:SSZ`: the UTC instant `secs` seconds after the Unix epoch.
pub open spec fn timestamp_text(secs: nat) -> Seq<char> {
    let time_of_day = secs % 86400;
    today_text(secs) + seq!['T'] + zero_padded(time_of_day / 3600, 2) + seq![':'] + zero_padded(
        (time_of_day % 3600) / 60,
        2,
    ) + seq![':'] + zero_padded(time_of_day % 60, 2) + seq!['Z']
}

/// The current time as `YYYY-MM-DDTHH:MM:SSZ`, for `now_secs` seconds since the
/// Unix epoch.
pub fn chrono_now(now_secs: u64) -> (s: String)
    ensures
        s@ == timestamp_text(now_secs as nat),
{
    let days = now_secs / SECS_PER_DAY;
    let time_of_day = now_secs % SECS_PER_DAY;
    let h = time_of_day / 3600;
    let m = (time_of_day % 3600) / 60;
    let sec = time_of_day % 60;
    let (y, mo, d) = civil_from_days(days as i64);
    proof {
        lemma_year_after_epoch(days as int);
        reveal_strlit("T");
        reveal_strlit(":");
        reveal_strlit("Z");
    }
    let mut s = String::new();
    append_date(&mut s, y as u64, mo, d);
    s.append("T");
    append_zero_padded(&mut s, h, 2);
    s.append(":");
    append_zero_padded(&mut s, m, 2);
    s.append(":");
    append_zero_padded(&mut s, sec, 2);
    s.append("Z");
    assert(s@ =~= timestamp_text(now_secs as nat));
    s
}

/// A log timestamp begins with the date that names the day's log file.
pub proof fn lemma_timestamp_starts_with_date(secs: nat)
    ensures
        today_text(secs).is_prefix_of(timestamp_text(secs)),
{
    let t = timestamp_text(secs);
    let d = today_text(secs);
    assert(t.take(d.len() as int) =~= d);
}

/// Until the year 10000, a log timestamp is twenty characters: the ten-character
/// date, `T`, two-digit hours below 24, `:`, two-digit minutes below 60, `:`,
/// two-digit seconds below 60, and `Z`.
pub proof fn lemma_timestamp_shape(secs: nat)
    requires
        secs < 253402300800,
    ensures
        ({
            let t = timestamp_text(secs);
            let time_of_day = secs % 86400;
            let h = time_of_day / 3600;
            let m = (time_of_day % 3600) / 60;
            let s = time_of_day % 60;
            &&& t.len() == 20
            &&& t.take(10) == today_text(secs)
            &&& t[10] == 'T'
            &&& t[13] == ':'
            &&& t[16] == ':'
            &&& t[19] == 'Z'
            &&& h < 24 && m < 60 && s < 60
            &&& t.subrange(11, 13) == zero_padded(h, 2)
            &&& t.subrange(14, 16) == zero_padded(m, 2)
            &&& t.subrange(17, 19) == zero_padded(s, 2)
        }),
{
    let t = timestamp_text(secs);
    let time_of_day = secs % 86400;
    let h = time_of_day / 3600;
    let m = (time_of_day % 3600) / 60;
    let s = time_of_day % 60;
    lemma_today_text_shape(secs);
    lemma_zero_padded_exact(h, 2);
    lemma_zero_padded_exact(m, 2);
    lemma_zero_padded_exact(s, 2);
    let d = today_text(secs);
    assert(t == d + seq!['T'] + zero_padded(h, 2) + seq![':'] + zero_padded(m, 2) + seq![':']
        + zero_padded(s, 2) + seq!['Z']);
    assert(t.take(10) =~= d);
    assert(t.subrange(11, 13) =~= zero_padded(h, 2));
    assert(t.subrange(14, 16) =~= zero_padded(m, 2));
    assert(t.subrange(17, 19) =~= zero_padded(s, 2));
}

/// The text of an optional string slice, as an owned string.
fn opt_to_string(o: Option<&str>) -> (r: Option<String>)
    ensures
        opt_string_text(r) == opt_text(o),
{
    match o {
        Some(s) => Some(String::from_str(s)),
        None => None,
    }
}

/// The log entry of one request, stamped with the time `now_secs` (seconds
/// since the Unix epoch).
pub fn log_ocr_request(
    now_secs: u64,
    request_type: &str,
    image_source: &str,
    image_url: Option<&str>,
    image_size: u64,
    result_count: usize,
    total_text_length: usize,
    duration_ms: u64,
    status: &str,
    error_message: Option<&str>,
) -> (entry: OcrLogEntry)
    ensures
        entry.timestamp@ == timestamp_text(now_secs as nat),
        entry.request_type@ == request_type@,
        entry.image_source@ == image_source@,
        opt_string_text(entry.image_url) == opt_text(image_url),
        entry.image_size_bytes == image_size,
        entry.result_count == result_count,
        entry.total_text_length == total_text_length,
        entry.duration_ms == duration_ms,
        entry.status@ == status@,
        opt_string_text(entry.error_message) == opt_text(error_message),
{
    OcrLogEntry {
        timestamp: chrono_now(now_secs),
        request_type: String::from_str(request_type),
        image_source: String::from_str(image_source),
        image_url: opt_to_string(image_url),
        image_size_bytes: image_size,
        result_count,
        total_text_length,
        duration_ms,
        status: String::from_str(status),
        error_message: opt_to_string(error_message),
    }
}

/// Multipart field names under which an uploaded image is looked for.
pub open spec fn is_image_field_text(name: Seq<char>) -> bool {
    name == "file"@ || name == "image"@ || name == "image_data"@
}

/// Whether a multipart field (whose name is `name`, if it has one) carries the
/// uploaded image.
pub fn is_image_field_name(name: Option<&str>) -> (r: bool)
    ensures
        r == match name {
            Some(n) => is_image_field_text(n@),
            None => false,
        },
{
    match name {
        Some(n) => str_equals(n, "file") || str_equals(n, "image") || str_equals(n, "image_data"),
        None => {
            proof {
                reveal_strlit("");
                reveal_strlit("file");
                reveal_strlit("image");
                reveal_strlit("image_data");
            }
            false
        },
    }
}

/// UTF-8 length in bytes of a text, as `str::len` reports it.
pub open spec fn byte_len(t: Seq<char>) -> nat {
    (encode_utf8(t).len() as usize) as nat
}

/// Sum of the UTF-8 lengths of the texts.
pub open spec fn total_byte_len(texts: Seq<String>) -> nat
    decreases texts.len(),
{
    if texts.len() == 0 {
        0
    } else {
        total_byte_len(texts.drop_last()) + byte_len(texts.last()@)
    }
}

/// Total UTF-8 length of the recognized texts, or `None` if it exceeds `usize`.
pub fn total_text_length(texts: &Vec<String>) -> (r: Option<usize>)
    ensures
        r == if total_byte_len(texts@) <= usize::MAX {
            Some(total_byte_len(texts@) as usize)
        } else {
            None::<usize>
        },
{
    let mut total: usize = 0;
    let mut i: usize = 0;
    while i < texts.len()
        invariant
            0 <= i <= texts@.len(),
            total as nat == total_byte_len(texts@.take(i as int)),
        decreases texts@.len() - i,
    {
        assert(texts@.take(i + 1).drop_last() =~= texts@.take(i as int));
        let len = texts[i].as_str().len();
        if total > usize::MAX - len {
            proof {
                lemma_total_byte_len_prefix(texts@, i + 1);
            }
            return None;
        }
        total = total + len;
        i = i + 1;
    }
    assert(texts@.take(texts@.len() as int) =~= texts@);
    Some(total)
}

/// A longer list of texts never has a smaller total length than a prefix of it.
proof fn lemma_total_byte_len_prefix(texts: Seq<String>, k: int)
    requires
        0 <= k <= texts.len(),
    ensures
        total_byte_len(texts.take(k)) <= total_byte_len(texts),
    decreases texts.len(),
{
    if k < texts.len() {
        assert(texts.drop_last().take(k) =~= texts.take(k));
        lemma_total_byte_len_prefix(texts.drop_last(), k);
    } else {
        assert(texts.take(k) =~= texts);
    }
}

/// The image strings of a JSON OCR request that are not blank, trimmed, in order.
pub open spec fn nonblank_sources(images: Seq<Seq<char>>) -> Seq<Seq<char>>
    decreases images.len(),
{
    if images.len() == 0 {
        Seq::empty()
    } else {
        let rest = nonblank_sources(images.drop_last());
        let t = trim_text(images.last());
        if t.len() == 0 {
            rest
        } else {
            rest.push(t)
        }
    }
}

/// The last link among the (trimmed) sources.
pub open spec fn last_url(sources: Seq<Seq<char>>) -> Option<Seq<char>>
    decreases sources.len(),
{
    if sources.len() == 0 {
        None
    } else if is_url_text(sources.last()) {
        Some(sources.last())
    } else {
        last_url(sources.drop_last())
    }
}

/// The views of a sequence of strings.
pub open spec fn string_texts(v: Seq<String>) -> Seq<Seq<char>> {
    v.map_values(|s: String| s@)
}

/// What a JSON OCR request asks for: the image strings to process and how the
/// request is logged.
pub struct OcrJsonPlan {
    /// The non-blank image strings, trimmed, in request order.
    pub sources: Vec<String>,
    /// `"url"` when some image is a link, else `"base64"`.
    pub image_source: String,
    /// The last image link of the request.
    pub image_url: Option<String>,
}

/// Plans a JSON OCR request: no image at all is refused, blank entries are
/// skipped, and the request is logged as coming from a link when one of its
/// images is a link (the last such link is recorded).
pub fn plan_ocr_json(images: &Vec<String>) -> (r: Result<OcrJsonPlan, AppError>)
    ensures
        images@.len() == 0 ==> r == Err::<OcrJsonPlan, AppError>(AppError::NoFile),
        images@.len() > 0 ==> (r matches Ok(plan) && {
            let sources = nonblank_sources(string_texts(images@));
            &&& string_texts(plan.sources@) == sources
            &&& opt_string_text(plan.image_url) == last_url(sources)
            &&& plan.image_source@ == if last_url(sources) is Some {
                "url"@
            } else {
                "base64"@
            }
        }),
{
    if images.len() == 0 {
        return Err(AppError::NoFile);
    }
    let mut sources: Vec<String> = Vec::new();
    let mut image_url: Option<String> = None;
    let mut i: usize = 0;
    while i < images.len()
        invariant
            0 <= i <= images@.len(),
            string_texts(sources@) == nonblank_sources(string_texts(images@.take(i as int))),
            opt_string_text(image_url) == last_url(string_texts(sources@)),
        decreases images@.len() - i,
    {
        let ghost before = sources@;
        assert(string_texts(images@.take(i + 1)).drop_last() =~= string_texts(images@.take(i as int)));
        assert(string_texts(images@.take(i + 1)).last() == images@[i as int]@);
        let t = trim(images[i].as_str());
        if !t.is_empty() {
            sources.push(String::from_str(t));
            assert(string_texts(sources@) =~= string_texts(before).push(t@));
            assert(string_texts(sources@).drop_last() =~= string_texts(before));
            if starts_with(t, "http://") || starts_with(t, "https://") {
                image_url = Some(String::from_str(t));
            }
        }
        i = i + 1;
    }
    assert(images@.take(images@.len() as int) =~= images@);
    let image_source = if image_url.is_some() {
        String::from_str("url")
    } else {
        String::from_str("base64")
    };
    Ok(OcrJsonPlan { sources, image_source, image_url })
}

/// The `image_base64` of a JSON OCR response: when the first image of the plan
/// is a link, the base64 text of its downloaded bytes `body`; for any other
/// image (`index` is the position in `plan.sources`), none.
pub fn link_preview(plan: &OcrJsonPlan, index: usize, body: &[u8]) -> (r: Option<String>)
    requires
        body@.len() <= MAX_DOWNLOAD_BYTES,
    ensures
        r is Some <==> (index == 0 && plan.sources@.len() > 0 && is_url_text(plan.sources@[0]@)),
        r matches Some(t) ==> t@ == base64_standard_encoding(body@),
{
    if index == 0 && plan.sources.len() > 0 {
        let first = plan.sources[0].as_str();
        if starts_with(first, "http://") || starts_with(first, "https://") {
            return Some(preview_base64(body));
        }
    }
    None
}

/// How a structure request for the image string `image` is logged: as a link
/// (with the string as the link) when it starts with `http://` or `https://`
/// as given, else as base64.
pub fn structure_image_origin(image: &str) -> (r: (String, Option<String>))
    ensures
        is_url_text(image@) ==> r.0@ == "url"@ && opt_string_text(r.1) == Some(image@),
        !is_url_text(image@) ==> r.0@ == "base64"@ && r.1 is None,
{
    if starts_with(image, "http://") || starts_with(image, "https://") {
        (String::from_str("url"), Some(String::from_str(image)))
    } else {
        (String::from_str("base64"), None)
    }
}

/// Layout labels reported as chart elements.
pub open spec fn is_chart_label_text(label: Seq<char>) -> bool {
    label == "chart"@ || label == "chart_title"@ || label == "figure_title"@ || label == "flowchart"@
}

/// Whether a layout element with this label is a chart element.
pub fn is_chart_label(label: &Option<String>) -> (r: bool)
    ensures
        r == match label {
            Some(l) => is_chart_label_text(l@),
            None => false,
        },
{
    match label {
        Some(l) => {
            let l = l.as_str();
            str_equals(l, "chart") || str_equals(l, "chart_title") || str_equals(l, "figure_title")
                || str_equals(l, "flowchart")
        },
        None => false,
    }
}

/// Positions, in order, of the layout elements whose label is a chart label.
pub open spec fn chart_positions(labels: Seq<Option<String>>) -> Seq<usize>
    decreases labels.len(),
{
    if labels.len() == 0 {
        Seq::empty()
    } else {
        let rest = chart_positions(labels.drop_last());
        match labels.last() {
            Some(l) => if is_chart_label_text(l@) {
                rest.push((labels.len() - 1) as usize)
            } else {
                rest
            },
            None => rest,
        }
    }
}

/// The layout element at position `k` is labelled `chart`, `chart_title`,
/// `figure_title` or `flowchart`.
pub open spec fn is_chart_element(labels: Seq<Option<String>>, k: int) -> bool {
    0 <= k < labels.len() && match labels[k] {
        Some(l) => l@ == "chart"@ || l@ == "chart_title"@ || l@ == "figure_title"@ || l@ == "flowchart"@,
        None => false,
    }
}

/// A label is a chart label exactly when it is `chart`, `chart_title`,
/// `figure_title` or `flowchart`; any other label (such as `image` or `table`)
/// is not.
pub proof fn lemma_chart_labels(label: Seq<char>)
    ensures
        is_chart_label_text(label) <==> (label == "chart"@ || label == "chart_title"@ || label
            == "figure_title"@ || label == "flowchart"@),
{
}

/// The chart elements selected from a layout are, in increasing order, exactly
/// the positions whose label is `chart`, `chart_title`, `figure_title` or
/// `flowchart`: no other element is selected and none of these is left out.
pub proof fn lemma_chart_positions_select(labels: Seq<Option<String>>)
    requires
        labels.len() <= usize::MAX,
    ensures
        ({
            let r = chart_positions(labels);
            &&& forall|i: int| 0 <= i < r.len() ==> is_chart_element(labels, #[trigger] r[i] as int)
            &&& forall|i: int, j: int| 0 <= i < j < r.len() ==> r[i] < r[j]
            &&& forall|k: int| is_chart_element(labels, k) ==> exists|i: int|
                0 <= i < r.len() && #[trigger] r[i] as int == k
        }),
    decreases labels.len(),
{
    if labels.len() > 0 {
        let prev = labels.drop_last();
        let rest = chart_positions(prev);
        let r = chart_positions(labels);
        let n = labels.len() - 1;
        lemma_chart_positions_select(prev);
        assert forall|i: int| 0 <= i < rest.len() implies (rest[i] as int) < n && is_chart_element(labels, rest[i] as int) by {
            assert(is_chart_element(prev, rest[i] as int));
            assert(labels[rest[i] as int] == prev[rest[i] as int]);
        }
        assert forall|k: int| is_chart_element(labels, k) implies exists|i: int|
            0 <= i < r.len() && #[trigger] r[i] as int == k by {
            if k < n {
                assert(prev[k] == labels[k]);
                assert(is_chart_element(prev, k));
                let i = choose|i: int| 0 <= i < rest.len() && #[trigger] rest[i] as int == k;
                assert(r[i] == rest[i]);
            } else {
                assert(r.len() == rest.len() + 1);
                assert(r[rest.len() as int] as int == k);
            }
        }
    }
}

/// Selects, in order, the layout elements that are chart elements.
pub fn chart_element_indices(labels: &Vec<Option<String>>) -> (r: Vec<usize>)
    ensures
        r@ == chart_positions(labels@),
{
    let mut r: Vec<usize> = Vec::new();
    let mut i: usize = 0;
    while i < labels.len()
        invariant
            0 <= i <= labels@.len(),
            r@ == chart_positions(labels@.take(i as int)),
        decreases labels@.len() - i,
    {
        assert(labels@.take(i + 1).drop_last() =~= labels@.take(i as int));
        if is_chart_label(&labels[i]) {
            r.push(i);
        }
        i = i + 1;
    }
    assert(labels@.take(labels@.len() as int) =~= labels@);
    r
}

/// State of the on-demand structure engine.
pub enum StructureEngineState {
    Loaded,
    NotLoaded,
    /// In use by a request.
    Busy,
}

/// Status label of the structure engine in the health report.
pub open spec fn structure_status_text(state: StructureEngineState) -> Seq<char> {
    match state {
        StructureEngineState::Loaded => "loaded"@,
        StructureEngineState::NotLoaded => "not_loaded"@,
        StructureEngineState::Busy => "busy"@,
    }
}

/// Model of the text OCR engine.
pub open spec fn ocr_model_text() -> Seq<char> {
    "PP-OCRv6 small"@
}

/// Models of the structure engine.
pub open spec fn structure_model_text() -> Seq<char> {
    "PP-DocLayout_plus-L + SLANet_plus + PP-FormulaNet_plus-S"@
}

/// The health report of a service of version `version`, up for `uptime_secs`
/// seconds, whose structure engine is in state `structure`.
pub fn health_response(version: &str, uptime_secs: u64, structure: StructureEngineState, auth_enabled: bool) -> (r: HealthResponse)
    ensures
        r.status@ == "ok"@,
        r.version@ == version@,
        r.uptime_secs == uptime_secs,
        r.engines.ocr.status@ == "ready"@,
        r.engines.ocr.model@ == ocr_model_text(),
        r.engines.structure.status@ == structure_status_text(structure),
        r.engines.structure.model@ == structure_model_text(),
        r.engines.auth_enabled == Some(auth_enabled),
{
    let structure_status = match structure {
        StructureEngineState::Loaded => String::from_str("loaded"),
        StructureEngineState::NotLoaded => String::from_str("not_loaded"),
        StructureEngineState::Busy => String::from_str("busy"),
    };
    HealthResponse {
        status: String::from_str("ok"),
        version: String::from_str(version),
        uptime_secs,
        engines: HealthEngines {
            ocr: EngineStatus {
                status: String::from_str("ready"),
                model: String::from_str("PP-OCRv6 small"),
            },
            structure: EngineStatus {
                status: structure_status,
                model: String::from_str("PP-DocLayout_plus-L + SLANet_plus + PP-FormulaNet_plus-S"),
            },
            auth_enabled: Some(auth_enabled),
        },
    }
}

} // verus!
