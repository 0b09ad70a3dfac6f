//! The course of one recognition request after its token check: what it has
//! recorded for the log, whether it holds the on-demand structure engine, and
//! how it ends — with exactly one log entry, and the engine released whenever
//! it was loaded.
use vstd::prelude::*;
use crate::error::AppError;
use crate::logger::OcrLogEntry;
use crate::routes::{log_ocr_request, opt_string_text, opt_text, timestamp_text};

verus! {

/// What a request has recorded so far.
pub struct RequestTracker {
    /// `"ocr"` or `"structure"`.
    pub request_type: String,
    /// `"upload"`, `"base64"` or `"url"`.
    pub image_source: String,
    pub image_url: Option<String>,
    pub image_size: u64,
    pub result_count: usize,
    pub text_length: usize,
    /// The request has loaded (or reused) the structure engine.
    pub engine_loaded: bool,
}

/// How a request ends: the entry to log and whether to release the structure engine.
pub struct RequestEnd {
    pub entry: OcrLogEntry,
    pub release_engine: bool,
}

/// The tracker keeps everything but `image_source` and `image_url` from `old`.
pub open spec fn same_except_source(old: RequestTracker, new: RequestTracker) -> bool {
    &&& new.request_type@ == old.request_type@
    &&& new.image_size == old.image_size
    &&& new.result_count == old.result_count
    &&& new.text_length == old.text_length
    &&& new.engine_loaded == old.engine_loaded
}

/// The tracker keeps its request type, source and link from `old`.
pub open spec fn same_origin(old: RequestTracker, new: RequestTracker) -> bool {
    &&& new.request_type@ == old.request_type@
    &&& new.image_source@ == old.image_source@
    &&& opt_string_text(new.image_url) == opt_string_text(old.image_url)
}

impl RequestTracker {
    /// A request of type `request_type` whose images come from `image_source`,
    /// with nothing recorded yet.
    pub fn start(request_type: &str, image_source: &str) -> (t: RequestTracker)
        ensures
            t.request_type@ == request_type@,
            t.image_source@ == image_source@,
            t.image_url is None,
            t.image_size == 0,
            t.result_count == 0,
            t.text_length == 0,
            !t.engine_loaded,
    {
        RequestTracker {
            request_type: String::from_str(request_type),
            image_source: String::from_str(image_source),
            image_url: None,
            image_size: 0,
            result_count: 0,
            text_length: 0,
            engine_loaded: false,
        }
    }

    /// Records where the request's images come from.
    pub fn set_source(&mut self, image_source: &str, image_url: Option<&str>)
        ensures
            final(self).image_source@ == image_source@,
            opt_string_text(final(self).image_url) == opt_text(image_url),
            same_except_source(*old(self), *final(self)),
    {
        self.image_source = String::from_str(image_source);
        self.image_url = match image_url {
            Some(u) => Some(String::from_str(u)),
            None => None,
        };
    }

    /// Records the size in bytes of the request's image.
    pub fn set_image_size(&mut self, size: u64)
        ensures
            final(self).image_size == size,
            same_origin(*old(self), *final(self)),
            final(self).result_count == old(self).result_count,
            final(self).text_length == old(self).text_length,
            final(self).engine_loaded == old(self).engine_loaded,
    {
        self.image_size = size;
    }

    /// Records a decoded `width` x `height` image, counted as three bytes per pixel.
    pub fn add_image(&mut self, width: u32, height: u32)
        requires
            old(self).image_size + width * height * 3 <= u64::MAX,
        ensures
            final(self).image_size == old(self).image_size + width * height * 3,
            same_origin(*old(self), *final(self)),
            final(self).result_count == old(self).result_count,
            final(self).text_length == old(self).text_length,
            final(self).engine_loaded == old(self).engine_loaded,
    {
        self.image_size = crate::images::add_estimated_image_size(self.image_size, width, height);
    }

    /// Records what recognition produced: the number of results and the length
    /// of their text.
    pub fn set_results(&mut self, result_count: usize, text_length: usize)
        ensures
            final(self).result_count == result_count,
            final(self).text_length == text_length,
            same_origin(*old(self), *final(self)),
            final(self).image_size == old(self).image_size,
            final(self).engine_loaded == old(self).engine_loaded,
    {
        self.result_count = result_count;
        self.text_length = text_length;
    }

    /// Records that the request holds the structure engine.
    pub fn engine_acquired(&mut self)
        ensures
            final(self).engine_loaded,
            same_origin(*old(self), *final(self)),
            final(self).image_size == old(self).image_size,
            final(self).result_count == old(self).result_count,
            final(self).text_length == old(self).text_length,
    {
        self.engine_loaded = true;
    }

    /// Ends the request at time `now_secs` after `duration_ms`, failed with
    /// `error` or successful: one log entry with what was recorded, status
    /// `"error"` and the client message of the error on failure, `"success"`
    /// otherwise; the structure engine is released exactly when it was loaded.
    pub fn finish(self, now_secs: u64, duration_ms: u64, error: Option<&AppError>) -> (end: RequestEnd)
        ensures
            end.release_engine == self.engine_loaded,
            end.entry.timestamp@ == timestamp_text(now_secs as nat),
            end.entry.request_type@ == self.request_type@,
            end.entry.image_source@ == self.image_source@,
            opt_string_text(end.entry.image_url) == opt_string_text(self.image_url),
            end.entry.image_size_bytes == self.image_size,
            end.entry.result_count == self.result_count,
            end.entry.total_text_length == self.text_length,
            end.entry.duration_ms == duration_ms,
            match error {
                None => end.entry.status@ == "success"@ && end.entry.error_message is None,
                Some(e) => end.entry.status@ == "error"@ && opt_string_text(end.entry.error_message)
                    == Some(e.client_message_of()),
            },
    {
        let url: Option<&str> = match &self.image_url {
            Some(u) => Some(u.as_str()),
            None => None,
        };
        let entry = match error {
            None => log_ocr_request(
                now_secs,
                self.request_type.as_str(),
                self.image_source.as_str(),
                url,
                self.image_size,
                self.result_count,
                self.text_length,
                duration_ms,
                "success",
                None,
            ),
            Some(e) => {
                let message = e.client_message();
                log_ocr_request(
                    now_secs,
                    self.request_type.as_str(),
                    self.image_source.as_str(),
                    url,
                    self.image_size,
                    self.result_count,
                    self.text_length,
                    duration_ms,
                    "error",
                    Some(message.as_str()),
                )
            },
        };
        RequestEnd { entry, release_engine: self.engine_loaded }
    }
}

} // verus!
