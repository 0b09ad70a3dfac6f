//! OCR request log: the entry written for each request, the logger settings,
//! the daily log file names and the retention rule for old files.
use vstd::prelude::*;
use crate::calendar::{
    civil_from_days, date_of_day, lemma_civil_total, lemma_date_offset_in_year,
    lemma_days_before_next_year, lemma_days_before_year_monotone,
};
use crate::text::{append_zero_padded, decimal_text, parse_u64, parse_u64_text, str_equals, zero_padded};

verus! {

/// Seconds in a day.
pub const SECS_PER_DAY: u64 = 86400;

/// Log directory used when none is configured.
pub open spec fn default_log_dir() -> Seq<char> {
    "./logs"@
}

/// Retention period, in days, used when none (or no valid number) is configured.
pub const DEFAULT_RETENTION_DAYS: u64 = 30;

/// `YYYY-MM-DD` for the date `(y, m, d)`, each field zero-padded (a year of more
/// than four digits is written in full).
pub open spec fn date_text(y: int, m: int, d: int) -> Seq<char> {
    zero_padded(y as nat, 4) + seq!['-'] + zero_padded(m as nat, 2) + seq!['-'] + zero_padded(
        d as nat,
        2,
    )
}

/// The UTC date, as `YYYY-MM-DD`, of the instant `secs` seconds after the Unix epoch.
pub open spec fn today_text(secs: nat) -> Seq<char> {
    let date = date_of_day((secs / 86400) as int);
    date_text(date.0, date.1, date.2)
}

/// Name of the log file that collects the entries of the day `today`.
pub open spec fn log_file_name_text(today: Seq<char>) -> Seq<char> {
    "ocr-"@ + today + ".jsonl"@
}

/// Days from 1970-01-01 on fall in 1970 or later.
pub proof fn lemma_year_after_epoch(days: int)
    requires
        days >= 0,
    ensures
        date_of_day(days).0 >= 1970,
        days < 2932897 ==> date_of_day(days).0 <= 9999,
{
    let (y, m, d) = lemma_civil_total(days);
    if y < 1970 {
        lemma_days_before_next_year(y);
        lemma_days_before_year_monotone(y + 1, 1970);
        lemma_date_offset_in_year(y, m, d);
    }
    if days < 2932897 && y > 9999 {
        lemma_days_before_year_monotone(10000, y);
        lemma_date_offset_in_year(y, m, d);
    }
}

/// Appends `YYYY-MM-DD` for the date `(y, m, d)`.
pub fn append_date(out: &mut String, y: u64, m: u32, d: u32)
    ensures
        final(out)@ == old(out)@ + date_text(y as int, m as int, d as int),
{
    proof {
        reveal_strlit("-");
    }
    append_zero_padded(out, y, 4);
    out.append("-");
    append_zero_padded(out, m as u64, 2);
    out.append("-");
    append_zero_padded(out, d as u64, 2);
    assert(final(out)@ =~= old(out)@ + date_text(y as int, m as int, d as int));
}

/// Today's date as `YYYY-MM-DD`, for the current time `now_secs` in seconds
/// since the Unix epoch.
pub fn today_str(now_secs: u64) -> (s: String)
    ensures
        s@ == today_text(now_secs as nat),
{
    let days = now_secs / SECS_PER_DAY;
    let (y, m, d) = civil_from_days(days as i64);
    proof {
        lemma_year_after_epoch(days as int);
    }
    let mut s = String::new();
    append_date(&mut s, y as u64, m, d);
    s
}

/// Until the year 10000, today's date is ten characters long, with dashes at
/// positions 4 and 7.
pub proof fn lemma_today_text_shape(secs: nat)
    requires
        secs < 253402300800,
    ensures
        today_text(secs).len() == 10,
        today_text(secs)[4] == '-',
        today_text(secs)[7] == '-',
{
    let days = secs / 86400;
    lemma_year_after_epoch(days as int);
    let date = lemma_civil_total(days as int);
    lemma_zero_padded_exact(date.0 as nat, 4);
    lemma_zero_padded_exact(date.1 as nat, 2);
    lemma_zero_padded_exact(date.2 as nat, 2);
}

/// A number with at most `width` digits (here `width <= 4`) fills exactly `width`
/// characters once zero-padded.
pub proof fn lemma_zero_padded_exact(n: nat, width: nat)
    requires
        1 <= width <= 4,
        width == 1 ==> n < 10,
        width == 2 ==> n < 100,
        width == 3 ==> n < 1000,
        width == 4 ==> n < 10000,
    ensures
        zero_padded(n, width).len() == width,
{
    reveal_with_fuel(decimal_text, 5);
}

/// The file name `ocr-<today>.jsonl` of the log of day `today`.
pub fn log_file_name(today: &str) -> (name: String)
    ensures
        name@ == log_file_name_text(today@),
{
    let mut name = String::from_str("ocr-");
    name.append(today);
    name.append(".jsonl");
    name
}

/// One logged OCR or structure request.
pub struct OcrLogEntry {
    pub timestamp: String,
    /// `"ocr"` or `"structure"`.
    pub request_type: String,
    /// `"upload"`, `"base64"` or `"url"`.
    pub image_source: String,
    pub image_url: Option<String>,
    pub image_size_bytes: u64,
    pub result_count: usize,
    pub total_text_length: usize,
    pub duration_ms: u64,
    /// `"success"` or `"error"`.
    pub status: String,
    pub error_message: Option<String>,
}

/// Logger settings: where the daily log files go and how long they are kept.
pub struct OcrLogger {
    pub log_dir: String,
    pub retention_days: u64,
}

impl OcrLogger {
    /// Settings from the values of `LOG_DIR` and `LOG_RETENTION_DAYS` (`None` when
    /// unset): the directory defaults to `./logs`, the retention to 30 days when
    /// unset or not a number.
    pub fn from_env(log_dir: Option<String>, retention_days: Option<String>) -> (logger: OcrLogger)
        ensures
            logger.log_dir@ == match log_dir {
                Some(dir) => dir@,
                None => default_log_dir(),
            },
            logger.retention_days == match retention_days {
                Some(text) => match parse_u64_text(text@) {
                    Some(n) => n,
                    None => DEFAULT_RETENTION_DAYS,
                },
                None => DEFAULT_RETENTION_DAYS,
            },
    {
        let dir = match log_dir {
            Some(dir) => dir,
            None => String::from_str("./logs"),
        };
        let days = match retention_days {
            Some(text) => match parse_u64(text.as_str()) {
                Some(n) => n,
                None => DEFAULT_RETENTION_DAYS,
            },
            None => DEFAULT_RETENTION_DAYS,
        };
        OcrLogger { log_dir: dir, retention_days: days }
    }

    /// Files last modified before this instant (seconds since the Unix epoch) are
    /// expired: `now_secs` minus the retention period, or `None` when that lies
    /// before the epoch (then nothing is removed).
    pub fn cleanup_cutoff(&self, now_secs: u64) -> (cutoff: Option<u64>)
        requires
            self.retention_days * 86400 <= u64::MAX,
        ensures
            cutoff == if now_secs >= self.retention_days * 86400 {
                Some((now_secs - self.retention_days * 86400) as u64)
            } else {
                None::<u64>
            },
    {
        let retention = self.retention_days * SECS_PER_DAY;
        if now_secs >= retention {
            Some(now_secs - retention)
        } else {
            None
        }
    }
}

/// A directory entry with this extension and modification time (seconds since
/// the Unix epoch) is a log file that expired before `cutoff`.
pub open spec fn is_expired_log_file(extension: Option<&str>, modified_secs: Option<u64>, cutoff: u64) -> bool {
    match (extension, modified_secs) {
        (Some(ext), Some(t)) => ext@ == "jsonl"@ && t < cutoff,
        _ => false,
    }
}

/// Only files with the extension `jsonl` are ever removed: an entry with any
/// other extension, or none, or with an unknown modification time is kept; a
/// `jsonl` file is removed exactly when it was modified before the cutoff.
pub proof fn lemma_only_old_jsonl_removed(extension: Option<&str>, modified_secs: Option<u64>, cutoff: u64)
    ensures
        is_expired_log_file(extension, modified_secs, cutoff) ==> (extension matches Some(e) && e@
            == "jsonl"@),
        is_expired_log_file(extension, modified_secs, cutoff) ==> (modified_secs matches Some(t) && t
            < cutoff),
        (extension matches Some(e) && (e@ == "jsonl"@ && (modified_secs matches Some(t) && t
            < cutoff))) ==> is_expired_log_file(extension, modified_secs, cutoff),
{
}

/// Whether a directory entry is an expired log file: its extension is `jsonl`
/// and it was last modified (in seconds since the Unix epoch) before `cutoff`.
/// An entry whose modification time is unknown is kept.
pub fn should_remove_log_file(extension: Option<&str>, modified_secs: Option<u64>, cutoff: u64) -> (remove: bool)
    ensures
        remove == is_expired_log_file(extension, modified_secs, cutoff),
{
    match extension {
        Some(ext) => {
            if !str_equals(ext, "jsonl") {
                return false;
            }
        },
        None => {
            return false;
        },
    }
    match modified_secs {
        Some(t) => t < cutoff,
        None => false,
    }
}

} // verus!
