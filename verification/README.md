# oar-ocr-web (verified core)

The request-handling logic of an OCR web service compatible with the PaddleOCR
Serving API, written in Verus and proved against its contracts.

- `src/` — the verified library:
  - `calendar.rs` — proleptic Gregorian dates from day counts (`civil_from_days`),
    with the day-count model and its laws;
  - `text.rs` — decimal formatting and parsing, and the `str` operations used;
  - `logger.rs` — request log entries, daily file names, logger settings, the
    retention rule, and `today_str`;
  - `error.rs` — web-layer errors with their HTTP status and client message;
  - `images.rs` — image strings (links, `data:` URLs, bare base64), download
    checks, base64 and image decoding;
  - `routes.rs` — token checks, upload validation, JSON request planning,
    timestamps, chart selection and the health report;
  - `request.rs` — the course of a recognition request: what is logged when it
    ends (successful or failed) and when the structure engine is released;
  - `config.rs` — the `TOKEN` and `PORT` settings;
  - `types.rs` — request and health types.
- `app/` — the server: HTTP routing, network and file I/O, the recognition
  engines (whose results carry floating-point values), serde encodings.
- `tests/` — executable tests of the library.
