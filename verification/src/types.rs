//! Request and health-report types of the HTTP API.
use vstd::prelude::*;

verus! {

/// Body of a JSON OCR request: each entry is a base64 image (bare or as a
/// `data:` URL) or an `http(s)://` image link.
pub struct OcrRequest {
    pub images: Vec<String>,
}

/// State of one recognition engine.
pub struct EngineStatus {
    pub status: String,
    pub model: String,
}

/// Detailed health report.
pub struct HealthResponse {
    pub status: String,
    pub version: String,
    pub uptime_secs: u64,
    pub engines: HealthEngines,
}

/// Engine part of the health report.
pub struct HealthEngines {
    pub ocr: EngineStatus,
    pub structure: EngineStatus,
    pub auth_enabled: Option<bool>,
}

} // verus!
