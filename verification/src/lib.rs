//! Request handling logic of an OCR web service: calendar and timestamp
//! formatting, request validation, token checks and log bookkeeping.
pub mod calendar;
pub mod text;
pub mod logger;
pub mod error;
pub mod types;
pub mod images;
pub mod routes;
pub mod config;
pub mod request;
