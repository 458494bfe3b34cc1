//! Inspiration search across design sites: request building, answer
//! extraction and download bookkeeping, each with a verified contract.
pub mod commands;
pub mod downloader;
pub mod encode;
pub mod html;
pub mod json;
pub mod model;
pub mod sources;
pub mod text;
