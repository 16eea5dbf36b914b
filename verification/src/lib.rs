//! Verified core of the OB Oraborus desktop assistant: the security gate,
//! command classification, audit redaction, model routing and the text rules
//! that the desktop shell relies on.

pub mod text;
pub mod error;
pub mod patterns;
pub mod models;
pub mod security;
pub mod json;
pub mod audit;
pub mod providers;
pub mod model_router;
pub mod digest;
pub mod web;
pub mod research;
pub mod terminal;
pub mod voice;
pub mod windows_control;
pub mod github;
pub mod api_registry;
pub mod tray;
pub mod secrets;
pub mod automation;
pub mod plugins;
pub mod browser;
pub mod files;
pub mod emotional_context;
pub mod documents;
pub mod vision;
pub mod db;
pub mod data_analysis;
