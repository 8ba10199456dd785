//! Live combat analytics for Ecliptica game logs: a verified log grammar,
//! round analysis, chat-box scheduling and template/configuration logic.
pub mod text;
pub mod log_protocol;
pub mod totals;
pub mod i18n;
pub mod analysis;
pub mod analyzer;
pub mod config;
pub mod osc;
pub mod runtime;
pub mod keyboard;
pub mod template;
pub mod log_reader;
pub mod ui_state;
pub mod heart_rate;
pub mod alerts;
