//! Quota-alert rules and Devin provider logic of the Pane usage monitor.

pub mod text;
pub mod metric_state;
pub mod alerts;
pub mod alert_laws;
pub mod refresh_laws;
pub mod pace;
pub mod seen_messages;
pub mod json;
pub mod devin;
pub mod devin_usage;
pub mod usage_cache;
