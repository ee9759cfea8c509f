//! What the console log is written with: severities and their colors.

pub mod log_color;
pub mod log_severity;
