use crate::logger::log_color::LogColor;
use vstd::prelude::*;
use vstd::string::StringExecFns;

verus! {

/// [`LogSeverity`] represents different levels of logging severity.
#[derive(Debug, Clone, Copy, PartialEq, Eq, PartialOrd)]
pub enum LogSeverity {
    /// [`LogSeverity::Debug`] will display all logs, regardless of severity.
    Debug,
    /// [`LogSeverity::Info`] will display any info, warning, and error logs.
    Info,
    /// [`LogSeverity::Warning`] will display warning and error logs.
    Warning,
    /// [`LogSeverity::Error`] will display only error logs.
    Error,
}

impl LogSeverity {
    /// The color that logs of the severity are shown in.
    pub open spec fn color(self) -> LogColor {
        match self {
            LogSeverity::Debug => LogColor::BrightGreen,
            LogSeverity::Info => LogColor::BrightBlue,
            LogSeverity::Warning => LogColor::BrightYellow,
            LogSeverity::Error => LogColor::BrightRed,
        }
    }

    /// The word that logs of the severity are marked with.
    pub open spec fn label(self) -> Seq<char> {
        match self {
            LogSeverity::Debug => "debug"@,
            LogSeverity::Info => "info"@,
            LogSeverity::Warning => "warn"@,
            LogSeverity::Error => "error"@,
        }
    }

    /// [`LogSeverity::get_color`] returns a [`LogColor`] for the
    /// [`LogSeverity`] that calls it.
    pub fn get_color(&self) -> (r: LogColor)
        ensures
            r == self.color(),
    {
        match self {
            LogSeverity::Debug => LogColor::BrightGreen,
            LogSeverity::Info => LogColor::BrightBlue,
            LogSeverity::Warning => LogColor::BrightYellow,
            LogSeverity::Error => LogColor::BrightRed,
        }
    }

    /// The word that logs of the severity are marked with.
    pub fn to_string(&self) -> (r: String)
        ensures
            r@ == self.label(),
    {
        match self {
            LogSeverity::Debug => String::from_str("debug"),
            LogSeverity::Info => String::from_str("info"),
            LogSeverity::Warning => String::from_str("warn"),
            LogSeverity::Error => String::from_str("error"),
        }
    }
}

} // verus!
