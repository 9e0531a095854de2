//! The settings of one run.

use crate::output::OutputMode;
use crate::text::opt_view;
use vstd::prelude::*;

verus! {

/// Failures within the window that raise a brute-force alert, unless set.
pub const DEFAULT_BRUTE_THRESHOLD: usize = 8;

/// Length of the brute-force window in seconds, unless set.
pub const DEFAULT_BRUTE_WINDOW_SECS: i64 = 60;

/// The settings of one run, as given on the command line.
#[derive(Debug, Clone)]
pub struct Args {
    /// Path to a log file.
    pub file: Option<String>,
    /// Read from standard input.
    pub stdin: bool,
    /// Keep reading the file as it grows.
    pub follow: bool,
    /// Show alerts as JSON records, one on each line.
    pub json: bool,
    /// Show a summary at the end.
    pub summary: bool,
    /// Failures within the window that raise a brute-force alert.
    pub brute_threshold: usize,
    /// Length of the brute-force window in seconds.
    pub brute_window_secs: i64,
}

/// What is wrong with the settings of a run.
#[derive(Debug, Clone, Copy, PartialEq, Eq, Structural)]
pub enum ConfigError {
    /// The brute-force threshold is zero.
    ThresholdNotPositive,
    /// The brute-force window is zero or negative.
    WindowNotPositive,
    /// Neither a file nor standard input was chosen as the source of lines.
    MissingInput,
}

impl ConfigError {
    /// What to tell the user.
    pub fn message(&self) -> (r: &'static str)
        ensures
            r@ == match *self {
                ConfigError::ThresholdNotPositive => "The brute-force threshold must be positive"@,
                ConfigError::WindowNotPositive => "The brute-force window must be positive"@,
                ConfigError::MissingInput => "Provide --file <path> or --stdin"@,
            },
    {
        match self {
            ConfigError::ThresholdNotPositive => "The brute-force threshold must be positive",
            ConfigError::WindowNotPositive => "The brute-force window must be positive",
            ConfigError::MissingInput => "Provide --file <path> or --stdin",
        }
    }
}

impl Args {
    /// What is wrong with the settings, if anything: the first of a threshold
    /// of zero, a window that is not positive, and no source of lines.
    pub open spec fn fault(self) -> Option<ConfigError> {
        if self.brute_threshold < 1 {
            Some(ConfigError::ThresholdNotPositive)
        } else if self.brute_window_secs < 1 {
            Some(ConfigError::WindowNotPositive)
        } else if !self.stdin && self.file is None {
            Some(ConfigError::MissingInput)
        } else {
            None
        }
    }

    /// Checks the settings before anything is read.
    pub fn validate(&self) -> (r: Result<(), ConfigError>)
        ensures
            r == match self.fault() {
                Some(e) => Err::<(), ConfigError>(e),
                None => Ok(()),
            },
    {
        if self.brute_threshold < 1 {
            Err(ConfigError::ThresholdNotPositive)
        } else if self.brute_window_secs < 1 {
            Err(ConfigError::WindowNotPositive)
        } else if !self.stdin && self.file.is_none() {
            Err(ConfigError::MissingInput)
        } else {
            Ok(())
        }
    }

    /// How alerts are to be shown.
    pub fn output_mode(&self) -> (mode: OutputMode)
        ensures
            mode == if self.json {
                OutputMode::Jsonl
            } else {
                OutputMode::Pretty
            },
    {
        if self.json {
            OutputMode::Jsonl
        } else {
            OutputMode::Pretty
        }
    }
}

} // verus!
