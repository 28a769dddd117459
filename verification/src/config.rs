//! The harness's mode of operation and the diagnostic level each mode asks
//! for. Reading the environment happens outside this library; the decisions
//! over what was read are made here.

use vstd::prelude::*;

verus! {

/// Mode of operation.
pub enum Mode {
    /// production mode
    Prod,
    /// development mode
    Dev,
    /// debug mode
    Debug,
    /// verbose mode
    Verbose,
}

/// Diagnostic levels, most severe first.
pub enum LogLevel {
    Warn,
    Info,
    Debug,
    Trace,
}

impl Mode {
    /// The human-readable label of this mode.
    pub fn label(&self) -> (r: String)
        ensures
            r@ == match *self {
                Mode::Prod => "production"@,
                Mode::Dev => "development"@,
                Mode::Debug => "debug"@,
                Mode::Verbose => "verbose"@,
            },
    {
        match self {
            Mode::Prod => String::from_str("production"),
            Mode::Dev => String::from_str("development"),
            Mode::Debug => String::from_str("debug"),
            Mode::Verbose => String::from_str("verbose"),
        }
    }

    /// The diagnostic level this mode asks for.
    pub fn level(&self) -> (l: LogLevel)
        ensures
            l == match *self {
                Mode::Prod => LogLevel::Warn,
                Mode::Dev => LogLevel::Info,
                Mode::Debug => LogLevel::Debug,
                Mode::Verbose => LogLevel::Trace,
            },
    {
        match self {
            Mode::Prod => LogLevel::Warn,
            Mode::Dev => LogLevel::Info,
            Mode::Debug => LogLevel::Debug,
            Mode::Verbose => LogLevel::Trace,
        }
    }
}

/// The mode a verbosity setting selects; a missing or unparsable setting
/// counts as verbosity 1.
pub fn mode_of_verbosity(setting: Option<u64>) -> (m: Mode)
    ensures
        m == match setting {
            Option::Some(0u64) => Mode::Prod,
            Option::None | Option::Some(1u64) => Mode::Dev,
            Option::Some(2u64) => Mode::Debug,
            Option::Some(_) => Mode::Verbose,
        },
{
    match setting {
        Option::None => Mode::Dev,
        Option::Some(v) => {
            if v == 0 {
                Mode::Prod
            } else if v == 1 {
                Mode::Dev
            } else if v == 2 {
                Mode::Debug
            } else {
                Mode::Verbose
            }
        },
    }
}

} // verus!
