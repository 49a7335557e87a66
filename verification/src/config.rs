//! The configuration of a run: which process, and how often. It is made of
//! the texts that the command line gives, and a text that is no number is
//! turned down before any engine exists.

use vstd::prelude::*;
use vstd::string::StringSliceAdditionalSpecFns;
use crate::parse::{parse_u64, spec_parse_u64};
use crate::sampler::{Sampler, SamplerState, DEFAULT_PERIOD_MS};

verus! {

/// Why there is no configuration.
#[derive(Clone, Copy, Debug, PartialEq, Eq)]
pub enum ConfigError {
    /// No process id was given.
    MissingPid,
    /// The process id is no number, or no id that a process can have.
    InvalidPid,
    /// The period is no number.
    InvalidPeriod,
}

/// What to sample: the process, and the period in milliseconds.
#[derive(Clone, Copy, Debug, PartialEq, Eq)]
pub struct Config {
    pub pid: i32,
    pub period: u64,
}

/// The process id that `bytes` stands for: a decimal number that fits a
/// process id.
pub open spec fn spec_parse_pid(bytes: Seq<u8>) -> Option<i32> {
    match spec_parse_u64(bytes) {
        Some(n) => if n <= i32::MAX {
            Some(n as i32)
        } else {
            None
        },
        None => None,
    }
}

/// The configuration that the texts stand for. The process id must be
/// there and be one; the period may be left out, and is then the default.
pub open spec fn spec_configure(pid: Option<Seq<u8>>, period: Option<Seq<u8>>) -> Result<
    Config,
    ConfigError,
> {
    match pid {
        None => Err(ConfigError::MissingPid),
        Some(pid_text) => match spec_parse_pid(pid_text) {
            None => Err(ConfigError::InvalidPid),
            Some(pid) => match period {
                None => Ok(Config { pid, period: DEFAULT_PERIOD_MS }),
                Some(period_text) => match spec_parse_u64(period_text) {
                    Some(period) => Ok(Config { pid, period }),
                    None => Err(ConfigError::InvalidPeriod),
                },
            },
        },
    }
}

/// The bytes of a text, where there is a text.
pub open spec fn spec_bytes_of(text: Option<&str>) -> Option<Seq<u8>> {
    match text {
        Some(t) => Some(t.spec_bytes()),
        None => None,
    }
}

/// Reads a process id.
pub fn parse_pid(text: &str) -> (pid: Option<i32>)
    ensures
        pid == spec_parse_pid(text.spec_bytes()),
{
    match parse_u64(text) {
        Some(n) => {
            if n <= i32::MAX as u64 {
                Some(n as i32)
            } else {
                None
            }
        },
        None => None,
    }
}

/// Makes the configuration of the texts that the command line gives for
/// the process id and for the period.
pub fn configure(pid: Option<&str>, period: Option<&str>) -> (config: Result<Config, ConfigError>)
    ensures
        config == spec_configure(spec_bytes_of(pid), spec_bytes_of(period)),
{
    let pid_text: &str = match pid {
        Some(t) => t,
        None => {
            return Err(ConfigError::MissingPid);
        },
    };
    let pid: i32 = match parse_pid(pid_text) {
        Some(p) => p,
        None => {
            return Err(ConfigError::InvalidPid);
        },
    };
    match period {
        None => Ok(Config { pid, period: DEFAULT_PERIOD_MS }),
        Some(period_text) => match parse_u64(period_text) {
            Some(period) => Ok(Config { pid, period }),
            None => Err(ConfigError::InvalidPeriod),
        },
    }
}

impl Config {
    /// The engine for this configuration.
    pub fn sampler(&self) -> (sampler: Sampler)
        ensures
            sampler@ == SamplerState::idle(self.pid, self.period),
    {
        Sampler::for_process_with_period(self.pid, self.period)
    }
}

} // verus!
