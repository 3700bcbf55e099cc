//! Process-wide configuration, fixed when a session starts.
//!
//! The sampling rate is a binary64 number carried as its bit pattern; the
//! functions here read the pattern's sign, exponent and fraction directly.

use vstd::prelude::*;

verus! {

/// Number of distinct fraction patterns: 2^52.
pub const FRACTION_RANGE: u64 = 0x10_0000_0000_0000;

/// Bit pattern of the number one.
pub const ONE_BITS: u64 = 0x3FF0_0000_0000_0000;

/// The sign bit of a pattern is set.
pub open spec fn sign_set(bits: u64) -> bool {
    bits >= 0x8000_0000_0000_0000
}

/// The biased exponent of a pattern: its eleven bits below the sign.
pub open spec fn exponent_of(bits: u64) -> u64 {
    (bits / FRACTION_RANGE) % 2048
}

/// The fraction of a pattern: its low 52 bits.
pub open spec fn fraction_of(bits: u64) -> u64 {
    bits % FRACTION_RANGE
}

/// The pattern stands for a number greater than zero and at most one: the
/// sign is clear, the number is not zero, and either the exponent lies below
/// that of one or the pattern is that of one itself. Infinities and
/// not-a-number patterns have a larger exponent and fall outside.
pub open spec fn rate_in_range(bits: u64) -> bool {
    &&& !sign_set(bits)
    &&& (exponent_of(bits) > 0 || fraction_of(bits) > 0)
    &&& (exponent_of(bits) < 1023 || (exponent_of(bits) == 1023 && fraction_of(bits) == 0))
}

/// Decides whether a pattern stands for a number in the interval (0, 1].
pub fn rate_is_valid(bits: u64) -> (valid: bool)
    ensures
        valid == rate_in_range(bits),
{
    0 < bits && bits <= ONE_BITS
}

/// Why a configuration was refused.
#[derive(Clone, Copy, Debug, PartialEq, Eq)]
pub enum ConfigError {
    /// The sampling rate is not a number in the interval (0, 1].
    SampleRateOutOfRange,
    /// A queue or a batch could not hold a single record.
    InvalidLimits,
}

/// What a session is configured with.
pub struct Settings {
    base_url: Option<String>,
    sample_rate: Option<u64>,
    seed: Option<u64>,
}

/// A configuration as plain values.
pub struct SettingsView {
    pub base_url: Option<Seq<char>>,
    pub sample_rate: Option<u64>,
    pub seed: Option<u64>,
}

impl View for Settings {
    type V = SettingsView;

    closed spec fn view(&self) -> SettingsView {
        SettingsView {
            base_url: match self.base_url {
                Some(url) => Some(url@),
                None => None,
            },
            sample_rate: self.sample_rate,
            seed: self.seed,
        }
    }
}

/// A configuration is acceptable when its sampling rate, if it names one,
/// lies in the interval (0, 1].
pub open spec fn acceptable(settings: SettingsView) -> bool {
    match settings.sample_rate {
        Some(bits) => rate_in_range(bits),
        None => true,
    }
}

impl Settings {
    /// Holds the three options as given; nothing is checked here.
    pub fn new(base_url: Option<String>, sample_rate: Option<u64>, seed: Option<u64>) -> (settings:
        Settings)
        ensures
            settings@ == (SettingsView {
                base_url: match base_url {
                    Some(url) => Some(url@),
                    None => None,
                },
                sample_rate,
                seed,
            }),
    {
        Settings { base_url, sample_rate, seed }
    }

    /// Accepts the configuration or says what is wrong with it.
    pub fn validate(&self) -> (outcome: Result<(), ConfigError>)
        ensures
            outcome == (if acceptable(self@) {
                Ok::<(), ConfigError>(())
            } else {
                Err(ConfigError::SampleRateOutOfRange)
            }),
    {
        match self.sample_rate {
            Some(bits) => {
                if rate_is_valid(bits) {
                    Ok(())
                } else {
                    Err(ConfigError::SampleRateOutOfRange)
                }
            },
            None => Ok(()),
        }
    }

    /// The collector's endpoint, if one was named.
    pub fn base_url(&self) -> (url: &Option<String>)
        ensures
            match *url {
                Some(u) => self@.base_url == Some(u@),
                None => self@.base_url is None,
            },
    {
        &self.base_url
    }

    /// The sampling rate as a binary64 bit pattern, if one was named.
    pub fn sample_rate(&self) -> (rate: Option<u64>)
        ensures
            rate == self@.sample_rate,
    {
        self.sample_rate
    }

    /// The seed of the sampling stream, if one was named.
    pub fn seed(&self) -> (seed: Option<u64>)
        ensures
            seed == self@.seed,
    {
        self.seed
    }
}

} // verus!
