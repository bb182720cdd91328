//! Process-level configuration values: where to bind and where the
//! validator table lives. Reading the environment and probing the file
//! system stay outside the library; the values themselves live here.

use vstd::prelude::*;
use crate::text::{to_chars, chars_to_string};

verus! {

/// The settings the process starts with.
pub struct Settings {
    pub bind_address: String,
    pub validators_csv: String,
}

/// A failure while assembling the settings.
#[derive(Debug)]
pub enum ConfigError {
    MissingValidatorsCsv(String),
}

impl ConfigError {
    /// The human-readable form of the failure.
    pub fn message(&self) -> (r: String)
        ensures
            match self {
                ConfigError::MissingValidatorsCsv(p) => r@ == "validators csv file not found at "@
                    + p@,
            },
    {
        match self {
            ConfigError::MissingValidatorsCsv(p) => {
                let mut out = to_chars("validators csv file not found at ");
                out.extend_from_slice(to_chars(p.as_str()).as_slice());
                chars_to_string(&out)
            },
        }
    }
}

impl Settings {
    /// Assemble the settings from the optionally overridden values, with
    /// the defaults of the service.
    pub fn from_values(bind_address: Option<String>, validators_csv: Option<String>) -> (r: Settings)
        ensures
            r.bind_address@ == match bind_address {
                Some(b) => b@,
                None => "0.0.0.0:80"@,
            },
            r.validators_csv@ == match validators_csv {
                Some(p) => p@,
                None => "config/validators.csv"@,
            },
    {
        let bind = match bind_address {
            Some(b) => b,
            None => String::from_str("0.0.0.0:80"),
        };
        let csv_path = match validators_csv {
            Some(p) => p,
            None => String::from_str("config/validators.csv"),
        };
        Settings { bind_address: bind, validators_csv: csv_path }
    }
}

} // verus!
