//! Drive a headless browser to print a local HTML file as a PDF.
//!
//! The verified core of the crate is the option-mapping layer: parsing
//! paper-size names, margin strings and wait durations from the command
//! line, and assembling the print and launch settings handed to the
//! browser automation layer. All physical lengths are held as exact
//! fixed-point values in millionths of an inch, so that the parsers and
//! the mapping can be specified and proved without floating point.

use vstd::prelude::*;

pub mod margin;
pub mod num;
pub mod options;
pub mod paper;
pub mod paths;

pub use margin::Margin;
pub use options::{LaunchSettings, Options, PrintOptions};
pub use paper::PaperSize;

verus! {

/// Everything that can go wrong while preparing or running a print job.
#[derive(Debug)]
pub enum Error {
    /// The requested paper size is not one of the supported names.
    InvalidPaperSize {
        /// The rejected paper-size argument.
        size: String,
    },
    /// A margin string does not consist of 1, 2 or 4 values.
    InvalidMarginDefinition {
        /// The rejected margin argument.
        margin: String,
    },
    /// A margin value is not a representable non-negative decimal number.
    InvalidMarginValue(String),
    /// The browser automation layer reported a failure.
    HeadlessChromeError(String),
    /// Reading the input or writing the output failed.
    IoError(String),
}

impl Error {
    /// A human-readable account of the error.
    pub fn message(&self) -> (m: String)
        ensures
            m@ == match self {
                Error::InvalidPaperSize { size } => "Invalid paper size "@ + size@
                    + ", expected a value in A4, Letter, A3, Tabloid, A2, A1, A0, A5, A6"@,
                Error::InvalidMarginDefinition { margin } =>
                    "Invalid margin definition, expected 1, 2, or 4 value, got "@ + margin@,
                Error::InvalidMarginValue(value) => "Invalid margin value: "@ + value@,
                Error::HeadlessChromeError(detail) =>
                    "Oops, an error occurs with headless chrome: "@ + detail@,
                Error::IoError(detail) => detail@,
            },
    {
        match self {
            Error::InvalidPaperSize { size } => "Invalid paper size ".to_owned().concat(
                size.as_str(),
            ).concat(", expected a value in A4, Letter, A3, Tabloid, A2, A1, A0, A5, A6"),
            Error::InvalidMarginDefinition { margin } =>
                "Invalid margin definition, expected 1, 2, or 4 value, got ".to_owned().concat(
                margin.as_str(),
            ),
            Error::InvalidMarginValue(value) => "Invalid margin value: ".to_owned().concat(
                value.as_str(),
            ),
            Error::HeadlessChromeError(detail) =>
                "Oops, an error occurs with headless chrome: ".to_owned().concat(
                detail.as_str(),
            ),
            Error::IoError(detail) => detail.clone(),
        }
    }
}

} // verus!
