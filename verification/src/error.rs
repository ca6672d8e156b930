//! The failure kinds of value resolution and color parsing. Every one of them
//! is fatal for a whole rendering run.

use vstd::prelude::*;

verus! {

/// A resolution failure: a malformed RGB token, an unknown color name, an
/// external program whose output was not text, or an absent environment
/// variable.
#[derive(Debug)]
pub enum Error {
    InvalidColor { token: String },
    UnknownColor { name: String },
    InvalidUtf8 { source: String },
    EnvNotFound { name: String },
}

impl Error {
    /// The single-line description of the failure, naming what offended.
    pub fn message(&self) -> (r: String)
        ensures
            match self {
                Error::InvalidColor { token } => r@ == "Invalid color `"@ + token@ + "`."@,
                Error::UnknownColor { name } => r@ == "Unknown color `"@ + name@
                    + "`, expected one of `red`, `green`, `yellow`, `blue`, `magenta`, `cyan`, `white`, `black`, `default`."@,
                Error::InvalidUtf8 { source } => r@ == "Invalid UTF8 was outputted by `"@ + source@
                    + "`."@,
                Error::EnvNotFound { name } => r@ == "Environment variable `"@ + name@
                    + "` was not found."@,
            },
    {
        match self {
            Error::InvalidColor { token } => {
                let mut r = String::from_str("Invalid color `");
                r.append(token.as_str());
                r.append("`.");
                r
            }
            Error::UnknownColor { name } => {
                let mut r = String::from_str("Unknown color `");
                r.append(name.as_str());
                r.append(
                    "`, expected one of `red`, `green`, `yellow`, `blue`, `magenta`, `cyan`, `white`, `black`, `default`.",
                );
                r
            }
            Error::InvalidUtf8 { source } => {
                let mut r = String::from_str("Invalid UTF8 was outputted by `");
                r.append(source.as_str());
                r.append("`.");
                r
            }
            Error::EnvNotFound { name } => {
                let mut r = String::from_str("Environment variable `");
                r.append(name.as_str());
                r.append("` was not found.");
                r
            }
        }
    }
}

} // verus!
