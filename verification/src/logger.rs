//! The output component: the branding prefix placed before diagnostic
//! lines, and indentation.  The prefix name is an explicit value threaded
//! through construction rather than process-wide state; colouring and the
//! actual printing happen outside the library.

use vstd::prelude::*;
use crate::text::spaces;

verus! {

/// Builds the text of the tool's log lines.
pub struct Logger {
    pub name: String,
}

impl Logger {
    /// A logger with the default branding name.
    pub fn new() -> (r: Logger)
        ensures
            r.name@ == "Devkit"@,
    {
        Logger { name: "Devkit".to_owned() }
    }

    /// Rebrands the prefix, normally with the configured project name.
    pub fn set_name(&mut self, value: &str)
        ensures
            final(self).name@ == value@,
    {
        self.name = value.to_owned();
    }

    /// The indentation put before nested listing lines: the requested
    /// number of spaces, five when unspecified.
    pub fn indent(times: Option<i32>) -> (r: String)
        requires
            match times {
                Some(t) => t >= 0,
                None => true,
            },
        ensures
            r@.len() == (match times {
                Some(t) => t as int,
                None => 5,
            }),
            forall|k: int| 0 <= k < r@.len() ==> r@[k] == ' ',
    {
        let n: i32 = match times {
            Some(t) => t,
            None => 5,
        };
        spaces(n as usize)
    }

    /// The prefix of an informational line.
    pub fn info_prefix(&self) -> (r: String)
        ensures
            r@ == self.name@ + ": "@,
    {
        self.name.clone().concat(": ")
    }

    /// The prefix of an error line; it differs from the informational one
    /// only in colour, which is applied outside the library.
    pub fn error_prefix(&self) -> (r: String)
        ensures
            r@ == self.name@ + ": "@,
    {
        self.name.clone().concat(": ")
    }
}

} // verus!
