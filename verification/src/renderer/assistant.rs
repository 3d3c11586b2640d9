//! The toast that reports errors and warnings.

use vstd::prelude::*;

verus! {

/// How many lines of a report are shown.
pub const MAX_VISIBLE_LINES: usize = 16;

/// How bad a report is.
#[derive(Clone, Copy, Debug, PartialEq, Eq, Structural)]
pub enum RioErrorLevel {
    Warning,
    Error,
}

/// A report for the user.
pub struct RioError {
    pub report: String,
    pub level: RioErrorLevel,
}

/// The toast, with the report that it shows.
pub struct AssistantOverlay {
    pub error: Option<RioError>,
}

impl Default for AssistantOverlay {
    fn default() -> (r: Self)
        ensures
            r.error is None,
    {
        AssistantOverlay { error: None }
    }
}

impl AssistantOverlay {
    pub fn is_active(&self) -> (r: bool)
        ensures
            r == self.error is Some,
    {
        self.error.is_some()
    }

    /// Whether the toast shows an error. Errors take the keyboard until they
    /// are dismissed; warnings never do.
    pub fn is_error(&self) -> (r: bool)
        ensures
            r == match self.error {
                Some(error) => error.level == RioErrorLevel::Error,
                None => false,
            },
    {
        match &self.error {
            Some(error) => error.level == RioErrorLevel::Error,
            None => false,
        }
    }

    pub fn set_error(&mut self, error: RioError)
        ensures
            final(self).error == Some(error),
    {
        self.error = Some(error);
    }

    pub fn set_warning(&mut self, report: String)
        ensures
            final(self).error == Some(RioError { report, level: RioErrorLevel::Warning }),
    {
        self.error = Some(RioError { report, level: RioErrorLevel::Warning });
    }

    pub fn clear(&mut self)
        ensures
            final(self).error is None,
    {
        self.error = None;
    }

    /// The heading of the toast, where it is shown.
    pub fn heading(&self) -> (r: Option<&'static str>)
        ensures
            match (self.error, r) {
                (None, None) => true,
                (Some(error), Some(heading)) => heading@ == (if error.level
                    == RioErrorLevel::Error {
                    "Error"@
                } else {
                    "Warning"@
                }),
                _ => false,
            },
    {
        match &self.error {
            None => None,
            Some(error) => Some(
                if error.level == RioErrorLevel::Error {
                    "Error"
                } else {
                    "Warning"
                },
            ),
        }
    }
}

/// How many of so many lines are shown.
pub fn visible_lines(count: usize) -> (r: usize)
    ensures
        r == if count < MAX_VISIBLE_LINES {
            count
        } else {
            MAX_VISIBLE_LINES
        },
{
    if count < MAX_VISIBLE_LINES {
        count
    } else {
        MAX_VISIBLE_LINES
    }
}

} // verus!
