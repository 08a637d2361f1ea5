//! The options of a run, and what a run does with them.
use vstd::prelude::*;

verus! {

/// The options of a run.
pub struct Opt {
    /// Only check the format of the file.
    pub format_only: bool,
    /// The answer file.
    pub standard: Option<String>,
    /// Apply the strict format.
    pub strict: bool,
    /// The file to check.
    pub file: String,
}

/// What a run does.
#[derive(Clone, Copy, Debug, PartialEq, Eq, Structural)]
pub enum Plan {
    /// Neither the format-only flag nor an answer file: a usage error, before any parsing.
    MissingAnswer,
    /// Parse the file alone; `ignored_answer` says an answer file was given and is not read.
    FormatOnly { ignored_answer: bool },
    /// Parse the file and the answer file, and compare them.
    Compare,
}

/// The plan for the given flags: format-only wins over an answer file.
pub open spec fn plan_of(format_only: bool, has_answer: bool) -> Plan {
    if format_only {
        Plan::FormatOnly { ignored_answer: has_answer }
    } else if has_answer {
        Plan::Compare
    } else {
        Plan::MissingAnswer
    }
}

impl Opt {
    /// Decides what the run does. In format-only mode the answer file is never
    /// needed nor read, whether or not one is given.
    pub fn plan(&self) -> (r: Plan)
        ensures
            r == plan_of(self.format_only, self.standard is Some),
            self.format_only ==> r != Plan::Compare && r != Plan::MissingAnswer,
    {
        let has_answer = match &self.standard {
            Some(_) => true,
            None => false,
        };
        if self.format_only {
            Plan::FormatOnly { ignored_answer: has_answer }
        } else if has_answer {
            Plan::Compare
        } else {
            Plan::MissingAnswer
        }
    }
}

} // verus!
