//! Errors reported while reading an SSH configuration: unknown entries,
//! unparseable lines, and failed include directives. Outside failures (I/O,
//! glob matching) are carried as their message text.

use vstd::prelude::*;

verus! {

/// A configuration entry whose keyword is not recognised.
#[derive(Debug)]
pub struct UnknownEntryError {
    pub line: String,
    pub entry: String,
}

impl UnknownEntryError {
    /// The human-readable text of this error.
    pub fn message(&self) -> (r: String)
        ensures
            r@ == "Unknown entry '"@ + self.entry@ + "' on line: "@ + self.line@,
    {
        let mut s = String::from_str("Unknown entry '");
        s.append(self.entry.as_str());
        s.append("' on line: ");
        s.append(self.line.as_str());
        s
    }
}

/// Why an include directive failed.
#[derive(Debug)]
pub enum InvalidIncludeErrorDetails {
    /// The include pattern is not a valid glob; the payload is the outside
    /// error's text.
    Pattern(String),
    /// Walking the glob failed; the payload is the outside error's text.
    Glob(String),
    /// Reading an included file failed; the payload is the outside error's
    /// text.
    Io(String),
    /// Host definitions were found inside a host block.
    HostsInsideHostBlock,
}

impl InvalidIncludeErrorDetails {
    /// The human-readable text of this error.
    pub fn message(&self) -> (r: String)
        ensures
            *self matches InvalidIncludeErrorDetails::Pattern(e) ==> r@
                == "Invalid glob pattern: "@ + e@,
            *self matches InvalidIncludeErrorDetails::Glob(e) ==> r@ == "Glob matching error: "@
                + e@,
            *self matches InvalidIncludeErrorDetails::Io(e) ==> r@
                == "IO error during include: "@ + e@,
            *self is HostsInsideHostBlock ==> r@
                == "Host definitions found inside host block (not allowed)"@,
    {
        match self {
            InvalidIncludeErrorDetails::Pattern(e) => {
                let mut s = String::from_str("Invalid glob pattern: ");
                s.append(e.as_str());
                s
            },
            InvalidIncludeErrorDetails::Glob(e) => {
                let mut s = String::from_str("Glob matching error: ");
                s.append(e.as_str());
                s
            },
            InvalidIncludeErrorDetails::Io(e) => {
                let mut s = String::from_str("IO error during include: ");
                s.append(e.as_str());
                s
            },
            InvalidIncludeErrorDetails::HostsInsideHostBlock => String::from_str(
                "Host definitions found inside host block (not allowed)",
            ),
        }
    }
}

/// An include directive that could not be carried out.
#[derive(Debug)]
pub struct InvalidIncludeError {
    pub line: String,
    pub details: InvalidIncludeErrorDetails,
}

impl InvalidIncludeError {
    /// The human-readable text of this error.
    pub fn message(&self) -> (r: String)
        ensures
            r@ == "Invalid include directive on line '"@ + self.line@ + "': "@ + ({
                let d = self.details.message_spec();
                d
            }),
    {
        let mut s = String::from_str("Invalid include directive on line '");
        s.append(self.line.as_str());
        s.append("': ");
        let d = self.details.message();
        s.append(d.as_str());
        s
    }
}

impl InvalidIncludeErrorDetails {
    /// The text [`Self::message`] yields.
    pub open spec fn message_spec(&self) -> Seq<char> {
        match self {
            InvalidIncludeErrorDetails::Pattern(e) => "Invalid glob pattern: "@ + e@,
            InvalidIncludeErrorDetails::Glob(e) => "Glob matching error: "@ + e@,
            InvalidIncludeErrorDetails::Io(e) => "IO error during include: "@ + e@,
            InvalidIncludeErrorDetails::HostsInsideHostBlock => "Host definitions found inside host block (not allowed)"@,
        }
    }
}

/// Why an SSH configuration could not be parsed.
#[derive(Debug)]
pub enum ParseError {
    /// Reading the file failed; the payload is the outside error's text.
    Io(String),
    /// A line that fits no known form.
    UnparseableLine(String),
    /// An entry whose keyword is not recognised.
    UnknownEntry(UnknownEntryError),
    /// An include directive that could not be carried out.
    InvalidInclude(InvalidIncludeError),
}

impl ParseError {
    /// The human-readable text of this error.
    pub fn message(&self) -> (r: String)
        ensures
            *self matches ParseError::Io(e) ==> r@ == "IO error: "@ + e@,
            *self matches ParseError::UnparseableLine(l) ==> r@ == "Unable to parse line: '"@ + l@
                + "'"@,
            *self matches ParseError::UnknownEntry(e) ==> r@ == "Unknown entry '"@ + e.entry@
                + "' on line: "@ + e.line@,
            *self matches ParseError::InvalidInclude(e) ==> r@
                == "Invalid include directive on line '"@ + e.line@ + "': "@
                + e.details.message_spec(),
    {
        match self {
            ParseError::Io(e) => {
                let mut s = String::from_str("IO error: ");
                s.append(e.as_str());
                s
            },
            ParseError::UnparseableLine(l) => {
                let mut s = String::from_str("Unable to parse line: '");
                s.append(l.as_str());
                s.append("'");
                s
            },
            ParseError::UnknownEntry(e) => e.message(),
            ParseError::InvalidInclude(e) => e.message(),
        }
    }
}

/// Why loading a configuration file for the host table failed.
#[derive(Debug)]
pub enum ParseConfigError {
    /// Reading the file failed; the payload is the outside error's text.
    Io(String),
    /// The configuration text could not be parsed.
    SshConfig(ParseError),
}

impl ParseConfigError {
    /// The human-readable text of this error.
    pub fn message(&self) -> (r: String)
        ensures
            *self matches ParseConfigError::Io(e) ==> r@ == "IO error: "@ + e@,
            *self is SshConfig ==> r@.len() >= "SSH config parsing error: "@.len(),
    {
        match self {
            ParseConfigError::Io(e) => {
                let mut s = String::from_str("IO error: ");
                s.append(e.as_str());
                s
            },
            ParseConfigError::SshConfig(e) => {
                let mut s = String::from_str("SSH config parsing error: ");
                let inner = e.message();
                s.append(inner.as_str());
                proof {
                    assert(s@.len() == "SSH config parsing error: "@.len() + inner@.len());
                }
                s
            },
        }
    }
}

} // verus!
