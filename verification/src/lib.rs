//! The command pipeline of a package manager and its registry client.
//!
//! `json` holds the document model that payloads and registry bodies are read
//! from and written to, `limits` the scan that decides whether the JSON parser
//! can be handed a text, `errors` the unified error representation, `shell` the
//! two reporting channels, `runner` the pipeline from parsed arguments to an
//! exit status, `registry` the authenticated registry operations with the
//! upload framing, and `text` the small texts that messages are made of.
//!
//! The library reads no stream and opens no connection. What a command says is
//! kept on its shells, and what it needs from outside comes in as plain values
//! or as functions: the parser of the command line, the reader of standard
//! input, the transport of the registry.

use vstd::prelude::*;
use vstd::string::*;

pub mod errors;
pub mod json;
pub mod limits;
pub mod registry;
pub mod runner;
pub mod shell;
pub mod text;

verus! {

/// The text of the version line: the program's name, then the release that
/// the build was configured with or, without one, the package version
/// `major.minor.patch` followed by its pre-release suffix.
pub open spec fn version_text(
    release: Option<Seq<char>>,
    major: Seq<char>,
    minor: Seq<char>,
    patch: Seq<char>,
    pre: Option<Seq<char>>,
) -> Seq<char> {
    "cargo "@ + match release {
        Some(name) => name,
        None => major + "."@ + minor + "."@ + patch + match pre {
            Some(suffix) => suffix,
            None => Seq::empty(),
        },
    }
}

/// The view of an optional text.
pub open spec fn optional_text(text: Option<&str>) -> Option<Seq<char>> {
    match text {
        Some(t) => Some(t@),
        None => None,
    }
}

/// The version line of the program, from the values that the build provides.
pub fn version(
    release: Option<&str>,
    major: &str,
    minor: &str,
    patch: &str,
    pre: Option<&str>,
) -> (line: String)
    ensures
        line@ == version_text(optional_text(release), major@, minor@, patch@, optional_text(pre)),
{
    let mut line = String::from_str("cargo ");
    match release {
        Some(name) => {
            line.append(name);
        },
        None => {
            line.append(major);
            line.append(".");
            line.append(minor);
            line.append(".");
            line.append(patch);
            match pre {
                Some(suffix) => {
                    line.append(suffix);
                },
                None => {},
            }
        },
    }
    line
}

/// What the build knows of the program's version.
#[derive(Debug, Clone)]
pub struct BuildInfo {
    pub release: Option<String>,
    pub major: String,
    pub minor: String,
    pub patch: String,
    pub pre: Option<String>,
}

/// The view of an optional owned text.
pub open spec fn owned_text(text: Option<String>) -> Option<Seq<char>> {
    match text {
        Some(t) => Some(t@),
        None => None,
    }
}

impl BuildInfo {
    /// The text of the version line of this build.
    pub open spec fn version_text(&self) -> Seq<char> {
        version_text(
            owned_text(self.release),
            self.major@,
            self.minor@,
            self.patch@,
            owned_text(self.pre),
        )
    }

    /// The version line of this build.
    pub fn version(&self) -> (line: String)
        ensures
            line@ == self.version_text(),
    {
        let release = match &self.release {
            Some(t) => Some(t.as_str()),
            None => None,
        };
        let pre = match &self.pre {
            Some(t) => Some(t.as_str()),
            None => None,
        };
        version(release, self.major.as_str(), self.minor.as_str(), self.patch.as_str(), pre)
    }
}

} // verus!
