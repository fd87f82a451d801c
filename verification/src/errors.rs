//! The library's error values. Each carries the plugin name or the
//! offending token it concerns, and renders to the exact user-facing
//! message through `message`.
use vstd::prelude::*;
use vstd::string::*;

verus! {

/// Everything that can go wrong in parsing, lookup, and lifecycle
/// decisions.
#[derive(Debug, PartialEq, Eq)]
pub enum RtxError {
    /// Several runtimes given, not all with a version.
    AmbiguousVersions,
    /// The global config declares nothing for this plugin.
    NoVersionSet(String),
    /// No shorthand repository is known for this bare plugin name.
    PluginNotFound(String),
    /// No plugin name could be read out of this repository URL.
    CouldNotInferName(String),
    /// The plugin (first field) has no installed version (second field).
    VersionNotInstalled(String, String),
    /// The requested version token cannot be queried.
    InvalidVersion(String),
    /// No setting of this name exists.
    UnknownSetting(String),
    /// The setting takes a boolean, and this value is none.
    NotBool(String),
    /// The setting takes a number, and this value is none.
    NotNumber(String),
}

/// The user-facing message of an error.
pub open spec fn error_message(e: RtxError) -> Seq<char> {
    match e {
        RtxError::AmbiguousVersions => (
        "invalid input, specify a version for each runtime. Or just specify one runtime to print the current version"@),
        RtxError::NoVersionSet(p) => "no version set for "@ + p@ + " in ~/.tool-versions"@,
        RtxError::PluginNotFound(n) => "could not find plugin "@ + n@,
        RtxError::CouldNotInferName(u) => "could not infer plugin name from url: "@ + u@,
        RtxError::VersionNotInstalled(p, v) => "["@ + p@ + "] version "@ + v@ + " not installed"@,
        RtxError::InvalidVersion(t) => "invalid version "@ + t@,
        RtxError::UnknownSetting(k) => "Unknown setting: "@ + k@,
        RtxError::NotBool(v) => v@ + " must be true or false"@,
        RtxError::NotNumber(v) => v@ + " must be a number"@,
    }
}

impl RtxError {
    /// Renders the user-facing message.
    pub fn message(&self) -> (r: String)
        ensures
            r@ == error_message(*self),
    {
        match self {
            RtxError::AmbiguousVersions => (
            "invalid input, specify a version for each runtime. Or just specify one runtime to print the current version".to_owned()),
            RtxError::NoVersionSet(p) => {
                let mut s = "no version set for ".to_owned();
                s.append(p.as_str());
                s.append(" in ~/.tool-versions");
                s
            },
            RtxError::PluginNotFound(n) => "could not find plugin ".to_owned().concat(n.as_str()),
            RtxError::CouldNotInferName(u) => (
            "could not infer plugin name from url: ".to_owned().concat(u.as_str())),
            RtxError::VersionNotInstalled(p, v) => {
                let mut s = "[".to_owned();
                s.append(p.as_str());
                s.append("] version ");
                s.append(v.as_str());
                s.append(" not installed");
                s
            },
            RtxError::InvalidVersion(t) => "invalid version ".to_owned().concat(t.as_str()),
            RtxError::UnknownSetting(k) => "Unknown setting: ".to_owned().concat(k.as_str()),
            RtxError::NotBool(v) => v.clone().concat(" must be true or false"),
            RtxError::NotNumber(v) => v.clone().concat(" must be a number"),
        }
    }
}

} // verus!
