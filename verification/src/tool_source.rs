//! Provenance of a version declaration: which configuration source
//! contributed it. Precedence is encoded by merge order, not here.
use vstd::prelude::*;

verus! {

/// Where a `ToolVersionList` came from.
#[derive(Debug, PartialEq, Eq, Hash)]
pub enum ToolSource {
    /// An explicit command-line argument.
    Argument,
    /// A tool-versions file found during the directory walk, by path.
    ToolVersionsFile(String),
    /// A plugin-specific legacy version file, by path.
    LegacyVersionFile(String),
    /// The global home-directory config file, by path.
    GlobalConfig(String),
    /// No source yet: the empty toolset that others are merged into.
    Unset,
}

/// Mathematical image of a `ToolSource`.
pub enum ToolSourceV {
    Argument,
    ToolVersionsFile(Seq<char>),
    LegacyVersionFile(Seq<char>),
    GlobalConfig(Seq<char>),
    Unset,
}

impl View for ToolSource {
    type V = ToolSourceV;

    open spec fn view(&self) -> ToolSourceV {
        match self {
            ToolSource::Argument => ToolSourceV::Argument,
            ToolSource::ToolVersionsFile(p) => ToolSourceV::ToolVersionsFile(p@),
            ToolSource::LegacyVersionFile(p) => ToolSourceV::LegacyVersionFile(p@),
            ToolSource::GlobalConfig(p) => ToolSourceV::GlobalConfig(p@),
            ToolSource::Unset => ToolSourceV::Unset,
        }
    }
}

impl Clone for ToolSource {
    fn clone(&self) -> (res: Self)
        ensures
            res == *self,
    {
        match self {
            ToolSource::Argument => ToolSource::Argument,
            ToolSource::ToolVersionsFile(p) => ToolSource::ToolVersionsFile(p.clone()),
            ToolSource::LegacyVersionFile(p) => ToolSource::LegacyVersionFile(p.clone()),
            ToolSource::GlobalConfig(p) => ToolSource::GlobalConfig(p.clone()),
            ToolSource::Unset => ToolSource::Unset,
        }
    }
}

} // verus!
