//! An ordered sequence of version requests for one plugin, tagged with
//! the configuration source that contributed it. Order is insertion
//! order: the first entry that resolves wins for "current version".
use vstd::prelude::*;

use crate::tool_source::{ToolSource, ToolSourceV};
use crate::tool_version::{ToolVersion, ToolVersionV};

verus! {

/// Several requested versions of one tool, in declaration order.
#[derive(Debug, PartialEq, Eq)]
pub struct ToolVersionList {
    pub versions: Vec<ToolVersion>,
    pub source: ToolSource,
}

/// Mathematical image of a `ToolVersionList`.
pub struct ToolVersionListV {
    pub versions: Seq<ToolVersionV>,
    pub source: ToolSourceV,
}

impl View for ToolVersionList {
    type V = ToolVersionListV;

    open spec fn view(&self) -> ToolVersionListV {
        ToolVersionListV {
            versions: self.versions@.map_values(|v: ToolVersion| v@),
            source: self.source@,
        }
    }
}

impl Clone for ToolVersionList {
    fn clone(&self) -> (res: Self)
        ensures
            res.versions@ == self.versions@,
            res.source == self.source,
            res@ == self@,
    {
        let mut versions: Vec<ToolVersion> = Vec::new();
        let mut i: usize = 0;
        while i < self.versions.len()
            invariant
                0 <= i <= self.versions@.len(),
                versions@ == self.versions@.take(i as int),
            decreases self.versions@.len() - i,
        {
            versions.push(self.versions[i].clone());
            proof {
                assert(versions@ =~= self.versions@.take(i + 1));
            }
            i = i + 1;
        }
        proof {
            assert(self.versions@.take(self.versions@.len() as int) =~= self.versions@);
        }
        ToolVersionList { versions, source: self.source.clone() }
    }
}

impl ToolVersionList {
    /// An empty list attributed to `source`.
    pub fn new(source: ToolSource) -> (r: Self)
        ensures
            r.versions@.len() == 0,
            r.source == source,
    {
        ToolVersionList { versions: Vec::new(), source }
    }

    /// Appends one version request, keeping earlier entries in place.
    pub fn add_version(&mut self, version: ToolVersion)
        ensures
            final(self).versions@ == old(self).versions@.push(version),
            final(self).source == old(self).source,
    {
        self.versions.push(version);
    }
}

} // verus!
