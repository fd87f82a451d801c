//! A single requested version of a tool: exact version, prefix match,
//! VCS ref, local path, or the system-provided binary. The on-disk token
//! syntax round-trips through `parse` and `to_token`.
use vstd::prelude::*;
use vstd::string::*;

use crate::strutil::{starts_with, str_eq, str_starts_with};

verus! {

/// One version request for a particular plugin.
#[derive(Debug, PartialEq, Eq, Hash)]
pub enum ToolVersion {
    /// An exact version string (or an alias name, resolved later).
    Version(String),
    /// The highest available version starting with this prefix.
    Prefix(String),
    /// Build/install from this VCS ref.
    Ref(String),
    /// Use an unmanaged installation at this directory.
    Path(String),
    /// Use whatever binary is already on PATH.
    System,
}

/// Mathematical image of a `ToolVersion`.
pub enum ToolVersionV {
    Version(Seq<char>),
    Prefix(Seq<char>),
    Ref(Seq<char>),
    Path(Seq<char>),
    System,
}

impl View for ToolVersion {
    type V = ToolVersionV;

    open spec fn view(&self) -> ToolVersionV {
        match self {
            ToolVersion::Version(s) => ToolVersionV::Version(s@),
            ToolVersion::Prefix(s) => ToolVersionV::Prefix(s@),
            ToolVersion::Ref(s) => ToolVersionV::Ref(s@),
            ToolVersion::Path(s) => ToolVersionV::Path(s@),
            ToolVersion::System => ToolVersionV::System,
        }
    }
}

impl Clone for ToolVersion {
    fn clone(&self) -> (res: Self)
        ensures
            res == *self,
    {
        match self {
            ToolVersion::Version(s) => ToolVersion::Version(s.clone()),
            ToolVersion::Prefix(s) => ToolVersion::Prefix(s.clone()),
            ToolVersion::Ref(s) => ToolVersion::Ref(s.clone()),
            ToolVersion::Path(s) => ToolVersion::Path(s.clone()),
            ToolVersion::System => ToolVersion::System,
        }
    }
}

/// The canonical on-disk token of a version request.
pub open spec fn token_of(v: ToolVersionV) -> Seq<char> {
    match v {
        ToolVersionV::Version(s) => s,
        ToolVersionV::Prefix(s) => "prefix:"@ + s,
        ToolVersionV::Ref(s) => "ref:"@ + s,
        ToolVersionV::Path(s) => "path:"@ + s,
        ToolVersionV::System => "system"@,
    }
}

/// How a config-file token is read back into a version request.
pub open spec fn parse_token(t: Seq<char>) -> ToolVersionV {
    if t == "system"@ {
        ToolVersionV::System
    } else if starts_with(t, "prefix:"@) {
        ToolVersionV::Prefix(t.skip("prefix:"@.len() as int))
    } else if starts_with(t, "ref:"@) {
        ToolVersionV::Ref(t.skip("ref:"@.len() as int))
    } else if starts_with(t, "path:"@) {
        ToolVersionV::Path(t.skip("path:"@.len() as int))
    } else {
        ToolVersionV::Version(t)
    }
}

/// A bare version string that no token marker claims, so that it
/// survives a round trip through `to_token` and `parse`.
pub open spec fn plain_version_token(s: Seq<char>) -> bool {
    &&& s != "system"@
    &&& !starts_with(s, "prefix:"@)
    &&& !starts_with(s, "ref:"@)
    &&& !starts_with(s, "path:"@)
}

/// Version requests whose token reads back as the same request: every
/// variant, except an exact version whose text is itself a token marker
/// (for example the bare string `system`).
pub open spec fn round_trippable(v: ToolVersionV) -> bool {
    match v {
        ToolVersionV::Version(s) => plain_version_token(s),
        _ => true,
    }
}

impl ToolVersion {
    /// Reads one whitespace-free config-file token.
    pub fn parse(token: &str) -> (r: ToolVersion)
        ensures
            r@ == parse_token(token@),
    {
        let len = token.unicode_len();
        if str_eq(token, "system") {
            ToolVersion::System
        } else if str_starts_with(token, "prefix:") {
            proof {
                reveal_strlit("prefix:");
            }
            ToolVersion::Prefix(token.substring_char(7, len).to_owned())
        } else if str_starts_with(token, "ref:") {
            proof {
                reveal_strlit("ref:");
            }
            ToolVersion::Ref(token.substring_char(4, len).to_owned())
        } else if str_starts_with(token, "path:") {
            proof {
                reveal_strlit("path:");
            }
            ToolVersion::Path(token.substring_char(5, len).to_owned())
        } else {
            ToolVersion::Version(token.to_owned())
        }
    }

    /// Writes the canonical on-disk token.
    pub fn to_token(&self) -> (r: String)
        ensures
            r@ == token_of(self@),
    {
        match self {
            ToolVersion::Version(s) => s.clone(),
            ToolVersion::Prefix(s) => "prefix:".to_owned().concat(s.as_str()),
            ToolVersion::Ref(s) => "ref:".to_owned().concat(s.as_str()),
            ToolVersion::Path(s) => "path:".to_owned().concat(s.as_str()),
            ToolVersion::System => "system".to_owned(),
        }
    }
}

/// Law: writing a version request as its token and parsing the token
/// back yields the original request, for every variant whose exact
/// version string is not itself claimed by the token syntax.
pub proof fn lemma_token_round_trip(v: ToolVersionV)
    requires
        round_trippable(v),
    ensures
        parse_token(token_of(v)) == v,
{
    reveal_strlit("system");
    reveal_strlit("prefix:");
    reveal_strlit("ref:");
    reveal_strlit("path:");
    match v {
        ToolVersionV::Version(s) => {
        },
        ToolVersionV::Prefix(s) => {
            let t = "prefix:"@ + s;
            assert(t.len() != "system"@.len());
            assert(t.take(7) =~= "prefix:"@);
            assert(t.skip(7) =~= s);
        },
        ToolVersionV::Ref(s) => {
            let t = "ref:"@ + s;
            assert(t[0] == 'r');
            if t.len() == "system"@.len() {
                assert(t != "system"@);
            }
            if starts_with(t, "prefix:"@) {
                assert(t.take(7)[0] == 'r');
                assert("prefix:"@[0] == 'p');
            }
            assert(t.take(4) =~= "ref:"@);
            assert(t.skip(4) =~= s);
        },
        ToolVersionV::Path(s) => {
            let t = "path:"@ + s;
            assert(t[0] == 'p');
            if t.len() == "system"@.len() {
                assert(t != "system"@);
            }
            if starts_with(t, "prefix:"@) {
                assert(t.take(7)[1] == 'a');
                assert("prefix:"@[1] == 'r');
            }
            if starts_with(t, "ref:"@) {
                assert(t.take(4)[0] == 'p');
                assert("ref:"@[0] == 'r');
            }
            assert(t.take(5) =~= "path:"@);
            assert(t.skip(5) =~= s);
        },
        ToolVersionV::System => {
        },
    }
}

} // verus!
