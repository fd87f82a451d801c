//! Version resolution: turns one version request into a concrete
//! installed-version identifier or an install directive, against a
//! plugin's catalog of installed versions, remote versions, and aliases.
//!
//! Prefix requests select the highest matching remote version under a
//! version-aware order: dot-separated segments compare numerically when
//! both are digit runs (so `9` sorts below `10`), lexically otherwise.
use vstd::prelude::*;
use vstd::string::*;

use crate::strutil::{
    all_digits, chars_lt, contains_str, in_strs, is_all_digits, lemma_chars_lt_connex,
    lemma_chars_lt_irrefl, lemma_chars_lt_trans, split_char, split_on_char, starts_with, str_eq,
    str_lt, str_starts_with, strs,
};
use crate::tool_version::{ToolVersion, ToolVersionV};

verus! {

/// Strict order on single version segments: digit runs compare as
/// numbers (shorter run first, then digit-wise), a digit run sorts
/// before anything else, and the rest compares lexically.
pub open spec fn seg_lt(a: Seq<char>, b: Seq<char>) -> bool {
    if all_digits(a) && all_digits(b) {
        a.len() < b.len() || (a.len() == b.len() && chars_lt(a, b))
    } else if all_digits(a) {
        true
    } else if all_digits(b) {
        false
    } else {
        chars_lt(a, b)
    }
}

/// Strict lexicographic order on segment lists.
pub open spec fn segs_lt(x: Seq<Seq<char>>, y: Seq<Seq<char>>) -> bool
    decreases x.len(),
{
    if y.len() == 0 {
        false
    } else if x.len() == 0 {
        true
    } else if seg_lt(x[0], y[0]) {
        true
    } else if seg_lt(y[0], x[0]) {
        false
    } else {
        segs_lt(x.skip(1), y.skip(1))
    }
}

/// The version-aware order on whole version strings.
pub open spec fn ver_lt(a: Seq<char>, b: Seq<char>) -> bool {
    segs_lt(split_char(a, '.'), split_char(b, '.'))
}

pub proof fn lemma_seg_lt_trans(a: Seq<char>, b: Seq<char>, c: Seq<char>)
    requires
        seg_lt(a, b),
        seg_lt(b, c),
    ensures
        seg_lt(a, c),
{
    if all_digits(a) && all_digits(b) && all_digits(c) {
        if a.len() == b.len() && b.len() == c.len() {
            lemma_chars_lt_trans(a, b, c);
        }
    } else if !all_digits(a) && !all_digits(b) && !all_digits(c) {
        lemma_chars_lt_trans(a, b, c);
    }
}

pub proof fn lemma_seg_lt_connex(a: Seq<char>, b: Seq<char>)
    ensures
        seg_lt(a, b) || seg_lt(b, a) || a == b,
{
    lemma_chars_lt_connex(a, b);
}

pub proof fn lemma_seg_lt_irrefl(a: Seq<char>)
    ensures
        !seg_lt(a, a),
{
    lemma_chars_lt_irrefl(a);
}

pub proof fn lemma_segs_lt_trans(x: Seq<Seq<char>>, y: Seq<Seq<char>>, z: Seq<Seq<char>>)
    requires
        segs_lt(x, y),
        segs_lt(y, z),
    ensures
        segs_lt(x, z),
    decreases x.len(),
{
    if x.len() == 0 {
    } else {
        if seg_lt(x[0], y[0]) {
            if seg_lt(y[0], z[0]) {
                lemma_seg_lt_trans(x[0], y[0], z[0]);
            } else {
                lemma_seg_lt_connex(y[0], z[0]);
                assert(y[0] == z[0]);
            }
        } else {
            lemma_seg_lt_connex(x[0], y[0]);
            assert(x[0] == y[0]);
            if seg_lt(y[0], z[0]) {
            } else {
                lemma_seg_lt_connex(y[0], z[0]);
                assert(y[0] == z[0]);
                lemma_segs_lt_trans(x.skip(1), y.skip(1), z.skip(1));
            }
        }
    }
}

pub proof fn lemma_segs_lt_irrefl(x: Seq<Seq<char>>)
    ensures
        !segs_lt(x, x),
    decreases x.len(),
{
    if x.len() > 0 {
        lemma_seg_lt_irrefl(x[0]);
        lemma_segs_lt_irrefl(x.skip(1));
    }
}

pub proof fn lemma_ver_lt_trans(a: Seq<char>, b: Seq<char>, c: Seq<char>)
    requires
        ver_lt(a, b),
        ver_lt(b, c),
    ensures
        ver_lt(a, c),
{
    lemma_segs_lt_trans(split_char(a, '.'), split_char(b, '.'), split_char(c, '.'));
}

pub proof fn lemma_ver_lt_irrefl(a: Seq<char>)
    ensures
        !ver_lt(a, a),
{
    lemma_segs_lt_irrefl(split_char(a, '.'));
}

/// Compares two version segments in the order `seg_lt`.
fn seg_lt_exec(a: &str, b: &str) -> (r: bool)
    ensures
        r == seg_lt(a@, b@),
{
    let da = is_all_digits(a);
    let db = is_all_digits(b);
    if da && db {
        let la = a.unicode_len();
        let lb = b.unicode_len();
        la < lb || (la == lb && str_lt(a, b))
    } else if da {
        true
    } else if db {
        false
    } else {
        str_lt(a, b)
    }
}

/// Compares two version strings in the version-aware order `ver_lt`.
pub fn version_lt(a: &str, b: &str) -> (r: bool)
    ensures
        r == ver_lt(a@, b@),
{
    let xs = split_on_char(a, '.');
    let ys = split_on_char(b, '.');
    let ghost gx = split_char(a@, '.');
    let ghost gy = split_char(b@, '.');
    proof {
        assert(gx.skip(0) =~= gx);
        assert(gy.skip(0) =~= gy);
    }
    let mut i: usize = 0;
    while i < xs.len() && i < ys.len()
        invariant
            strs(xs@) == gx,
            strs(ys@) == gy,
            gx == split_char(a@, '.'),
            gy == split_char(b@, '.'),
            0 <= i <= xs@.len(),
            i <= ys@.len(),
            segs_lt(gx, gy) == segs_lt(gx.skip(i as int), gy.skip(i as int)),
        decreases xs@.len() - i,
    {
        proof {
            assert(gx.skip(i as int)[0] == gx[i as int]);
            assert(gy.skip(i as int)[0] == gy[i as int]);
            assert(strs(xs@)[i as int] == xs@[i as int]@);
            assert(strs(ys@)[i as int] == ys@[i as int]@);
        }
        if seg_lt_exec(xs[i].as_str(), ys[i].as_str()) {
            return true;
        }
        if seg_lt_exec(ys[i].as_str(), xs[i].as_str()) {
            return false;
        }
        proof {
            assert(gx.skip(i as int).skip(1) =~= gx.skip(i + 1));
            assert(gy.skip(i as int).skip(1) =~= gy.skip(i + 1));
        }
        i = i + 1;
    }
    i >= xs.len() && i < ys.len()
}

/// Whether a remote version answers a prefix query: the keyword
/// `latest` matches everything, any other prefix matches by characters.
pub open spec fn prefix_matches(s: Seq<char>, p: Seq<char>) -> bool {
    if p == "latest"@ {
        true
    } else {
        starts_with(s, p)
    }
}

/// The highest remote version matching a prefix query, scanning left to
/// right and keeping the later candidate only when strictly higher.
pub open spec fn latest_in(rs: Seq<Seq<char>>, p: Seq<char>) -> Option<Seq<char>>
    decreases rs.len(),
{
    if rs.len() == 0 {
        None
    } else {
        let prev = latest_in(rs.drop_last(), p);
        let x = rs.last();
        if !prefix_matches(x, p) {
            prev
        } else {
            match prev {
                Option::None => Some(x),
                Option::Some(m) => if ver_lt(m, x) {
                    Some(x)
                } else {
                    Some(m)
                },
            }
        }
    }
}

/// What `latest_in` selects is a matching element of the list and no
/// matching element exceeds it; `None` means nothing matched.
pub proof fn lemma_latest_in_props(rs: Seq<Seq<char>>, p: Seq<char>)
    ensures
        match latest_in(rs, p) {
            Option::Some(m) => in_strs(rs, m) && prefix_matches(m, p) && (forall|i: int|
                0 <= i < rs.len() && prefix_matches(#[trigger] rs[i], p) ==> !ver_lt(m, rs[i])),
            Option::None => forall|i: int| 0 <= i < rs.len() ==> !prefix_matches(#[trigger] rs[i], p),
        },
    decreases rs.len(),
{
    if rs.len() > 0 {
        let prev = rs.drop_last();
        lemma_latest_in_props(prev, p);
        let x = rs.last();
        assert(forall|i: int| 0 <= i < prev.len() ==> prev[i] == rs[i]);
        match latest_in(prev, p) {
            Option::Some(m) => {
                let w = choose|w: int| 0 <= w < prev.len() && prev[w] == m;
                assert(rs[w] == m);
                if prefix_matches(x, p) {
                    if ver_lt(m, x) {
                        assert(rs[rs.len() - 1] == x);
                        lemma_ver_lt_irrefl(x);
                        assert forall|i: int|
                            0 <= i < rs.len() && prefix_matches(#[trigger] rs[i], p) implies !ver_lt(
                            x,
                            rs[i],
                        ) by {
                            if i < rs.len() - 1 && ver_lt(x, rs[i]) {
                                lemma_ver_lt_trans(m, x, rs[i]);
                            }
                        }
                    }
                }
            },
            Option::None => {
                if prefix_matches(x, p) {
                    assert(rs[rs.len() - 1] == x);
                    lemma_ver_lt_irrefl(x);
                }
            },
        }
    }
}

/// Law (prefix resolution): the selected version is a remote version
/// matching the prefix, and no matching remote version is higher in the
/// version-aware order; nothing is selected only when nothing matches.
pub fn latest_matching(remote: &Vec<String>, prefix: &str) -> (r: Option<String>)
    ensures
        match r {
            Some(m) => latest_in(strs(remote@), prefix@) == Some(m@),
            None => latest_in(strs(remote@), prefix@) is None,
        },
        match r {
            Some(m) => in_strs(strs(remote@), m@) && prefix_matches(m@, prefix@) && (forall|i: int|
                0 <= i < remote@.len() && prefix_matches(#[trigger] strs(remote@)[i], prefix@)
                    ==> !ver_lt(m@, strs(remote@)[i])),
            None => forall|i: int|
                0 <= i < remote@.len() ==> !prefix_matches(#[trigger] strs(remote@)[i], prefix@),
        },
{
    let ghost grs = strs(remote@);
    let is_latest = str_eq(prefix, "latest");
    let mut best: Option<String> = None;
    let mut i: usize = 0;
    proof {
        assert(grs.take(0) =~= Seq::<Seq<char>>::empty());
    }
    while i < remote.len()
        invariant
            grs == strs(remote@),
            0 <= i <= remote@.len(),
            is_latest == (prefix@ == "latest"@),
            match best {
                Some(b) => latest_in(grs.take(i as int), prefix@) == Some(b@),
                None => latest_in(grs.take(i as int), prefix@) is None,
            },
        decreases remote@.len() - i,
    {
        let cand = &remote[i];
        proof {
            assert(grs[i as int] == remote@[i as int]@);
            assert(grs.take(i + 1).drop_last() =~= grs.take(i as int));
            assert(grs.take(i + 1).last() == grs[i as int]);
        }
        let m = if is_latest {
            true
        } else {
            str_starts_with(cand.as_str(), prefix)
        };
        if m {
            let replace = match &best {
                None => true,
                Some(cur) => version_lt(cur.as_str(), cand.as_str()),
            };
            if replace {
                best = Some(cand.clone());
            }
        }
        i = i + 1;
    }
    proof {
        assert(grs.take(grs.len() as int) =~= grs);
        lemma_latest_in_props(grs, prefix@);
    }
    best
}

/// The views of an alias table.
pub open spec fn aliases_view(s: Seq<(String, String)>) -> Seq<(Seq<char>, Seq<char>)> {
    s.map_values(|p: (String, String)| (p.0@, p.1@))
}

/// The version string an alias name maps to, by first match.
pub open spec fn alias_lookup(aliases: Seq<(Seq<char>, Seq<char>)>, name: Seq<char>) -> Option<
    Seq<char>,
>
    decreases aliases.len(),
{
    if aliases.len() == 0 {
        None
    } else if aliases[0].0 == name {
        Some(aliases[0].1)
    } else {
        alias_lookup(aliases.skip(1), name)
    }
}

/// Looks a name up in the alias table.
pub fn resolve_alias(aliases: &Vec<(String, String)>, name: &str) -> (r: Option<String>)
    ensures
        match r {
            Some(v) => alias_lookup(aliases_view(aliases@), name@) == Some(v@),
            None => alias_lookup(aliases_view(aliases@), name@) is None,
        },
{
    let ghost ga = aliases_view(aliases@);
    proof {
        assert(ga.skip(0) =~= ga);
    }
    let mut i: usize = 0;
    while i < aliases.len()
        invariant
            ga == aliases_view(aliases@),
            0 <= i <= aliases@.len(),
            alias_lookup(ga, name@) == alias_lookup(ga.skip(i as int), name@),
        decreases aliases@.len() - i,
    {
        proof {
            assert(ga.skip(i as int)[0] == ga[i as int]);
            assert(ga[i as int] == (aliases@[i as int].0@, aliases@[i as int].1@));
            assert(ga.skip(i as int).skip(1) =~= ga.skip(i + 1));
        }
        if str_eq(aliases[i].0.as_str(), name) {
            return Some(aliases[i].1.clone());
        }
        i = i + 1;
    }
    None
}

/// What a resolved request is.
#[derive(Debug, PartialEq, Eq)]
pub enum Resolution {
    /// Use the PATH-resident binary, outside version management.
    System,
    /// Use the unmanaged installation at this directory.
    Path(String),
    /// The request names this installed version directory.
    Installed(String),
    /// Nothing installed answers the request: install this concrete
    /// version or ref (never a prefix).
    NeedsInstall(ToolVersion),
}

/// Mathematical image of a `Resolution`.
pub enum ResolutionV {
    System,
    Path(Seq<char>),
    Installed(Seq<char>),
    NeedsInstall(ToolVersionV),
}

impl View for Resolution {
    type V = ResolutionV;

    open spec fn view(&self) -> ResolutionV {
        match self {
            Resolution::System => ResolutionV::System,
            Resolution::Path(p) => ResolutionV::Path(p@),
            Resolution::Installed(v) => ResolutionV::Installed(v@),
            Resolution::NeedsInstall(t) => ResolutionV::NeedsInstall(t@),
        }
    }
}

/// Why a request could not be resolved.
#[derive(Debug, PartialEq, Eq)]
pub enum ResolveError {
    /// No remote version matches the requested prefix.
    NoVersionMatchingPrefix(String),
    /// The exact version is neither installed nor known remotely.
    VersionNotFound(String),
}

/// Mathematical image of a `ResolveError`.
pub enum ResolveErrorV {
    NoVersionMatchingPrefix(Seq<char>),
    VersionNotFound(Seq<char>),
}

impl View for ResolveError {
    type V = ResolveErrorV;

    open spec fn view(&self) -> ResolveErrorV {
        match self {
            ResolveError::NoVersionMatchingPrefix(p) => ResolveErrorV::NoVersionMatchingPrefix(p@),
            ResolveError::VersionNotFound(v) => ResolveErrorV::VersionNotFound(v@),
        }
    }
}

/// The view of a resolution result.
pub open spec fn resolution_view(r: Result<Resolution, ResolveError>) -> Result<
    ResolutionV,
    ResolveErrorV,
> {
    match r {
        Result::Ok(res) => Result::Ok(res@),
        Result::Err(e) => Result::Err(e@),
    }
}

/// Resolving an exact version string: installed when an installed
/// directory matches; otherwise an install directive when the remote
/// catalog knows the version; otherwise unknown.
pub open spec fn exact_spec(
    x: Seq<char>,
    installed: Seq<Seq<char>>,
    remote: Seq<Seq<char>>,
) -> Result<ResolutionV, ResolveErrorV> {
    if in_strs(installed, x) {
        Result::Ok(ResolutionV::Installed(x))
    } else if in_strs(remote, x) {
        Result::Ok(ResolutionV::NeedsInstall(ToolVersionV::Version(x)))
    } else {
        Result::Err(ResolveErrorV::VersionNotFound(x))
    }
}

/// The whole resolution relation: system and path requests short-cut;
/// a ref is an install directive unless its `ref-` directory exists; an
/// exact version goes through the alias table once and then resolves
/// exactly; a prefix selects the highest matching remote version.
pub open spec fn resolve_spec(
    req: ToolVersionV,
    installed: Seq<Seq<char>>,
    remote: Seq<Seq<char>>,
    aliases: Seq<(Seq<char>, Seq<char>)>,
) -> Result<ResolutionV, ResolveErrorV> {
    match req {
        ToolVersionV::System => Result::Ok(ResolutionV::System),
        ToolVersionV::Path(p) => Result::Ok(ResolutionV::Path(p)),
        ToolVersionV::Ref(r) => {
            let dir = "ref-"@ + r;
            if in_strs(installed, dir) {
                Result::Ok(ResolutionV::Installed(dir))
            } else {
                Result::Ok(ResolutionV::NeedsInstall(ToolVersionV::Ref(r)))
            }
        },
        ToolVersionV::Version(v) => {
            let x = match alias_lookup(aliases, v) {
                Option::Some(a) => a,
                Option::None => v,
            };
            exact_spec(x, installed, remote)
        },
        ToolVersionV::Prefix(p) => match latest_in(remote, p) {
            Option::None => Result::Err(ResolveErrorV::NoVersionMatchingPrefix(p)),
            Option::Some(m) => {
                if in_strs(installed, m) {
                    Result::Ok(ResolutionV::Installed(m))
                } else {
                    Result::Ok(ResolutionV::NeedsInstall(ToolVersionV::Version(m)))
                }
            },
        },
    }
}

/// Resolves one version request against a plugin's catalog.
pub fn resolve(
    request: &ToolVersion,
    installed: &Vec<String>,
    remote: &Vec<String>,
    aliases: &Vec<(String, String)>,
) -> (r: Result<Resolution, ResolveError>)
    ensures
        resolution_view(r) == resolve_spec(
            request@,
            strs(installed@),
            strs(remote@),
            aliases_view(aliases@),
        ),
{
    match request {
        ToolVersion::System => Ok(Resolution::System),
        ToolVersion::Path(p) => Ok(Resolution::Path(p.clone())),
        ToolVersion::Ref(refname) => {
            let dir = "ref-".to_owned().concat(refname.as_str());
            if contains_str(installed, dir.as_str()) {
                Ok(Resolution::Installed(dir))
            } else {
                Ok(Resolution::NeedsInstall(ToolVersion::Ref(refname.clone())))
            }
        },
        ToolVersion::Version(v) => {
            let x = match resolve_alias(aliases, v.as_str()) {
                Some(a) => a,
                None => v.clone(),
            };
            if contains_str(installed, x.as_str()) {
                Ok(Resolution::Installed(x))
            } else if contains_str(remote, x.as_str()) {
                Ok(Resolution::NeedsInstall(ToolVersion::Version(x)))
            } else {
                Err(ResolveError::VersionNotFound(x))
            }
        },
        ToolVersion::Prefix(p) => {
            match latest_matching(remote, p.as_str()) {
                None => Err(ResolveError::NoVersionMatchingPrefix(p.clone())),
                Some(m) => {
                    if contains_str(installed, m.as_str()) {
                        Ok(Resolution::Installed(m))
                    } else {
                        Ok(Resolution::NeedsInstall(ToolVersion::Version(m)))
                    }
                },
            }
        },
    }
}

/// Law (alias resolution): when the alias table takes `v` to `a`, and
/// `a` is not itself an alias name, resolving the exact version `v`
/// yields exactly what resolving the exact version `a` yields.
pub proof fn lemma_alias_resolution(
    v: Seq<char>,
    a: Seq<char>,
    installed: Seq<Seq<char>>,
    remote: Seq<Seq<char>>,
    aliases: Seq<(Seq<char>, Seq<char>)>,
)
    requires
        alias_lookup(aliases, v) == Some(a),
        alias_lookup(aliases, a) is None,
    ensures
        resolve_spec(ToolVersionV::Version(v), installed, remote, aliases) == resolve_spec(
            ToolVersionV::Version(a),
            installed,
            remote,
            aliases,
        ),
{
}

} // verus!
