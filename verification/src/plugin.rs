//! Plugin lifecycle decisions: shorthand lookup, inferring a plugin
//! name from a repository URL, choosing what an install should do, the
//! missing-plugin computation, and the fan-in of bulk install results.
use vstd::prelude::*;
use vstd::string::*;

use crate::errors::RtxError;
use crate::strutil::{find_char, first_index_of, starts_with, str_eq, str_starts_with, strs};

verus! {

/// A registered version-provider plugin: its name, the repository it
/// was or would be cloned from, and whether a clone is present.
#[derive(Debug, PartialEq, Eq)]
pub struct Plugin {
    pub name: String,
    pub repository_url: Option<String>,
    pub installed: bool,
}

impl Clone for Plugin {
    fn clone(&self) -> (res: Self)
        ensures
            res == *self,
    {
        Plugin {
            name: self.name.clone(),
            repository_url: match &self.repository_url {
                Some(u) => Some(u.clone()),
                None => None,
            },
            installed: self.installed,
        }
    }
}

/// The static shorthand table: bare plugin name to repository URL.
pub open spec fn shorthand_spec(name: Seq<char>) -> Option<Seq<char>> {
    if name == "nodejs"@ {
        Some("https://github.com/asdf-vm/asdf-nodejs.git"@)
    } else if name == "ruby"@ {
        Some("https://github.com/asdf-vm/asdf-ruby.git"@)
    } else if name == "python"@ {
        Some("https://github.com/danhper/asdf-python.git"@)
    } else if name == "shfmt"@ {
        Some("https://github.com/luizm/asdf-shfmt.git"@)
    } else if name == "shellcheck"@ {
        Some("https://github.com/luizm/asdf-shellcheck.git"@)
    } else if name == "jq"@ {
        Some("https://github.com/AZMCode/asdf-jq.git"@)
    } else if name == "direnv"@ {
        Some("https://github.com/asdf-community/asdf-direnv.git"@)
    } else if name == "tiny"@ {
        Some("https://github.com/jdxcode/asdf-tiny.git"@)
    } else if name == "dummy"@ {
        Some("https://github.com/jdxcode/asdf-dummy.git"@)
    } else {
        None
    }
}

/// Looks a bare plugin name up in the shorthand table.
pub fn shorthand_to_repository(name: &str) -> (r: Option<String>)
    ensures
        match r {
            Some(u) => shorthand_spec(name@) == Some(u@),
            None => shorthand_spec(name@) is None,
        },
{
    if str_eq(name, "nodejs") {
        Some("https://github.com/asdf-vm/asdf-nodejs.git".to_owned())
    } else if str_eq(name, "ruby") {
        Some("https://github.com/asdf-vm/asdf-ruby.git".to_owned())
    } else if str_eq(name, "python") {
        Some("https://github.com/danhper/asdf-python.git".to_owned())
    } else if str_eq(name, "shfmt") {
        Some("https://github.com/luizm/asdf-shfmt.git".to_owned())
    } else if str_eq(name, "shellcheck") {
        Some("https://github.com/luizm/asdf-shellcheck.git".to_owned())
    } else if str_eq(name, "jq") {
        Some("https://github.com/AZMCode/asdf-jq.git".to_owned())
    } else if str_eq(name, "direnv") {
        Some("https://github.com/asdf-community/asdf-direnv.git".to_owned())
    } else if str_eq(name, "tiny") {
        Some("https://github.com/jdxcode/asdf-tiny.git".to_owned())
    } else if str_eq(name, "dummy") {
        Some("https://github.com/jdxcode/asdf-dummy.git".to_owned())
    } else {
        None
    }
}

/// The path segments of `u` read as a URL, when `u` parses as a URL
/// that can be a base; the name's value is fixed by the characters of
/// `u` alone.
pub uninterp spec fn url_segments(u: Seq<char>) -> Option<Seq<Seq<char>>>;

/// Relies on `url::Url::parse` and `Url::path_segments`: a parse error
/// or a cannot-be-a-base URL gives nothing, any other URL gives its
/// path segments in order.
#[verifier::external_body]
fn parse_url_segments(u: &str) -> (r: Option<Vec<String>>)
    ensures
        match r {
            Some(v) => url_segments(u@) == Some(strs(v@)),
            None => url_segments(u@) is None,
        },
{
    match url::Url::parse(u) {
        Ok(parsed) => match parsed.path_segments() {
            Some(segments) => Some(segments.map(|s| s.to_string()).collect()),
            None => None,
        },
        Err(_) => None,
    }
}

/// A conventional `asdf-` prefix is stripped off a repository name.
pub open spec fn strip_asdf(s: Seq<char>) -> Seq<char> {
    if starts_with(s, "asdf-"@) {
        s.skip(5)
    } else {
        s
    }
}

/// The last of the URL's path segments, or nothing for an empty list.
pub open spec fn last_segment(segs: Seq<Seq<char>>) -> Seq<char> {
    if segs.len() == 0 {
        Seq::<char>::empty()
    } else {
        segs.last()
    }
}

/// The plugin name carried by one repository path segment.
pub fn plugin_name_from_segment(seg: &str) -> (r: String)
    ensures
        r@ == strip_asdf(seg@),
{
    if str_starts_with(seg, "asdf-") {
        proof {
            reveal_strlit("asdf-");
        }
        seg.substring_char(5, seg.unicode_len()).to_owned()
    } else {
        seg.to_owned()
    }
}

/// Infers a plugin name from a repository URL: the last path segment,
/// with a conventional `asdf-` prefix stripped; an URL without path
/// segments yields an error naming the URL.
pub fn get_name_from_url(url: &str) -> (r: Result<String, RtxError>)
    ensures
        match url_segments(url@) {
            Some(segs) => r matches Ok(n) && n@ == strip_asdf(last_segment(segs)),
            None => r matches Err(e) && e matches RtxError::CouldNotInferName(u) && u@ == url@,
        },
{
    match parse_url_segments(url) {
        Some(segs) => {
            if segs.len() > 0 {
                let last = &segs[segs.len() - 1];
                proof {
                    assert(strs(segs@).last() == segs@[segs@.len() - 1]@);
                }
                Ok(plugin_name_from_segment(last.as_str()))
            } else {
                proof {
                    reveal_strlit("");
                    assert(""@ =~= Seq::<char>::empty());
                }
                Ok(plugin_name_from_segment(""))
            }
        },
        None => Err(RtxError::CouldNotInferName(url.to_owned())),
    }
}

/// What a plugin install request resolves to: the name to register and
/// the git URL to clone. A bare name goes through the shorthand table;
/// a name holding a `:` is itself the URL, and the name is inferred.
pub fn get_name_and_url(name: String, git_url: Option<String>) -> (r: Result<
    (String, String),
    RtxError,
>)
    ensures
        match git_url {
            Some(u) => r matches Ok(p) && p.0@ == name@ && p.1@ == u@,
            None => {
                if first_index_of(name@, ':') != -1 {
                    match url_segments(name@) {
                        Some(segs) => r matches Ok(p) && p.0@ == strip_asdf(last_segment(segs))
                            && p.1@ == name@,
                        None => r matches Err(e) && e matches RtxError::CouldNotInferName(u) && u@
                            == name@,
                    }
                } else {
                    match shorthand_spec(name@) {
                        Some(u) => r matches Ok(p) && p.0@ == name@ && p.1@ == u,
                        None => r matches Err(e) && e matches RtxError::PluginNotFound(n) && n@
                            == name@,
                    }
                }
            },
        },
{
    match git_url {
        Some(u) => Ok((name, u)),
        None => {
            match find_char(name.as_str(), ':') {
                Some(_) => {
                    match get_name_from_url(name.as_str()) {
                        Ok(n) => Ok((n, name)),
                        Err(_) => Err(RtxError::CouldNotInferName(name)),
                    }
                },
                None => {
                    match shorthand_to_repository(name.as_str()) {
                        Some(u) => Ok((name, u)),
                        None => Err(RtxError::PluginNotFound(name)),
                    }
                },
            }
        },
    }
}

/// What one plugin install does, given whether a clone is present and
/// whether the caller forces a reinstall.
#[derive(Debug, PartialEq, Eq)]
pub enum InstallAction {
    /// A clone is present and no force was given: warn, do nothing.
    AlreadyInstalled,
    /// Force was given: remove the existing clone, then clone anew.
    Reinstall,
    /// No clone is present: clone.
    Install,
}

/// Decides what installing a plugin does.
pub fn plan_install(installed: bool, force: bool) -> (r: InstallAction)
    ensures
        force ==> r == InstallAction::Reinstall,
        !force && installed ==> r == InstallAction::AlreadyInstalled,
        !force && !installed ==> r == InstallAction::Install,
{
    if force {
        InstallAction::Reinstall
    } else if installed {
        InstallAction::AlreadyInstalled
    } else {
        InstallAction::Install
    }
}

/// The registered plugins that have no clone present, in order.
pub open spec fn keep_missing(ps: Seq<Plugin>) -> Seq<Plugin>
    decreases ps.len(),
{
    if ps.len() == 0 {
        Seq::<Plugin>::empty()
    } else {
        let prev = keep_missing(ps.drop_last());
        if ps.last().installed {
            prev
        } else {
            prev.push(ps.last())
        }
    }
}

/// Law (bulk install, target set): the plugins a bulk install works on
/// are exactly the registered ones with no clone present, in
/// registration order.
pub fn missing_plugins(plugins: &Vec<Plugin>) -> (r: Vec<Plugin>)
    ensures
        r@ == keep_missing(plugins@),
{
    let mut r: Vec<Plugin> = Vec::new();
    let mut i: usize = 0;
    while i < plugins.len()
        invariant
            0 <= i <= plugins@.len(),
            r@ == keep_missing(plugins@.take(i as int)),
        decreases plugins@.len() - i,
    {
        proof {
            assert(plugins@.take(i + 1).drop_last() =~= plugins@.take(i as int));
            assert(plugins@.take(i + 1).last() == plugins@[i as int]);
        }
        if !plugins[i].installed {
            r.push(plugins[i].clone());
        }
        i = i + 1;
    }
    proof {
        assert(plugins@.take(plugins@.len() as int) =~= plugins@);
    }
    r
}

/// The names of the failed installs, in input order.
pub open spec fn failed_names(rs: Seq<(Seq<char>, bool)>) -> Seq<Seq<char>>
    decreases rs.len(),
{
    if rs.len() == 0 {
        Seq::<Seq<char>>::empty()
    } else {
        let prev = failed_names(rs.drop_last());
        if rs.last().1 {
            prev
        } else {
            prev.push(rs.last().0)
        }
    }
}

/// The views of per-plugin install outcomes.
pub open spec fn results_view(rs: Seq<(String, bool)>) -> Seq<(Seq<char>, bool)> {
    rs.map_values(|p: (String, bool)| (p.0@, p.1))
}

/// What a bulk install reports.
#[derive(Debug, PartialEq, Eq)]
pub struct BulkReport {
    /// True when there was nothing to install at all, so that "already
    /// satisfied" can be told apart from "ran with zero targets".
    pub nothing_to_do: bool,
    /// The names of the plugins whose install failed, in input order.
    pub failures: Vec<String>,
}

/// Law (bulk install isolation): the fan-in of per-plugin install
/// outcomes reports exactly the failed plugins, by name, and an empty
/// target set is reported as nothing-to-do; one plugin's failure never
/// suppresses another's outcome.
pub fn summarize_install_results(results: &Vec<(String, bool)>) -> (r: BulkReport)
    ensures
        r.nothing_to_do == (results@.len() == 0),
        strs(r.failures@) == failed_names(results_view(results@)),
{
    let ghost full = results_view(results@);
    let mut failures: Vec<String> = Vec::new();
    let mut i: usize = 0;
    proof {
        assert(strs(failures@) =~= failed_names(full.take(0)));
    }
    while i < results.len()
        invariant
            full == results_view(results@),
            0 <= i <= results@.len(),
            strs(failures@) == failed_names(full.take(i as int)),
        decreases results@.len() - i,
    {
        proof {
            assert(full.take(i + 1).drop_last() =~= full.take(i as int));
            assert(full.take(i + 1).last() == full[i as int]);
            assert(full[i as int] == (results@[i as int].0@, results@[i as int].1));
        }
        if !results[i].1 {
            failures.push(results[i].0.clone());
            proof {
                assert(strs(failures@) =~= failed_names(full.take(i + 1)));
            }
        }
        i = i + 1;
    }
    proof {
        assert(full.take(full.len() as int) =~= full);
    }
    BulkReport { nothing_to_do: results.len() == 0, failures }
}

} // verus!
