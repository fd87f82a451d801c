//! The decision core of each command: what to look up, what to write,
//! which error to report. The surrounding process — argument parsing,
//! file and network I/O, running git — hands these functions plain
//! values and performs what they decide.
use vstd::prelude::*;
use vstd::string::*;

use crate::errors::RtxError;
use crate::plugin::{get_name_and_url, plan_install, InstallAction, strip_asdf, last_segment,
    shorthand_spec, url_segments};
use crate::runtime_arg::{arg_text, arg_version_text, args_view, double_condition, RuntimeArg,
    RuntimeArgVersion};
use crate::strutil::{all_digits, first_index_of, str_eq, strs};
use crate::tool_version::ToolVersion;
use crate::toolset::join_tokens;

verus! {

/// Sets the global tool-versions file to include the given runtimes,
/// or displays the current version of a single runtime.
#[derive(Debug)]
pub struct Global {
    /// Runtimes to add, e.g. `nodejs@20`; a single runtime with no
    /// version displays the current value instead.
    pub runtime: Option<Vec<RuntimeArg>>,
    /// Save the fuzzy token as given, not the exactly resolved version.
    pub fuzzy: bool,
    /// Plugins to remove from the global file.
    pub remove: Option<Vec<String>>,
}

/// What a `Global` invocation does after its arguments are read.
#[derive(Debug, PartialEq, Eq)]
pub enum GlobalAction {
    /// No runtimes given: only print the file.
    DumpOnly,
    /// One runtime without a version: print its current declaration.
    ShowCurrent(String),
    /// Set each runtime's declaration.
    SetVersions(Vec<RuntimeArg>),
}

/// The removals and the action of one `Global` invocation.
#[derive(Debug)]
pub struct GlobalPlan {
    pub removals: Vec<String>,
    pub action: GlobalAction,
}

impl Global {
    /// Law (two-token heuristic, at its caller): the arguments first
    /// pass through the two-token repair; a single versionless runtime
    /// asks for display; several runtimes must all carry versions, else
    /// the invocation is rejected as ambiguous.
    #[verifier::loop_isolation(false)]
    pub fn plan(&self) -> (r: Result<GlobalPlan, RtxError>)
        ensures
            match r {
                Ok(p) => strs(p.removals@) == (match self.remove {
                    Some(rm) => strs(rm@),
                    None => Seq::<Seq<char>>::empty(),
                }),
                Err(_) => true,
            },
            match self.runtime {
                None => r matches Ok(p) && p.action is DumpOnly,
                Some(rts) => {
                    let rs = double_condition(args_view(rts@));
                    if rs.len() == 1 && rs[0].version is Unspecified {
                        r matches Ok(p) && p.action matches GlobalAction::ShowCurrent(name)
                            && name@ == rs[0].plugin
                    } else if exists|i: int|
                        0 <= i < rs.len() && (#[trigger] rs[i].version) is Unspecified {
                        r matches Err(e) && e == RtxError::AmbiguousVersions
                    } else {
                        r matches Ok(p) && p.action matches GlobalAction::SetVersions(v)
                            && args_view(v@) == rs
                    }
                },
            },
    {
        let mut removals: Vec<String> = Vec::new();
        match &self.remove {
            Some(rm) => {
                let mut i: usize = 0;
                while i < rm.len()
                    invariant
                        0 <= i <= rm@.len(),
                        removals@ == rm@.take(i as int),
                    decreases rm@.len() - i,
                {
                    removals.push(rm[i].clone());
                    proof {
                        assert(removals@ =~= rm@.take(i + 1));
                    }
                    i = i + 1;
                }
                proof {
                    assert(rm@.take(rm@.len() as int) =~= rm@);
                }
            },
            None => {},
        }
        match &self.runtime {
            None => Ok(GlobalPlan { removals, action: GlobalAction::DumpOnly }),
            Some(rts) => {
                let rs = RuntimeArg::double_runtime_condition(rts);
                let ghost rsv = double_condition(args_view(rts@));
                let single_unspecified = rs.len() == 1 && (match &rs[0].version {
                    RuntimeArgVersion::Unspecified => true,
                    _ => false,
                });
                proof {
                    if rs@.len() == 1 {
                        assert(rsv[0] == rs@[0]@);
                    }
                    assert(single_unspecified == (rsv.len() == 1 && rsv[0].version
                        is Unspecified));
                }
                if single_unspecified {
                    proof {
                        assert(rsv[0] == rs@[0]@);
                    }
                    return Ok(
                        GlobalPlan {
                            removals,
                            action: GlobalAction::ShowCurrent(rs[0].plugin.clone()),
                        },
                    );
                }
                let mut i: usize = 0;
                while i < rs.len()
                    invariant
                        args_view(rs@) == rsv,
                        0 <= i <= rs@.len(),
                        forall|j: int| 0 <= j < i ==> !((#[trigger] rsv[j].version) is Unspecified),
                    decreases rs@.len() - i,
                {
                    let unspec = match &rs[i].version {
                        RuntimeArgVersion::Unspecified => true,
                        _ => false,
                    };
                    proof {
                        assert(rsv[i as int] == rs@[i as int]@);
                    }
                    if unspec {
                        proof {
                            assert(rsv[i as int].version is Unspecified);
                            assert(exists|j: int|
                                0 <= j < rsv.len() && (#[trigger] rsv[j].version)
                                    is Unspecified);
                        }
                        return Err(RtxError::AmbiguousVersions);
                    }
                    i = i + 1;
                }
                Ok(GlobalPlan { removals, action: GlobalAction::SetVersions(rs) })
            },
        }
    }
}

/// Prints the declaration a parsed config file holds for one plugin:
/// its tokens, space-separated, or the "no version set" error.
pub fn show_current(entries: &Vec<(String, Vec<ToolVersion>)>, plugin: &str) -> (r: Result<
    String,
    RtxError,
>)
    ensures
        match r {
            Ok(s) => exists|i: int|
                0 <= i < entries@.len() && (#[trigger] entries@[i]).0@ == plugin@ && (forall|j: int|
                    0 <= j < i ==> (#[trigger] entries@[j]).0@ != plugin@) && s@ == join_tokens(
                    entries@[i].1@.map_values(|v: ToolVersion| v@),
                ),
            Err(e) => (forall|j: int| 0 <= j < entries@.len() ==> (#[trigger] entries@[j]).0@
                != plugin@) && (e matches RtxError::NoVersionSet(p) && p@ == plugin@),
        },
{
    let mut i: usize = 0;
    while i < entries.len()
        invariant
            0 <= i <= entries@.len(),
            forall|j: int| 0 <= j < i ==> (#[trigger] entries@[j]).0@ != plugin@,
        decreases entries@.len() - i,
    {
        if str_eq(entries[i].0.as_str(), plugin) {
            let versions = &entries[i].1;
            let ghost vsv = versions@.map_values(|v: ToolVersion| v@);
            let mut out = String::new();
            let mut j: usize = 0;
            proof {
                assert(out@ =~= join_tokens(vsv.take(0)));
            }
            while j < versions.len()
                invariant
                    vsv == versions@.map_values(|v: ToolVersion| v@),
                    0 <= j <= versions@.len(),
                    out@ == join_tokens(vsv.take(j as int)),
                decreases versions@.len() - j,
            {
                if j > 0 {
                    out.append(" ");
                }
                let tok = versions[j].to_token();
                out.append(tok.as_str());
                proof {
                    assert(vsv.take(j + 1).drop_last() =~= vsv.take(j as int));
                    assert(vsv.take(j + 1).last() == vsv[j as int]);
                    assert(vsv[j as int] == versions@[j as int]@);
                    assert(out@ =~= join_tokens(vsv.take(j + 1)));
                }
                j = j + 1;
            }
            proof {
                assert(vsv.take(vsv.len() as int) =~= vsv);
            }
            return Ok(out);
        }
        i = i + 1;
    }
    Err(RtxError::NoVersionSet(plugin.to_owned()))
}

/// Gets the latest matching version of a plugin's runtimes.
#[derive(Debug)]
pub struct Latest {
    /// Runtime to query, e.g. `nodejs@18`.
    pub runtime: RuntimeArg,
    /// The prefix given as a separate word, for compatibility with the
    /// two-word form.
    pub asdf_version: Option<String>,
}

impl Latest {
    /// The prefix the remote catalog is queried with: the `@` part if
    /// given, else the separate-word prefix, else `latest`; a `system`
    /// request cannot be queried.
    pub fn prefix_query(&self) -> (r: Result<String, RtxError>)
        ensures
            match self.runtime.version {
                RuntimeArgVersion::Unspecified => match self.asdf_version {
                    Some(v) => r matches Ok(p) && p@ == v@,
                    None => r matches Ok(p) && p@ == "latest"@,
                },
                RuntimeArgVersion::Version(v) => r matches Ok(p) && p@ == v@,
                RuntimeArgVersion::System => r matches Err(e) && e matches
                    RtxError::InvalidVersion(t) && t@ == arg_text(self.runtime@),
            },
    {
        match &self.runtime.version {
            RuntimeArgVersion::Unspecified => match &self.asdf_version {
                Some(v) => Ok(v.clone()),
                None => Ok("latest".to_owned()),
            },
            RuntimeArgVersion::Version(v) => Ok(v.clone()),
            RuntimeArgVersion::System => Err(RtxError::InvalidVersion(self.runtime.to_text())),
        }
    }
}

/// One installed runtime version: its plugin, its version string, and
/// where it is installed.
#[derive(Debug, PartialEq, Eq)]
pub struct RuntimeVersionInfo {
    pub plugin: String,
    pub version: String,
    pub install_path: String,
}

/// Displays the installation path of a runtime.
#[derive(Debug)]
pub struct Where {
    /// Runtime to look up.
    pub runtime: RuntimeArg,
    /// The version given as a separate word, for compatibility with the
    /// two-word form.
    pub asdf_version: Option<String>,
}

impl Where {
    /// The install path of the first installed version whose plugin is
    /// the requested one and whose version is the resolved one; when
    /// none matches — in particular when nothing resolved — the
    /// "version not installed" error, carrying the plugin name and the
    /// requested version token.
    pub fn lookup(&self, resolved: &Option<String>, installed: &Vec<RuntimeVersionInfo>) -> (r:
        Result<String, RtxError>)
        ensures
            match r {
                Ok(path) => exists|i: int|
                    0 <= i < installed@.len() && ((#[trigger] installed@[i]).plugin@
                        == self.runtime.plugin@ && (resolved matches Some(v) && v@
                        == installed@[i].version@)) && (forall|j: int|
                        0 <= j < i ==> !((#[trigger] installed@[j]).plugin@
                            == self.runtime.plugin@ && (resolved matches Some(v) && v@
                            == installed@[j].version@))) && path@ == installed@[i].install_path@,
                Err(e) => (forall|j: int|
                    0 <= j < installed@.len() ==> !((#[trigger] installed@[j]).plugin@
                        == self.runtime.plugin@ && (resolved matches Some(v) && v@
                        == installed@[j].version@))) && (e matches RtxError::VersionNotInstalled(
                    p,
                    v,
                ) && p@ == self.runtime.plugin@ && v@ == arg_version_text(self.runtime.version@)),
            },
    {
        let mut i: usize = 0;
        while i < installed.len()
            invariant
                0 <= i <= installed@.len(),
                forall|j: int|
                    0 <= j < i ==> !((#[trigger] installed@[j]).plugin@ == self.runtime.plugin@ && (
                    resolved matches Some(v) && v@ == installed@[j].version@)),
            decreases installed@.len() - i,
        {
            let matches_here = str_eq(installed[i].plugin.as_str(), self.runtime.plugin.as_str())
                && (match resolved {
                Some(v) => str_eq(v.as_str(), installed[i].version.as_str()),
                None => false,
            });
            if matches_here {
                return Ok(installed[i].install_path.clone());
            }
            i = i + 1;
        }
        Err(
            RtxError::VersionNotInstalled(self.runtime.plugin.clone(), self.runtime.version.to_text()),
        )
    }
}

/// Installs a plugin, or all plugins with known shorthands.
#[derive(Debug)]
pub struct PluginsInstall {
    /// The name of the plugin to install, or its git URL.
    pub name: Option<String>,
    /// The git URL of the plugin.
    pub git_url: Option<String>,
    /// Reinstall even if the plugin exists.
    pub force: bool,
    /// Install all missing plugins instead.
    pub all: bool,
    /// Show installation output.
    pub verbose: u8,
}

/// One planned plugin install: what to register, where to clone from,
/// and what to do about an existing clone.
#[derive(Debug, PartialEq, Eq)]
pub struct InstallPlan {
    pub name: String,
    pub git_url: String,
    pub action: InstallAction,
}

impl PluginsInstall {
    /// Plans the single-plugin form: resolves the name and URL, then
    /// decides between installing, reinstalling, and leaving an
    /// existing clone alone.
    pub fn plan(&self, installed: bool) -> (r: Result<InstallPlan, RtxError>)
        requires
            self.name is Some,
        ensures
            match r {
                Ok(p) => p.action == (if self.force {
                    InstallAction::Reinstall
                } else if installed {
                    InstallAction::AlreadyInstalled
                } else {
                    InstallAction::Install
                }),
                Err(_) => true,
            },
            match (self.name, self.git_url) {
                (Some(name), Some(u)) => r matches Ok(p) && p.name@ == name@ && p.git_url@ == u@,
                (Some(name), None) => {
                    if first_index_of(name@, ':') != -1 {
                        match url_segments(name@) {
                            Some(segs) => r matches Ok(p) && p.name@ == strip_asdf(
                                last_segment(segs),
                            ) && p.git_url@ == name@,
                            None => r matches Err(e) && e matches RtxError::CouldNotInferName(u)
                                && u@ == name@,
                        }
                    } else {
                        match shorthand_spec(name@) {
                            Some(u) => r matches Ok(p) && p.name@ == name@ && p.git_url@ == u,
                            None => r matches Err(e) && e matches RtxError::PluginNotFound(n) && n@
                                == name@,
                        }
                    }
                },
                (None, _) => true,
            },
    {
        let name = match &self.name {
            Some(n) => n.clone(),
            None => {
                assert(false);
                String::new()
            },
        };
        let git_url = match &self.git_url {
            Some(u) => Some(u.clone()),
            None => None,
        };
        match get_name_and_url(name, git_url) {
            Ok(p) => Ok(
                InstallPlan {
                    name: p.0,
                    git_url: p.1,
                    action: plan_install(installed, self.force),
                },
            ),
            Err(e) => Err(e),
        }
    }
}

/// Adds or updates one setting in the settings file.
#[derive(Debug)]
pub struct SettingsSet {
    /// The setting to set.
    pub key: String,
    /// The value to set it to.
    pub value: String,
}

/// A validated setting value, typed as the setting demands.
#[derive(Debug, PartialEq, Eq)]
pub enum SettingValue {
    Str(String),
    Bool(bool),
    Int(i64),
}

/// The settings that take a boolean.
pub open spec fn bool_setting(k: Seq<char>) -> bool {
    k == "always_keep_download"@ || k == "legacy_version_file"@ || k == "verbose"@
}

/// Every setting name the file knows.
pub open spec fn known_setting(k: Seq<char>) -> bool {
    k == "missing_runtime_behavior"@ || bool_setting(k) || k
        == "plugin_autoupdate_last_check_duration"@
}

/// What a boolean-valued setting accepts.
pub open spec fn bool_of(s: Seq<char>) -> Option<bool> {
    if s == "true"@ {
        Some(true)
    } else if s == "false"@ {
        Some(false)
    } else {
        None
    }
}

/// Reads `true` or `false`, and nothing else.
pub fn parse_bool(value: &str) -> (r: Result<bool, RtxError>)
    ensures
        match bool_of(value@) {
            Some(b) => r matches Ok(x) && x == b,
            None => r matches Err(e) && e matches RtxError::NotBool(v) && v@ == value@,
        },
{
    if str_eq(value, "true") {
        Ok(true)
    } else if str_eq(value, "false") {
        Ok(false)
    } else {
        Err(RtxError::NotBool(value.to_owned()))
    }
}

/// The integer value of a run of decimal digits.
pub open spec fn digits_val(s: Seq<char>) -> int
    decreases s.len(),
{
    if s.len() == 0 {
        0
    } else {
        digits_val(s.drop_last()) * 10 + (s.last() as int - '0' as int)
    }
}

pub proof fn lemma_digits_val_nonneg(s: Seq<char>)
    requires
        all_digits(s),
    ensures
        digits_val(s) >= 0,
    decreases s.len(),
{
    if s.len() > 0 {
        assert(all_digits(s.drop_last()));
        lemma_digits_val_nonneg(s.drop_last());
    }
}

pub proof fn lemma_digits_val_grows(s: Seq<char>, i: int)
    requires
        all_digits(s),
        0 <= i <= s.len(),
    ensures
        digits_val(s.take(i)) <= digits_val(s),
    decreases s.len() - i,
{
    if i == s.len() {
        assert(s.take(i) =~= s);
    } else {
        assert(s.take(i + 1).drop_last() =~= s.take(i));
        assert(s.take(i + 1).last() == s[i]);
        assert(all_digits(s.take(i)));
        lemma_digits_val_nonneg(s.take(i));
        lemma_digits_val_grows(s, i + 1);
    }
}

/// What `parse_i64` accepts: an optional sign, then only digits, the
/// value within the range of 64-bit signed integers.
pub open spec fn parse_i64_spec(s: Seq<char>) -> Option<int> {
    let signed = s.len() > 0 && (s[0] == '-' || s[0] == '+');
    let neg = s.len() > 0 && s[0] == '-';
    let ds = if signed {
        s.skip(1)
    } else {
        s
    };
    if ds.len() == 0 || !all_digits(ds) {
        None
    } else {
        let v = if neg {
            -digits_val(ds)
        } else {
            digits_val(ds)
        };
        if i64::MIN <= v <= i64::MAX {
            Some(v)
        } else {
            None
        }
    }
}

/// Reads a 64-bit signed integer: an optional sign and digits, within
/// range; anything else is rejected as "must be a number".
pub fn parse_i64(value: &str) -> (r: Result<i64, RtxError>)
    ensures
        match parse_i64_spec(value@) {
            Some(v) => r matches Ok(x) && x as int == v,
            None => r matches Err(e) && e matches RtxError::NotNumber(t) && t@ == value@,
        },
{
    let len = value.unicode_len();
    if len == 0 {
        return Err(RtxError::NotNumber(value.to_owned()));
    }
    let first = value.get_char(0);
    let signed = first == '-' || first == '+';
    let neg = first == '-';
    let start: usize = if signed {
        1
    } else {
        0
    };
    let ghost ds = if signed {
        value@.skip(1)
    } else {
        value@
    };
    if start >= len {
        return Err(RtxError::NotNumber(value.to_owned()));
    }
    let limit: u64 = if neg {
        9223372036854775808
    } else {
        9223372036854775807
    };
    let mut acc: u64 = 0;
    let mut i: usize = start;
    proof {
        assert(ds.take(0) =~= Seq::<char>::empty());
    }
    while i < len
        invariant
            len == value@.len(),
            start <= i <= len,
            start == (if signed {
                1int
            } else {
                0int
            }),
            ds == (if signed {
                value@.skip(1)
            } else {
                value@
            }),
            ds.len() == len - start,
            start < len,
            signed == (value@[0] == '-' || value@[0] == '+'),
            neg == (value@[0] == '-'),
            forall|j: int| 0 <= j < i - start ==> '0' <= #[trigger] ds[j] <= '9',
            acc as int == digits_val(ds.take(i - start)),
            acc <= limit,
            limit == (if neg {
                9223372036854775808u64
            } else {
                9223372036854775807u64
            }),
            neg ==> signed,
        decreases len - i,
    {
        let c = value.get_char(i);
        proof {
            assert(ds[i - start] == value@[i as int]);
        }
        if c < '0' || c > '9' {
            assert(!all_digits(ds));
            return Err(RtxError::NotNumber(value.to_owned()));
        }
        let d: u64 = (c as u32 as u64) - 48;
        proof {
            assert(ds.take(i - start + 1).drop_last() =~= ds.take(i - start));
            assert(ds.take(i - start + 1).last() == ds[i - start]);
        }
        if acc > limit / 10 || (acc == limit / 10 && d > limit % 10) {
            proof {
                assert(digits_val(ds.take(i - start + 1)) > limit);
                assert(all_digits(ds) ==> digits_val(ds) > limit) by {
                    if all_digits(ds) {
                        lemma_digits_val_grows(ds, i - start + 1);
                    }
                }
            }
            return Err(RtxError::NotNumber(value.to_owned()));
        }
        acc = acc * 10 + d;
        i = i + 1;
    }
    proof {
        assert(ds.take(ds.len() as int) =~= ds);
        assert(all_digits(ds));
    }
    if neg {
        if acc == 9223372036854775808 {
            Ok(i64::MIN)
        } else {
            Ok(-(acc as i64))
        }
    } else {
        Ok(acc as i64)
    }
}

/// The five setting names have five different lengths, so no two are
/// the same key.
proof fn lemma_setting_keys()
    ensures
        "missing_runtime_behavior"@.len() == 24,
        "always_keep_download"@.len() == 20,
        "legacy_version_file"@.len() == 19,
        "verbose"@.len() == 7,
        "plugin_autoupdate_last_check_duration"@.len() == 37,
{
    reveal_strlit("missing_runtime_behavior");
    reveal_strlit("always_keep_download");
    reveal_strlit("legacy_version_file");
    reveal_strlit("verbose");
    reveal_strlit("plugin_autoupdate_last_check_duration");
}

impl SettingsSet {
    /// Validates one key/value pair: the behavior setting takes any
    /// string, the boolean settings take `true` or `false`, the
    /// autoupdate duration takes a number, and any other key is
    /// unknown.
    pub fn validate(&self) -> (r: Result<SettingValue, RtxError>)
        ensures
            self.key@ == "missing_runtime_behavior"@ ==> (r matches Ok(v) && v matches
                SettingValue::Str(s) && s@ == self.value@),
            bool_setting(self.key@) ==> (match bool_of(self.value@) {
                Some(b) => r matches Ok(v) && v == SettingValue::Bool(b),
                None => r matches Err(e) && e matches RtxError::NotBool(t) && t@ == self.value@,
            }),
            self.key@ == "plugin_autoupdate_last_check_duration"@ ==> (match parse_i64_spec(
                self.value@,
            ) {
                Some(n) => r matches Ok(v) && v matches SettingValue::Int(x) && x as int == n,
                None => r matches Err(e) && e matches RtxError::NotNumber(t) && t@ == self.value@,
            }),
            !known_setting(self.key@) ==> (r matches Err(e) && e matches RtxError::UnknownSetting(
                k,
            ) && k@ == self.key@),
    {
        if str_eq(self.key.as_str(), "missing_runtime_behavior") {
            proof {
                lemma_setting_keys();
                assert(!bool_setting(self.key@));
                assert(self.key@ != "plugin_autoupdate_last_check_duration"@);
            }
            Ok(SettingValue::Str(self.value.clone()))
        } else if str_eq(self.key.as_str(), "always_keep_download") || str_eq(
            self.key.as_str(),
            "legacy_version_file",
        ) || str_eq(self.key.as_str(), "verbose") {
            proof {
                lemma_setting_keys();
                assert(bool_setting(self.key@));
                assert(self.key@ != "missing_runtime_behavior"@);
                assert(self.key@ != "plugin_autoupdate_last_check_duration"@);
            }
            match parse_bool(self.value.as_str()) {
                Ok(b) => Ok(SettingValue::Bool(b)),
                Err(e) => Err(e),
            }
        } else if str_eq(self.key.as_str(), "plugin_autoupdate_last_check_duration") {
            proof {
                lemma_setting_keys();
                assert(!bool_setting(self.key@));
                assert(self.key@ != "missing_runtime_behavior"@);
            }
            match parse_i64(self.value.as_str()) {
                Ok(n) => Ok(SettingValue::Int(n)),
                Err(e) => Err(e),
            }
        } else {
            proof {
                assert(!known_setting(self.key@));
            }
            Err(RtxError::UnknownSetting(self.key.clone()))
        }
    }
}

/// Writes the envrc file that direnv consumes.
#[derive(Debug)]
pub struct Envrc {}

/// The word `s` quoted for a POSIX shell; its value is fixed by the
/// characters of `s` alone.
pub uninterp spec fn unix_escaped(s: Seq<char>) -> Seq<char>;

/// Relies on `shell_escape::unix::escape`: quotes one word for a POSIX
/// shell, from the word's characters alone.
#[verifier::external_body]
fn shell_escape_unix(s: &str) -> (r: String)
    ensures
        r@ == unix_escaped(s@),
{
    shell_escape::unix::escape(std::borrow::Cow::from(s)).into_owned()
}

/// The watch lines of the envrc: one per config file.
pub open spec fn watch_section(files: Seq<Seq<char>>) -> Seq<char>
    decreases files.len(),
{
    if files.len() == 0 {
        Seq::<char>::empty()
    } else {
        watch_section(files.drop_last()) + "watch_file "@ + files.last() + "\n"@
    }
}

/// The export lines of the envrc: one per variable, name and value
/// each quoted for the shell.
pub open spec fn export_section(env: Seq<(Seq<char>, Seq<char>)>) -> Seq<char>
    decreases env.len(),
{
    if env.len() == 0 {
        Seq::<char>::empty()
    } else {
        export_section(env.drop_last()) + "export "@ + unix_escaped(env.last().0) + "="@
            + unix_escaped(env.last().1) + "\n"@
    }
}

/// The PATH lines of the envrc: one per directory.
pub open spec fn path_section(paths: Seq<Seq<char>>) -> Seq<char>
    decreases paths.len(),
{
    if paths.len() == 0 {
        Seq::<char>::empty()
    } else {
        path_section(paths.drop_last()) + "PATH_add "@ + paths.last() + "\n"@
    }
}

/// The whole envrc: a do-not-edit header, the watched config files,
/// the exported variables, the added PATH entries.
pub open spec fn envrc_text(
    files: Seq<Seq<char>>,
    env: Seq<(Seq<char>, Seq<char>)>,
    paths: Seq<Seq<char>>,
) -> Seq<char> {
    "### Do not edit ###\n"@ + watch_section(files) + export_section(env) + path_section(paths)
}

/// The views of the environment pairs.
pub open spec fn env_view(env: Seq<(String, String)>) -> Seq<(Seq<char>, Seq<char>)> {
    env.map_values(|p: (String, String)| (p.0@, p.1@))
}

impl Envrc {
    /// Renders the envrc contents for the given watched files,
    /// environment, and PATH additions.
    pub fn render(
        config_files: &Vec<String>,
        env: &Vec<(String, String)>,
        paths: &Vec<String>,
    ) -> (r: String)
        ensures
            r@ == envrc_text(strs(config_files@), env_view(env@), strs(paths@)),
    {
        let mut out = "### Do not edit ###\n".to_owned();
        let mut i: usize = 0;
        proof {
            assert(out@ =~= "### Do not edit ###\n"@ + watch_section(strs(config_files@).take(0)));
        }
        while i < config_files.len()
            invariant
                0 <= i <= config_files@.len(),
                out@ == "### Do not edit ###\n"@ + watch_section(strs(config_files@).take(i as int)),
            decreases config_files@.len() - i,
        {
            proof {
                assert(strs(config_files@).take(i + 1).drop_last() =~= strs(
                    config_files@,
                ).take(i as int));
                assert(strs(config_files@).take(i + 1).last() == strs(config_files@)[i as int]);
                assert(strs(config_files@)[i as int] == config_files@[i as int]@);
            }
            out.append("watch_file ");
            out.append(config_files[i].as_str());
            out.append("\n");
            proof {
                assert(out@ =~= "### Do not edit ###\n"@ + watch_section(
                    strs(config_files@).take(i + 1),
                ));
            }
            i = i + 1;
        }
        proof {
            assert(strs(config_files@).take(strs(config_files@).len() as int) =~= strs(
                config_files@,
            ));
        }
        let ghost head = "### Do not edit ###\n"@ + watch_section(strs(config_files@));
        let mut j: usize = 0;
        proof {
            assert(out@ =~= head + export_section(env_view(env@).take(0)));
        }
        while j < env.len()
            invariant
                out@ == head + export_section(env_view(env@).take(j as int)),
                0 <= j <= env@.len(),
            decreases env@.len() - j,
        {
            proof {
                assert(env_view(env@).take(j + 1).drop_last() =~= env_view(env@).take(j as int));
                assert(env_view(env@).take(j + 1).last() == env_view(env@)[j as int]);
                assert(env_view(env@)[j as int] == (env@[j as int].0@, env@[j as int].1@));
            }
            let k = shell_escape_unix(env[j].0.as_str());
            let v = shell_escape_unix(env[j].1.as_str());
            out.append("export ");
            out.append(k.as_str());
            out.append("=");
            out.append(v.as_str());
            out.append("\n");
            proof {
                assert(out@ =~= head + export_section(env_view(env@).take(j + 1)));
            }
            j = j + 1;
        }
        proof {
            assert(env_view(env@).take(env_view(env@).len() as int) =~= env_view(env@));
        }
        let ghost head2 = head + export_section(env_view(env@));
        let mut p: usize = 0;
        proof {
            assert(out@ =~= head2 + path_section(strs(paths@).take(0)));
        }
        while p < paths.len()
            invariant
                out@ == head2 + path_section(strs(paths@).take(p as int)),
                0 <= p <= paths@.len(),
            decreases paths@.len() - p,
        {
            proof {
                assert(strs(paths@).take(p + 1).drop_last() =~= strs(paths@).take(p as int));
                assert(strs(paths@).take(p + 1).last() == strs(paths@)[p as int]);
                assert(strs(paths@)[p as int] == paths@[p as int]@);
            }
            out.append("PATH_add ");
            out.append(paths[p].as_str());
            out.append("\n");
            proof {
                assert(out@ =~= head2 + path_section(strs(paths@).take(p + 1)));
            }
            p = p + 1;
        }
        proof {
            assert(strs(paths@).take(strs(paths@).len() as int) =~= strs(paths@));
            assert(out@ =~= envrc_text(strs(config_files@), env_view(env@), strs(paths@)));
        }
        out
    }
}

/// The commands this engine models; the surrounding process parses the
/// command line into one of these and carries out its plan.
#[derive(Debug)]
pub enum Commands {
    Direnv(Envrc),
    Global(Global),
    Latest(Latest),
    Plugins(PluginsInstall),
    Settings(SettingsSet),
    Where(Where),
}

/// Each command's name on the command line.
pub open spec fn command_name(c: &Commands) -> Seq<char> {
    match c {
        Commands::Direnv(_) => "direnv"@,
        Commands::Global(_) => "global"@,
        Commands::Latest(_) => "latest"@,
        Commands::Plugins(_) => "plugins"@,
        Commands::Settings(_) => "settings"@,
        Commands::Where(_) => "where"@,
    }
}

impl Commands {
    /// The command's name on the command line.
    pub fn name(&self) -> (r: String)
        ensures
            r@ == command_name(self),
    {
        match self {
            Commands::Direnv(_) => "direnv".to_owned(),
            Commands::Global(_) => "global".to_owned(),
            Commands::Latest(_) => "latest".to_owned(),
            Commands::Plugins(_) => "plugins".to_owned(),
            Commands::Settings(_) => "settings".to_owned(),
            Commands::Where(_) => "where".to_owned(),
        }
    }
}

} // verus!
