//! A runtime request given on the command line, of the form
//! `plugin[@version]`, and the heuristic that repairs the historical
//! two-word form `plugin version`.
use vstd::prelude::*;
use vstd::string::*;

use crate::strutil::{
    all_digits, find_char, first_index_of, is_all_digits, split_char, split_on_char, str_eq, strs,
};

verus! {

/// One `plugin[@version]` argument.
#[derive(Debug, PartialEq, Eq, Hash)]
pub struct RuntimeArg {
    pub plugin: String,
    pub version: RuntimeArgVersion,
}

/// The version part of a runtime argument.
#[derive(Debug, PartialEq, Eq, Hash)]
pub enum RuntimeArgVersion {
    /// No `@` was given: use whatever is active or installed.
    Unspecified,
    /// A literal version, version prefix, or alias name.
    Version(String),
    /// The sentinel `system`: use the PATH-resident binary.
    System,
}

/// Mathematical image of a `RuntimeArgVersion`.
pub enum RuntimeArgVersionV {
    Unspecified,
    Version(Seq<char>),
    System,
}

/// Mathematical image of a `RuntimeArg`.
pub struct RuntimeArgV {
    pub plugin: Seq<char>,
    pub version: RuntimeArgVersionV,
}

impl View for RuntimeArgVersion {
    type V = RuntimeArgVersionV;

    open spec fn view(&self) -> RuntimeArgVersionV {
        match self {
            RuntimeArgVersion::Unspecified => RuntimeArgVersionV::Unspecified,
            RuntimeArgVersion::Version(s) => RuntimeArgVersionV::Version(s@),
            RuntimeArgVersion::System => RuntimeArgVersionV::System,
        }
    }
}

impl View for RuntimeArg {
    type V = RuntimeArgV;

    open spec fn view(&self) -> RuntimeArgV {
        RuntimeArgV { plugin: self.plugin@, version: self.version@ }
    }
}

impl Clone for RuntimeArgVersion {
    fn clone(&self) -> (res: Self)
        ensures
            res == *self,
    {
        match self {
            RuntimeArgVersion::Unspecified => RuntimeArgVersion::Unspecified,
            RuntimeArgVersion::Version(s) => RuntimeArgVersion::Version(s.clone()),
            RuntimeArgVersion::System => RuntimeArgVersion::System,
        }
    }
}

impl Clone for RuntimeArg {
    fn clone(&self) -> (res: Self)
        ensures
            res == *self,
    {
        RuntimeArg { plugin: self.plugin.clone(), version: self.version.clone() }
    }
}

/// The views of a sequence of runtime arguments.
pub open spec fn args_view(v: Seq<RuntimeArg>) -> Seq<RuntimeArgV> {
    v.map_values(|a: RuntimeArg| a@)
}

/// How one token is split at its first `@` into plugin and version.
pub open spec fn parse_arg_spec(s: Seq<char>) -> RuntimeArgV {
    let i = first_index_of(s, '@');
    if i == -1 {
        RuntimeArgV { plugin: s, version: RuntimeArgVersionV::Unspecified }
    } else {
        let rest = s.skip(i + 1);
        RuntimeArgV {
            plugin: s.take(i),
            version: if rest == "system"@ {
                RuntimeArgVersionV::System
            } else {
                RuntimeArgVersionV::Version(rest)
            },
        }
    }
}

/// A token of one to three dot-separated, non-empty digit groups: the
/// shape a bare version takes in the two-word form `plugin version`.
pub open spec fn version_shaped(s: Seq<char>) -> bool {
    let gs = split_char(s, '.');
    1 <= gs.len() <= 3 && (forall|i: int|
        0 <= i < gs.len() ==> #[trigger] gs[i].len() > 0 && all_digits(gs[i]))
}

/// What the two-token heuristic makes of an argument list: exactly two
/// arguments, both without a version, the second shaped like a version,
/// collapse into one request; anything else is left untouched.
pub open spec fn double_condition(args: Seq<RuntimeArgV>) -> Seq<RuntimeArgV> {
    if args.len() == 2 && args[0].version is Unspecified && args[1].version is Unspecified
        && version_shaped(args[1].plugin) {
        seq![
            RuntimeArgV {
                plugin: args[0].plugin,
                version: RuntimeArgVersionV::Version(args[1].plugin),
            },
        ]
    } else {
        args
    }
}

/// Tests whether `s` is one to three dot-separated digit groups.
pub fn is_version_shaped(s: &str) -> (r: bool)
    ensures
        r == version_shaped(s@),
{
    let groups = split_on_char(s, '.');
    if groups.len() < 1 || groups.len() > 3 {
        return false;
    }
    let mut i: usize = 0;
    while i < groups.len()
        invariant
            strs(groups@) == split_char(s@, '.'),
            1 <= groups@.len() <= 3,
            0 <= i <= groups@.len(),
            forall|j: int|
                0 <= j < i ==> #[trigger] strs(groups@)[j].len() > 0 && all_digits(
                    strs(groups@)[j],
                ),
        decreases groups@.len() - i,
    {
        let g = &groups[i];
        if g.as_str().unicode_len() == 0 || !is_all_digits(g.as_str()) {
            assert(strs(groups@)[i as int] == g@);
            return false;
        }
        assert(strs(groups@)[i as int] == g@);
        i = i + 1;
    }
    true
}

impl RuntimeArg {
    /// Splits `input` at its first `@`; a missing version part means
    /// "unspecified" and the literal `system` means the system binary.
    pub fn parse(input: &str) -> (r: Self)
        ensures
            r@ == parse_arg_spec(input@),
    {
        let len = input.unicode_len();
        match find_char(input, '@') {
            Some(i) => {
                let plugin = input.substring_char(0, i).to_owned();
                let rest = input.substring_char(i + 1, len);
                assert(rest@ == input@.skip(i + 1));
                assert(plugin@ == input@.take(i as int));
                if str_eq(rest, "system") {
                    RuntimeArg { plugin, version: RuntimeArgVersion::System }
                } else {
                    RuntimeArg { plugin, version: RuntimeArgVersion::Version(rest.to_owned()) }
                }
            },
            None => {
                RuntimeArg { plugin: input.to_owned(), version: RuntimeArgVersion::Unspecified }
            },
        }
    }

    /// Law: when the user typed `plugin version` as two words instead
    /// of `plugin@version`, and only then, the two requests collapse
    /// into the single request they meant; every other argument list
    /// passes through unchanged.
    pub fn double_runtime_condition(runtimes: &Vec<RuntimeArg>) -> (r: Vec<RuntimeArg>)
        ensures
            args_view(r@) == double_condition(args_view(runtimes@)),
    {
        if runtimes.len() == 2 {
            let a = &runtimes[0];
            let b = &runtimes[1];
            let a_unspec = match a.version {
                RuntimeArgVersion::Unspecified => true,
                _ => false,
            };
            let b_unspec = match b.version {
                RuntimeArgVersion::Unspecified => true,
                _ => false,
            };
            if a_unspec && b_unspec && is_version_shaped(b.plugin.as_str()) {
                let mut r: Vec<RuntimeArg> = Vec::new();
                r.push(
                    RuntimeArg {
                        plugin: a.plugin.clone(),
                        version: RuntimeArgVersion::Version(b.plugin.clone()),
                    },
                );
                proof {
                    assert(args_view(runtimes@)[0] == a@);
                    assert(args_view(runtimes@)[1] == b@);
                    assert(args_view(r@) =~= double_condition(args_view(runtimes@)));
                }
                return r;
            }
        }
        let mut r: Vec<RuntimeArg> = Vec::new();
        let mut i: usize = 0;
        while i < runtimes.len()
            invariant
                0 <= i <= runtimes@.len(),
                r@ == runtimes@.take(i as int),
            decreases runtimes@.len() - i,
        {
            r.push(runtimes[i].clone());
            proof {
                assert(r@ =~= runtimes@.take(i + 1));
            }
            i = i + 1;
        }
        proof {
            assert(runtimes@.take(runtimes@.len() as int) =~= runtimes@);
            if runtimes@.len() == 2 {
                assert(args_view(runtimes@)[0] == runtimes@[0]@);
                assert(args_view(runtimes@)[1] == runtimes@[1]@);
            }
        }
        r
    }

    /// The display form: `plugin`, `plugin@version`, or `plugin@system`.
    pub fn to_text(&self) -> (r: String)
        ensures
            r@ == arg_text(self@),
    {
        match &self.version {
            RuntimeArgVersion::Unspecified => self.plugin.clone(),
            RuntimeArgVersion::Version(v) => self.plugin.clone().concat("@").concat(v.as_str()),
            RuntimeArgVersion::System => self.plugin.clone().concat("@system"),
        }
    }
}

/// The display form of a runtime argument.
pub open spec fn arg_text(a: RuntimeArgV) -> Seq<char> {
    match a.version {
        RuntimeArgVersionV::Unspecified => a.plugin,
        RuntimeArgVersionV::Version(v) => a.plugin + "@"@ + v,
        RuntimeArgVersionV::System => a.plugin + "@system"@,
    }
}

/// The display form of the version part alone: an unspecified version
/// reads as `current`.
pub open spec fn arg_version_text(v: RuntimeArgVersionV) -> Seq<char> {
    match v {
        RuntimeArgVersionV::Unspecified => "current"@,
        RuntimeArgVersionV::Version(s) => s,
        RuntimeArgVersionV::System => "system"@,
    }
}

impl RuntimeArgVersion {
    /// The display form of the version part alone.
    pub fn to_text(&self) -> (r: String)
        ensures
            r@ == arg_version_text(self@),
    {
        match self {
            RuntimeArgVersion::Unspecified => "current".to_owned(),
            RuntimeArgVersion::Version(s) => s.clone(),
            RuntimeArgVersion::System => "system".to_owned(),
        }
    }
}

/// Parses runtime arguments, one token at a time.
///
/// The command-line layer hands each raw token to `parse`.
#[derive(Debug)]
pub struct RuntimeArgParser;

impl RuntimeArgParser {
    /// Parses one raw token.
    pub fn parse(&self, input: &str) -> (r: RuntimeArg)
        ensures
            r@ == parse_arg_spec(input@),
    {
        RuntimeArg::parse(input)
    }
}

} // verus!
