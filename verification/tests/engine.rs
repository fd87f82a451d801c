use rtx_core::commands::{
    parse_bool, parse_i64, show_current, Commands, Envrc, Global, GlobalAction, Latest,
    PluginsInstall, RuntimeVersionInfo, SettingValue, SettingsSet, Where,
};
use rtx_core::discovery::{find_all_config_files, merge_legacy_filenames};
use rtx_core::errors::RtxError;
use rtx_core::plugin::{
    get_name_and_url, get_name_from_url, missing_plugins, plugin_name_from_segment,
    shorthand_to_repository, summarize_install_results, InstallAction, Plugin,
};
use rtx_core::resolver::{latest_matching, resolve, resolve_alias, version_lt, Resolution};
use rtx_core::runtime_arg::{RuntimeArg, RuntimeArgParser, RuntimeArgVersion};
use rtx_core::tool_source::ToolSource;
use rtx_core::tool_version::ToolVersion;
use rtx_core::tool_version_list::ToolVersionList;
use rtx_core::tool_versions_file::{
    load_toolset, parse_file_toolset, parse_tool_versions, remove_entry, upsert_entry,
};
use rtx_core::toolset::Toolset;

fn s(x: &str) -> String {
    x.to_string()
}

fn strings(xs: &[&str]) -> Vec<String> {
    xs.iter().map(|x| x.to_string()).collect()
}

#[test]
fn test_plugin_install() {
    let cmd = PluginsInstall {
        name: Some(s("nodejs")),
        git_url: None,
        force: false,
        all: false,
        verbose: 0,
    };
    let plan = cmd.plan(false).unwrap();
    assert_eq!(plan.name, "nodejs");
    assert_eq!(plan.git_url, "https://github.com/asdf-vm/asdf-nodejs.git");
    assert_eq!(plan.action, InstallAction::Install);
}

#[test]
fn test_plugin_install_url() {
    let cmd = PluginsInstall {
        name: Some(s("https://github.com/jdxcode/asdf-nodejs")),
        git_url: None,
        force: true,
        all: false,
        verbose: 0,
    };
    let plan = cmd.plan(true).unwrap();
    assert_eq!(plan.name, "nodejs");
    assert_eq!(plan.git_url, "https://github.com/jdxcode/asdf-nodejs");
    assert_eq!(plan.action, InstallAction::Reinstall);
}

#[test]
fn test_plugin_install_invalid_url() {
    let cmd = PluginsInstall {
        name: Some(s("ruby:")),
        git_url: None,
        force: false,
        all: false,
        verbose: 0,
    };
    let err = cmd.plan(false).unwrap_err();
    assert_eq!(err.message(), "could not infer plugin name from url: ruby:");
}

#[test]
fn test_plugin_install_all() {
    let plugins = vec![
        Plugin {
            name: s("nodejs"),
            repository_url: None,
            installed: false,
        },
        Plugin {
            name: s("tiny"),
            repository_url: None,
            installed: true,
        },
    ];
    let missing = missing_plugins(&plugins);
    assert_eq!(missing.len(), 1);
    assert_eq!(missing[0].name, "nodejs");
    let (name, url) = get_name_and_url(missing[0].name.clone(), None).unwrap();
    assert_eq!(name, "nodejs");
    assert!(url.contains("asdf-nodejs"));
    let report = summarize_install_results(&vec![(s("nodejs"), true)]);
    assert!(!report.nothing_to_do);
    assert!(report.failures.is_empty());
}

#[test]
fn test_latest() {
    let runtime = RuntimeArg::parse("nodejs@12");
    let cmd = Latest {
        runtime,
        asdf_version: None,
    };
    let prefix = cmd.prefix_query().unwrap();
    assert_eq!(prefix, "12");
    let remote = strings(&["11.0.0", "12.0.0", "12.1.3", "13.0.0"]);
    assert_eq!(latest_matching(&remote, &prefix), Some(s("12.1.3")));
}

#[test]
fn test_latest_ruby() {
    let cmd = Latest {
        runtime: RuntimeArg::parse("ruby"),
        asdf_version: None,
    };
    let prefix = cmd.prefix_query().unwrap();
    assert_eq!(prefix, "latest");
    let remote = strings(&["2.7.6", "3.0.4", "3.1.2"]);
    let stdout = latest_matching(&remote, &prefix).unwrap();
    assert!(stdout.starts_with("3."));
}

#[test]
fn test_latest_asdf_format() {
    let cmd = Latest {
        runtime: RuntimeArg::parse("nodejs"),
        asdf_version: Some(s("12")),
    };
    let prefix = cmd.prefix_query().unwrap();
    assert_eq!(prefix, "12");
    let remote = strings(&["11.0.0", "12.0.0", "12.1.3", "13.0.0"]);
    assert_eq!(latest_matching(&remote, &prefix), Some(s("12.1.3")));
}

#[test]
fn test_latest_system_rejected() {
    let cmd = Latest {
        runtime: RuntimeArg::parse("nodejs@system"),
        asdf_version: None,
    };
    let err = cmd.prefix_query().unwrap_err();
    assert_eq!(err.message(), "invalid version nodejs@system");
}

#[test]
fn test_settings_set() {
    let v = SettingsSet {
        key: s("missing_runtime_behavior"),
        value: s("warn"),
    }
    .validate()
    .unwrap();
    assert_eq!(v, SettingValue::Str(s("warn")));
    let v = SettingsSet {
        key: s("legacy_version_file"),
        value: s("false"),
    }
    .validate()
    .unwrap();
    assert_eq!(v, SettingValue::Bool(false));
    let v = SettingsSet {
        key: s("always_keep_download"),
        value: s("true"),
    }
    .validate()
    .unwrap();
    assert_eq!(v, SettingValue::Bool(true));
    let v = SettingsSet {
        key: s("plugin_autoupdate_last_check_duration"),
        value: s("1"),
    }
    .validate()
    .unwrap();
    assert_eq!(v, SettingValue::Int(1));
    let err = SettingsSet {
        key: s("no_such_setting"),
        value: s("1"),
    }
    .validate()
    .unwrap_err();
    assert_eq!(err.message(), "Unknown setting: no_such_setting");
    let err = SettingsSet {
        key: s("verbose"),
        value: s("yes"),
    }
    .validate()
    .unwrap_err();
    assert_eq!(err.message(), "yes must be true or false");
}

#[test]
fn test_where() {
    let cmd = Where {
        runtime: RuntimeArg::parse("shfmt"),
        asdf_version: None,
    };
    let installed = vec![RuntimeVersionInfo {
        plugin: s("shfmt"),
        version: s("3.5.1"),
        install_path: s("/data/installs/shfmt/3.5.1"),
    }];
    let resolved = Some(s("3.5.1"));
    let stdout = cmd.lookup(&resolved, &installed).unwrap();
    assert!(stdout.ends_with("installs/shfmt/3.5.1"));
}

#[test]
fn test_where_alias() {
    let aliases = vec![(s("my/alias"), s("3.0.2"))];
    let installed_versions = strings(&["3.0.2", "3.5.1"]);
    let remote = strings(&["3.0.2", "3.5.1"]);
    let request = ToolVersion::Version(s("my/alias"));
    let resolution = resolve(&request, &installed_versions, &remote, &aliases).unwrap();
    assert_eq!(resolution, Resolution::Installed(s("3.0.2")));
    let cmd = Where {
        runtime: RuntimeArg::parse("shfmt@my/alias"),
        asdf_version: None,
    };
    let installed = vec![
        RuntimeVersionInfo {
            plugin: s("shfmt"),
            version: s("3.0.2"),
            install_path: s("/data/installs/shfmt/3.0.2"),
        },
        RuntimeVersionInfo {
            plugin: s("shfmt"),
            version: s("3.5.1"),
            install_path: s("/data/installs/shfmt/3.5.1"),
        },
    ];
    let stdout = cmd.lookup(&Some(s("3.0.2")), &installed).unwrap();
    assert!(stdout.ends_with("installs/shfmt/3.0.2"));
}

#[test]
fn test_where_not_found() {
    let cmd = Where {
        runtime: RuntimeArg::parse("shfmt@1111"),
        asdf_version: None,
    };
    let installed = vec![RuntimeVersionInfo {
        plugin: s("shfmt"),
        version: s("3.5.1"),
        install_path: s("/data/installs/shfmt/3.5.1"),
    }];
    let err = cmd.lookup(&Some(s("1111")), &installed).unwrap_err();
    assert_eq!(err.message(), "[shfmt] version 1111 not installed");
}

#[test]
fn test_global() {
    // a single runtime with no version displays the current value
    let plan = Global {
        runtime: Some(vec![RuntimeArg::parse("tiny")]),
        fuzzy: false,
        remove: None,
    }
    .plan()
    .unwrap();
    assert_eq!(plan.action, GlobalAction::ShowCurrent(s("tiny")));
    let entries = parse_tool_versions("tiny 2.1.0\nnodejs 20.0.0\n");
    assert_eq!(show_current(&entries, "tiny").unwrap(), "2.1.0");

    // this plugin has no entry in the file
    let err = show_current(&entries, "invalid-plugin").unwrap_err();
    assert_eq!(
        err.message(),
        "no version set for invalid-plugin in ~/.tool-versions"
    );

    // can only request a version one plugin at a time
    let err = Global {
        runtime: Some(vec![RuntimeArg::parse("tiny"), RuntimeArg::parse("dummy")]),
        fuzzy: false,
        remove: None,
    }
    .plan()
    .unwrap_err();
    assert_eq!(err.message(), "invalid input, specify a version for each runtime. Or just specify one runtime to print the current version");

    // this is just invalid
    let err = Global {
        runtime: Some(vec![
            RuntimeArg::parse("tiny"),
            RuntimeArg::parse("dummy@latest"),
        ]),
        fuzzy: false,
        remove: None,
    }
    .plan()
    .unwrap_err();
    assert_eq!(err.message(), "invalid input, specify a version for each runtime. Or just specify one runtime to print the current version");

    // the two-token form collapses into one request
    let plan = Global {
        runtime: Some(vec![RuntimeArg::parse("tiny"), RuntimeArg::parse("2")]),
        fuzzy: false,
        remove: None,
    }
    .plan()
    .unwrap();
    match plan.action {
        GlobalAction::SetVersions(rs) => {
            assert_eq!(rs.len(), 1);
            assert_eq!(rs[0].plugin, "tiny");
            assert_eq!(rs[0].version, RuntimeArgVersion::Version(s("2")));
        }
        other => panic!("expected SetVersions, got {:?}", other),
    }

    // removals carry through, and no runtimes means dump only
    let plan = Global {
        runtime: None,
        fuzzy: false,
        remove: Some(strings(&["nodejs"])),
    }
    .plan()
    .unwrap();
    assert_eq!(plan.removals, strings(&["nodejs"]));
    assert_eq!(plan.action, GlobalAction::DumpOnly);
}

#[test]
fn test_tool_version_round_trip() {
    let cases = vec![
        (ToolVersion::Version(s("20.0.0")), "20.0.0"),
        (ToolVersion::Prefix(s("20")), "prefix:20"),
        (ToolVersion::Ref(s("abc123")), "ref:abc123"),
        (ToolVersion::Path(s("/opt/node")), "path:/opt/node"),
        (ToolVersion::System, "system"),
    ];
    for (v, token) in cases {
        assert_eq!(v.to_token(), token);
        assert_eq!(ToolVersion::parse(&v.to_token()), v);
    }
    // a bare version whose text is a token marker does not round-trip
    assert_eq!(
        ToolVersion::parse(&ToolVersion::Version(s("system")).to_token()),
        ToolVersion::System
    );
}

#[test]
fn test_merge_precedence() {
    let mut a = Toolset::new(ToolSource::GlobalConfig(s("/home/u/.tool-versions")));
    a.add_version(s("nodejs"), ToolVersion::Version(s("16.0.0")));
    a.add_version(s("tiny"), ToolVersion::Version(s("1.0.0")));
    let mut b = Toolset::new(ToolSource::ToolVersionsFile(s("/p/.tool-versions")));
    b.add_version(s("nodejs"), ToolVersion::Version(s("20.0.0")));
    a.merge(&b);
    let nodejs = a.get(&s("nodejs")).unwrap();
    assert_eq!(nodejs.versions, vec![ToolVersion::Version(s("20.0.0"))]);
    let tiny = a.get(&s("tiny")).unwrap();
    assert_eq!(tiny.versions, vec![ToolVersion::Version(s("1.0.0"))]);
    assert!(a.get(&s("absent")).is_none());
}

#[test]
fn test_double_runtime_condition() {
    // `nodejs 20` is one spec
    let out = RuntimeArg::double_runtime_condition(&vec![
        RuntimeArg::parse("nodejs"),
        RuntimeArg::parse("20"),
    ]);
    assert_eq!(out.len(), 1);
    assert_eq!(out[0].plugin, "nodejs");
    assert_eq!(out[0].version, RuntimeArgVersion::Version(s("20")));

    // `nodejs dummy` stays two ambiguous specs
    let out = RuntimeArg::double_runtime_condition(&vec![
        RuntimeArg::parse("nodejs"),
        RuntimeArg::parse("dummy"),
    ]);
    assert_eq!(out.len(), 2);
    assert_eq!(out[0].version, RuntimeArgVersion::Unspecified);
    assert_eq!(out[1].version, RuntimeArgVersion::Unspecified);

    // a second token that already has a version is left alone
    let out = RuntimeArg::double_runtime_condition(&vec![
        RuntimeArg::parse("tiny"),
        RuntimeArg::parse("dummy@latest"),
    ]);
    assert_eq!(out.len(), 2);
    assert_eq!(out[1].version, RuntimeArgVersion::Version(s("latest")));

    // three tokens are never collapsed
    let out = RuntimeArg::double_runtime_condition(&vec![
        RuntimeArg::parse("a"),
        RuntimeArg::parse("1"),
        RuntimeArg::parse("2"),
    ]);
    assert_eq!(out.len(), 3);
}

#[test]
fn test_prefix_resolution() {
    let remote = strings(&["9.0.0", "10.0.0", "10.1.0"]);
    assert_eq!(latest_matching(&remote, "10"), Some(s("10.1.0")));
    // numeric, not lexical: the overall latest is 10.1.0, not 9.0.0
    assert_eq!(latest_matching(&remote, "latest"), Some(s("10.1.0")));
    assert_eq!(latest_matching(&remote, "99"), None);
    assert!(version_lt("9.0.0", "10.1.0"));
    assert!(!version_lt("10.1.0", "9.0.0"));
}

#[test]
fn test_alias_resolution() {
    let aliases = vec![(s("lts"), s("20.0.0"))];
    let installed = strings(&["20.0.0"]);
    let remote = strings(&["20.0.0", "21.0.0"]);
    let via_alias = resolve(
        &ToolVersion::Version(s("lts")),
        &installed,
        &remote,
        &aliases,
    );
    let direct = resolve(
        &ToolVersion::Version(s("20.0.0")),
        &installed,
        &remote,
        &aliases,
    );
    assert_eq!(via_alias, direct);
    assert_eq!(resolve_alias(&aliases, "lts"), Some(s("20.0.0")));
    assert_eq!(resolve_alias(&aliases, "20.0.0"), None);
}

#[test]
fn test_discovery_determinism() {
    let dirs = strings(&["/a/b/c", "/a/b", "/a"]);
    let legacy: Vec<(String, String)> = vec![];
    let existing = strings(&["/a/b/.tool-versions", "/a/.tool-versions"]);
    let files = find_all_config_files(
        &dirs,
        &legacy,
        ".tool-versions",
        &existing,
        "/home/user/.tool-versions",
        true,
    );
    assert_eq!(
        files,
        strings(&[
            "/a/b/.tool-versions",
            "/a/.tool-versions",
            "/home/user/.tool-versions"
        ])
    );
    // the home config found by the walk is not listed twice
    let files = find_all_config_files(
        &strings(&["/home/user"]),
        &legacy,
        ".tool-versions",
        &strings(&["/home/user/.tool-versions"]),
        "/home/user/.tool-versions",
        true,
    );
    assert_eq!(files, strings(&["/home/user/.tool-versions"]));
}

#[test]
fn test_bulk_install_isolation() {
    let plugins = vec![
        Plugin {
            name: s("alpha"),
            repository_url: None,
            installed: false,
        },
        Plugin {
            name: s("beta"),
            repository_url: None,
            installed: false,
        },
        Plugin {
            name: s("gamma"),
            repository_url: None,
            installed: false,
        },
    ];
    let missing = missing_plugins(&plugins);
    assert_eq!(missing.len(), 3);
    // beta's clone fails; the other two still complete
    let results = vec![(s("alpha"), true), (s("beta"), false), (s("gamma"), true)];
    let report = summarize_install_results(&results);
    assert!(!report.nothing_to_do);
    assert_eq!(report.failures, strings(&["beta"]));
    // nothing missing is reported as nothing-to-do, not silent success
    let report = summarize_install_results(&vec![]);
    assert!(report.nothing_to_do);
    assert!(report.failures.is_empty());
}

#[test]
fn test_parse_tool_versions() {
    let entries = parse_tool_versions("nodejs 20.0.0 system\n\ntiny prefix:2\n");
    assert_eq!(entries.len(), 2);
    assert_eq!(entries[0].0, "nodejs");
    assert_eq!(
        entries[0].1,
        vec![ToolVersion::Version(s("20.0.0")), ToolVersion::System]
    );
    assert_eq!(entries[1].0, "tiny");
    assert_eq!(entries[1].1, vec![ToolVersion::Prefix(s("2"))]);
}

#[test]
fn test_load_toolset() {
    let files = vec![
        (s("/a/b/.tool-versions"), s("nodejs 20.0.0")),
        (s("/a/.tool-versions"), s("nodejs 16.0.0\ntiny 1.0.0")),
    ];
    let ts = load_toolset(&files);
    let nodejs = ts.get(&s("nodejs")).unwrap();
    assert_eq!(nodejs.versions, vec![ToolVersion::Version(s("20.0.0"))]);
    let tiny = ts.get(&s("tiny")).unwrap();
    assert_eq!(tiny.versions, vec![ToolVersion::Version(s("1.0.0"))]);
    let frag = parse_file_toolset("/a/.tool-versions", "nodejs 16.0.0\nnodejs 17.0.0");
    let nodejs = frag.get(&s("nodejs")).unwrap();
    assert_eq!(
        nodejs.versions,
        vec![
            ToolVersion::Version(s("16.0.0")),
            ToolVersion::Version(s("17.0.0"))
        ]
    );
}

#[test]
fn test_legacy_filenames_merge() {
    let results = vec![
        (s("zeta"), strings(&[".node-version", ".nvmrc"])),
        (s("alpha"), strings(&[".node-version"])),
    ];
    let table = merge_legacy_filenames(true, &results);
    assert_eq!(
        table,
        vec![
            (s(".node-version"), s("alpha")),
            (s(".nvmrc"), s("zeta")),
        ]
    );
    assert!(merge_legacy_filenames(false, &results).is_empty());
}

#[test]
fn test_error_messages() {
    assert_eq!(
        RtxError::PluginNotFound(s("nosuch")).message(),
        "could not find plugin nosuch"
    );
    assert_eq!(
        RtxError::VersionNotInstalled(s("shfmt"), s("1111")).message(),
        "[shfmt] version 1111 not installed"
    );
    assert_eq!(
        RtxError::CouldNotInferName(s("x:")).message(),
        "could not infer plugin name from url: x:"
    );
    assert_eq!(
        RtxError::NoVersionSet(s("tiny")).message(),
        "no version set for tiny in ~/.tool-versions"
    );
    assert_eq!(
        RtxError::InvalidVersion(s("nodejs@system")).message(),
        "invalid version nodejs@system"
    );
    assert_eq!(
        RtxError::UnknownSetting(s("k")).message(),
        "Unknown setting: k"
    );
    assert_eq!(RtxError::NotBool(s("x")).message(), "x must be true or false");
    assert_eq!(RtxError::NotNumber(s("x")).message(), "x must be a number");
}

#[test]
fn test_parse_i64_edges() {
    assert_eq!(parse_i64("1").unwrap(), 1);
    assert_eq!(parse_i64("-5").unwrap(), -5);
    assert_eq!(parse_i64("+7").unwrap(), 7);
    assert_eq!(parse_i64("9223372036854775807").unwrap(), i64::MAX);
    assert_eq!(parse_i64("-9223372036854775808").unwrap(), i64::MIN);
    assert!(parse_i64("9223372036854775808").is_err());
    assert!(parse_i64("abc").is_err());
    assert!(parse_i64("").is_err());
    assert!(parse_i64("-").is_err());
    assert!(parse_i64("1.5").is_err());
    assert!(parse_bool("true").unwrap());
    assert!(!parse_bool("false").unwrap());
    assert!(parse_bool("yes").is_err());
}

#[test]
fn test_version_order() {
    assert!(version_lt("9", "10"));
    assert!(version_lt("1.9.0", "1.10.0"));
    assert!(!version_lt("1.10.0", "1.9.0"));
    assert!(version_lt("1.2", "1.2.1"));
    assert!(!version_lt("1.2.1", "1.2.1"));
    // digit runs sort before everything else
    assert!(version_lt("1.2.3", "1.2.rc1"));
    assert!(!version_lt("1.2.rc1", "1.2.3"));
}

#[test]
fn test_runtime_arg_parse() {
    let a = RuntimeArg::parse("nodejs@20");
    assert_eq!(a.plugin, "nodejs");
    assert_eq!(a.version, RuntimeArgVersion::Version(s("20")));
    let a = RuntimeArg::parse("nodejs");
    assert_eq!(a.version, RuntimeArgVersion::Unspecified);
    let a = RuntimeArg::parse("nodejs@system");
    assert_eq!(a.version, RuntimeArgVersion::System);
    assert_eq!(a.to_text(), "nodejs@system");
    assert_eq!(RuntimeArg::parse("nodejs@20").to_text(), "nodejs@20");
    assert_eq!(RuntimeArg::parse("nodejs").to_text(), "nodejs");
    assert_eq!(RuntimeArgVersion::Unspecified.to_text(), "current");
    let parser = RuntimeArgParser;
    assert_eq!(parser.parse("tiny@1"), RuntimeArg::parse("tiny@1"));
}

#[test]
fn test_shorthand_table() {
    assert_eq!(
        shorthand_to_repository("nodejs"),
        Some(s("https://github.com/asdf-vm/asdf-nodejs.git"))
    );
    assert_eq!(shorthand_to_repository("no-such-plugin"), None);
    assert_eq!(
        get_name_from_url("https://github.com/jdxcode/asdf-nodejs").unwrap(),
        "nodejs"
    );
    assert_eq!(plugin_name_from_segment("asdf-ruby"), "ruby");
    assert_eq!(plugin_name_from_segment("shfmt"), "shfmt");
    let err = get_name_and_url(s("nosuch"), None).unwrap_err();
    assert_eq!(err.message(), "could not find plugin nosuch");
}

#[test]
fn test_resolve_variants() {
    let none: Vec<String> = vec![];
    let aliases: Vec<(String, String)> = vec![];
    assert_eq!(
        resolve(&ToolVersion::System, &none, &none, &aliases),
        Ok(Resolution::System)
    );
    assert_eq!(
        resolve(&ToolVersion::Path(s("/opt/node")), &none, &none, &aliases),
        Ok(Resolution::Path(s("/opt/node")))
    );
    assert_eq!(
        resolve(
            &ToolVersion::Ref(s("abc")),
            &strings(&["ref-abc"]),
            &none,
            &aliases
        ),
        Ok(Resolution::Installed(s("ref-abc")))
    );
    assert_eq!(
        resolve(&ToolVersion::Ref(s("abc")), &none, &none, &aliases),
        Ok(Resolution::NeedsInstall(ToolVersion::Ref(s("abc"))))
    );
    assert_eq!(
        resolve(
            &ToolVersion::Version(s("1.0.0")),
            &strings(&["1.0.0"]),
            &none,
            &aliases
        ),
        Ok(Resolution::Installed(s("1.0.0")))
    );
    assert_eq!(
        resolve(
            &ToolVersion::Version(s("1.0.0")),
            &none,
            &strings(&["1.0.0"]),
            &aliases
        ),
        Ok(Resolution::NeedsInstall(ToolVersion::Version(s("1.0.0"))))
    );
    let err = resolve(&ToolVersion::Version(s("1.0.0")), &none, &none, &aliases).unwrap_err();
    assert_eq!(
        err,
        rtx_core::resolver::ResolveError::VersionNotFound(s("1.0.0"))
    );
    assert_eq!(
        resolve(
            &ToolVersion::Prefix(s("10")),
            &none,
            &strings(&["9.0.0", "10.0.0", "10.1.0"]),
            &aliases
        ),
        Ok(Resolution::NeedsInstall(ToolVersion::Version(s("10.1.0"))))
    );
    let err = resolve(
        &ToolVersion::Prefix(s("99")),
        &none,
        &strings(&["9.0.0"]),
        &aliases,
    )
    .unwrap_err();
    assert_eq!(
        err,
        rtx_core::resolver::ResolveError::NoVersionMatchingPrefix(s("99"))
    );
}

#[test]
fn test_toolset_dump() {
    let mut ts = Toolset::new(ToolSource::Argument);
    ts.add_version(s("nodejs"), ToolVersion::Version(s("20.0.0")));
    ts.add_version(s("nodejs"), ToolVersion::Prefix(s("18")));
    ts.add_version(s("tiny"), ToolVersion::System);
    assert_eq!(ts.dump(), "Toolset: nodejs 20.0.0 prefix:18, tiny system");
    let empty = Toolset::new(ToolSource::Unset);
    assert_eq!(empty.dump(), "Toolset: ");
}

#[test]
fn test_envrc_render() {
    let files = strings(&["/a/.tool-versions"]);
    let env = vec![(s("FOO"), s("a b"))];
    let paths = strings(&["/p"]);
    let text = Envrc::render(&files, &env, &paths);
    assert_eq!(
        text,
        "### Do not edit ###\nwatch_file /a/.tool-versions\nexport FOO='a b'\nPATH_add /p\n"
    );
}

#[test]
fn test_entry_edits() {
    let entries = parse_tool_versions("nodejs 20.0.0\ntiny 1.0.0");
    let edited = upsert_entry(&entries, "nodejs", vec![ToolVersion::Prefix(s("18"))]);
    assert_eq!(edited[0].0, "nodejs");
    assert_eq!(edited[0].1, vec![ToolVersion::Prefix(s("18"))]);
    assert_eq!(edited[1].0, "tiny");
    let appended = upsert_entry(&entries, "ruby", vec![ToolVersion::Version(s("3.0.0"))]);
    assert_eq!(appended.len(), 3);
    assert_eq!(appended[2].0, "ruby");
    let removed = remove_entry(&entries, "nodejs");
    assert_eq!(removed.len(), 1);
    assert_eq!(removed[0].0, "tiny");
}

#[test]
fn test_tool_version_list() {
    let mut list = ToolVersionList::new(ToolSource::Argument);
    assert!(list.versions.is_empty());
    list.add_version(ToolVersion::Version(s("1.0.0")));
    list.add_version(ToolVersion::System);
    assert_eq!(
        list.versions,
        vec![ToolVersion::Version(s("1.0.0")), ToolVersion::System]
    );
    assert_eq!(list.source, ToolSource::Argument);
}

#[test]
fn test_command_names() {
    assert_eq!(
        Commands::Global(Global {
            runtime: None,
            fuzzy: false,
            remove: None
        })
        .name(),
        "global"
    );
    assert_eq!(Commands::Direnv(Envrc {}).name(), "direnv");
    assert_eq!(
        Commands::Where(Where {
            runtime: RuntimeArg::parse("x"),
            asdf_version: None
        })
        .name(),
        "where"
    );
}
