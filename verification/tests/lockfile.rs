use deno_args::config::{ConfigFolder, DenoJson, FolderConfigs, Workspace};
use deno_args::config_file::{ConfigFileJson, ConfigText};
use deno_args::flags::{
    ConfigFlag, DenoSubcommand, Flags, InstallFlags, InstallKind, PermissionFlags, RunFlags,
    TypeCheckMode, UnstableConfig,
};
use deno_args::lockfile::{
    can_widen_workspace, discover_lockfile, workspace_config, write_error, CliLockfile, FileRead,
    LockfileSource, WorkspaceConfig, WorkspaceMemberConfig, EMPTY_LOCKFILE_TEXT,
};
use deno_args::lockfile_text::{can_be_read, check_cut};
use deno_args::package_json::{can_widen_deps, PackageJsonFile};
use deno_args::specifier::ModuleSpecifier;

fn specifier(text: &str) -> ModuleSpecifier {
    ModuleSpecifier::parse(text).unwrap()
}

fn texts(items: &[&str]) -> Vec<String> {
    items.iter().map(|item| item.to_string()).collect()
}

fn pairs(items: &[(&str, &str)]) -> Vec<(String, String)> {
    items.iter().map(|item| (item.0.to_string(), item.1.to_string())).collect()
}

fn flags(subcommand: DenoSubcommand) -> Flags {
    Flags {
        argv: Vec::new(),
        subcommand,
        ca_stores: None,
        ca_data: None,
        cache_blocklist: Vec::new(),
        cache_path: None,
        cached_only: false,
        code_cache_enabled: false,
        type_check_mode: TypeCheckMode::Local,
        config_flag: ConfigFlag::Discover,
        enable_op_summary_metrics: false,
        enable_testing_features: false,
        env_file: None,
        ext: None,
        frozen_lockfile: false,
        import_map_path: None,
        inspect: None,
        inspect_brk: None,
        inspect_wait: None,
        location: None,
        lock: None,
        lock_write: false,
        log_level: None,
        no_lock: false,
        no_npm: false,
        no_remote: false,
        node_modules_dir: None,
        permissions: PermissionFlags { no_prompt: false },
        reload: false,
        seed: None,
        strace_ops: None,
        unsafely_ignore_certificate_errors: None,
        unstable_config: UnstableConfig {
            legacy_flag_enabled: false,
            bare_node_builtins: false,
            byonm: false,
            sloppy_imports: false,
            features: Vec::new(),
        },
        v8_flags: Vec::new(),
        vendor: None,
    }
}

fn run() -> Flags {
    flags(DenoSubcommand::Run(RunFlags { script: "main.ts".to_string(), watch: None }))
}

fn config_text(text: &str) -> ConfigText {
    ConfigText::new(text.to_string()).unwrap()
}

fn deno_json(url: &str, dependencies: &[&str]) -> DenoJson {
    DenoJson {
        specifier: specifier(url),
        text: config_text("{}"),
        json: ConfigFileJson {
            name: None,
            version: None,
            import_map: None,
            imports: None,
            scopes: None,
            exports: None,
            node_modules_dir: None,
            vendor: None,
            unstable: Vec::new(),
        },
        dependencies: texts(dependencies),
    }
}

fn package_json(dependencies: &[(&str, &str)]) -> PackageJsonFile {
    PackageJsonFile {
        path: "/project/package.json".to_string(),
        name: None,
        version: None,
        dependencies: pairs(dependencies),
        dev_dependencies: Vec::new(),
    }
}

fn folder(url: &str, deno_json: Option<DenoJson>, pkg_json: Option<PackageJsonFile>) -> ConfigFolder {
    ConfigFolder { url: specifier(url), configs: FolderConfigs { deno_json, pkg_json } }
}

fn workspace(folders: Vec<ConfigFolder>) -> Workspace {
    Workspace::new(folders, 0, None)
}

fn small_workspace() -> Workspace {
    workspace(vec![folder(
        "file:///project/",
        Some(deno_json("file:///project/deno.json", &["jsr:@std/path@1"])),
        Some(package_json(&[("chalk", "^5.0.0")])),
    )])
}

#[test]
fn dependencies_of_a_workspace() {
    let config = workspace_config(&workspace(vec![
        folder(
            "file:///project/",
            Some(deno_json("file:///project/deno.json", &["jsr:@std/path@1", "npm:a@1"])),
            Some(package_json(&[
                ("chalk", "^5.0.0"),
                ("other", "npm:named@1"),
                ("member", "workspace:*"),
                ("broken", "file:../x"),
            ])),
        ),
        folder(
            "file:///project/member/",
            Some(deno_json("file:///project/member/deno.json", &["npm:b@2"])),
            None,
        ),
        folder("file:///project/empty/", Some(deno_json("file:///project/empty/deno.json", &[])), None),
    ]));
    assert_eq!(config.root.dependencies, texts(&["jsr:@std/path@1", "npm:a@1"]));
    assert_eq!(config.root.package_json_deps, texts(&["npm:chalk@^5.0.0", "npm:named@1"]));
    assert_eq!(config.members.len(), 1);
    assert_eq!(config.members[0].0, "member");
    assert_eq!(config.members[0].1.dependencies, texts(&["npm:b@2"]));
    assert!(config.members[0].1.package_json_deps.is_empty());
}

#[test]
fn order_of_dependencies() {
    let file = package_json(&[("b", "1"), ("c", "1"), ("a", "2"), ("b", "3")]);
    let config = workspace_config(&workspace(vec![folder("file:///project/", None, Some(file))]));
    assert_eq!(config.root.package_json_deps, texts(&["npm:b@3", "npm:c@1", "npm:a@2"]));
}

#[test]
fn version_requirements_that_can_be_widened() {
    assert!(can_widen_workspace(&small_workspace()));
    let file = package_json(&[("a", "^18446744073709551615.0.0")]);
    assert!(!can_widen_deps(&file));
    let mut other = package_json(&[]);
    other.dev_dependencies = pairs(&[("a", "~1.18446744073709551615")]);
    assert!(!can_widen_deps(&other));
    assert!(!can_widen_workspace(&workspace(vec![folder("file:///project/", None, Some(file))])));
    assert!(can_widen_deps(&package_json(&[("a", "file:../18446744073709551615")])));
    let large = "18446744073709551615";
    for requirement in [
        "^#.0.0",
        "^0.#",
        "^0.0.#",
        "~#",
        "~1.#.0",
        "~> 1.#",
        "#",
        "#.x",
        "1.#",
        ">#",
        "<=1.#",
        "1 || v0#",
        "^vv#.0.0",
        "~v v1.#",
        "> v#",
        ">= ~1.#",
        "1.0.0 && 1.#",
        "1.0.0,#",
        "1.0.0 - 2.#",
        "npm:b@#",
        "workspace:^#.0.0",
    ] {
        let requirement = requirement.replace('#', large);
        assert!(!can_widen_deps(&package_json(&[("a", requirement.as_str())])), "{}", requirement);
    }
    for requirement in [
        "#.0.0",
        "1.#.0",
        "=1.0.#",
        "1.0.0-#",
        "1.0.0-pre.#+#",
        "^1.#",
        "^1.0.#",
        "^0.1.#",
        "~1.0.#",
        ">=#",
        "<#",
        ">= 1.# <2.#",
        "#0",
        "2-#",
        "a#",
    ] {
        let requirement = requirement.replace('#', large);
        let file = package_json(&[("a", requirement.as_str())]);
        assert!(can_widen_deps(&file), "{}", requirement);
        let _ = deno_semver::VersionReq::parse_from_npm(&requirement);
    }
}

#[test]
fn sources_of_lockfiles() {
    let source = |flags: &Flags| CliLockfile::discover_source(flags, &small_workspace()).unwrap();
    assert!(matches!(source(&run()), LockfileSource::ReadFrom(path) if path == "/project/deno.lock"));
    let mut off = run();
    off.no_lock = true;
    assert!(matches!(source(&off), LockfileSource::Off));
    let install = |kind| flags(DenoSubcommand::Install(InstallFlags { kind }));
    assert!(matches!(source(&install(InstallKind::Global)), LockfileSource::Off));
    assert!(matches!(source(&install(InstallKind::Local)), LockfileSource::ReadFrom(_)));
    assert!(matches!(source(&flags(DenoSubcommand::Uninstall)), LockfileSource::Off));
    let mut named = run();
    named.lock = Some("other.lock".to_string());
    assert!(matches!(source(&named), LockfileSource::ReadFrom(path) if path == "other.lock"));
    named.lock_write = true;
    assert!(matches!(source(&named), LockfileSource::Fresh(path) if path == "other.lock"));
    let nowhere = workspace(vec![folder("file:///project/", None, None)]);
    assert!(matches!(CliLockfile::discover_source(&run(), &nowhere), Ok(LockfileSource::Off)));
    let mut broken = deno_json("file:///project/deno.json", &[]);
    broken.text = config_text(r#"{ "lock": 5 }"#);
    let broken = workspace(vec![folder("file:///project/", Some(broken), None)]);
    let error = CliLockfile::discover_source(&run(), &broken).unwrap_err();
    assert_eq!(error.message, "Failed to parse \"lock\" configuration");
    // at the root there is no directory to see a path from
    let at_root = |text: &str| {
        let mut file = deno_json("file:///", &[]);
        file.text = config_text(text);
        let workspace = workspace(vec![folder("file:///", Some(file), None)]);
        CliLockfile::discover_source(&run(), &workspace)
    };
    assert!(matches!(at_root("{}"), Ok(LockfileSource::ReadFrom(path)) if path == "/deno.lock"));
    assert!(matches!(
        at_root(r#"{ "lock": { "frozen": true } }"#),
        Ok(LockfileSource::ReadFrom(path)) if path == "/deno.lock"
    ));
    assert!(matches!(at_root(r#"{ "lock": false }"#), Ok(LockfileSource::Off)));
    assert!(at_root(r#"{ "lock": "a.lock" }"#).is_err());
    assert!(at_root(r#"{ "lock": { "path": "a.lock" } }"#).is_err());
}

#[test]
fn missing_lockfile_is_not_written() {
    let read = FileRead::NotFound;
    let mut lockfile = CliLockfile::discover(&run(), &small_workspace(), read).unwrap().unwrap();
    assert_eq!(lockfile.filename(), "/project/deno.lock");
    assert!(!lockfile.overwrite());
    assert!(!lockfile.frozen());
    assert!(!lockfile.has_content_changed());
    let json = lockfile.to_json();
    assert!(json.contains("jsr:@std/path@1"));
    assert!(json.contains("npm:chalk@^5.0.0"));
    assert!(lockfile.write_if_changed(false, "").unwrap().is_none());
}

#[test]
fn empty_lockfile_is_written_out() {
    let lockfile = CliLockfile::read_from_path("/a.lock", FileRead::NotFound, false).unwrap();
    assert_eq!(lockfile.to_json(), EMPTY_LOCKFILE_TEXT);
    assert_eq!(lockfile.inner().filename.to_str(), Some("/a.lock"));
    let mut lockfile = lockfile;
    lockfile.lock().insert_remote("https://example.com/".to_string(), "hash".to_string());
    assert!(lockfile.has_content_changed());
    assert!(lockfile.to_json().contains("https://example.com/"));
    assert!(!lockfile.frozen());
}

#[test]
fn fresh_lockfile_is_written() {
    let mut flags = run();
    flags.lock_write = true;
    let mut lockfile =
        CliLockfile::discover(&flags, &small_workspace(), FileRead::NotFound).unwrap().unwrap();
    assert!(lockfile.overwrite());
    let json = lockfile.to_json();
    let bytes = lockfile.write_if_changed(false, "").unwrap().unwrap();
    assert_eq!(String::from_utf8(bytes).unwrap(), json);
}

#[test]
fn lockfile_is_off() {
    let mut flags = run();
    flags.no_lock = true;
    let found = CliLockfile::discover(&flags, &small_workspace(), FileRead::NotFound).unwrap();
    assert!(found.is_none());
}

fn text_with(dependency: &str) -> String {
    format!(
        "{{\n  \"version\": \"4\",\n  \"workspace\": {{\n    \"dependencies\": [\n      \"{}\"\n    ]\n  }}\n}}\n",
        dependency
    )
}

#[test]
fn changed_lockfile_is_written_once() {
    let text = text_with("jsr:@std/fs@1");
    assert!(can_be_read(&text));
    let read = FileRead::Text(text);
    let mut lockfile = CliLockfile::discover(&run(), &small_workspace(), read).unwrap().unwrap();
    assert!(lockfile.has_content_changed());
    assert!(lockfile.error_if_changed(false, "").is_ok());
    let json = lockfile.to_json();
    assert!(!json.contains("jsr:@std/fs@1"));
    let bytes = lockfile.write_if_changed(false, "").unwrap().unwrap();
    assert_eq!(String::from_utf8(bytes).unwrap(), json);
    assert!(!lockfile.has_content_changed());
    assert!(lockfile.write_if_changed(false, "").unwrap().is_none());
}

#[test]
fn unchanged_lockfile_is_not_written() {
    let mut flags = run();
    flags.frozen_lockfile = true;
    let folders = || {
        let config = deno_json("file:///project/deno.json", &["jsr:@std/path@1"]);
        workspace(vec![folder("file:///project/", Some(config), None)])
    };
    let read = FileRead::Text(text_with("jsr:@std/path@1"));
    let mut lockfile = CliLockfile::discover(&flags, &folders(), read).unwrap().unwrap();
    assert!(lockfile.frozen());
    assert!(!lockfile.has_content_changed());
    assert!(lockfile.write_if_changed(false, "").unwrap().is_none());
}

#[test]
fn frozen_lockfile_has_to_stay() {
    let mut flags = run();
    flags.frozen_lockfile = true;
    let read = FileRead::Text(text_with("jsr:@std/fs@1"));
    let mut lockfile = CliLockfile::discover(&flags, &small_workspace(), read).unwrap().unwrap();
    let error = lockfile.write_if_changed(false, "- a\n+ b\n\n").unwrap_err();
    assert_eq!(
        error.message,
        "The lockfile is out of date. Run `deno cache --frozen=false` or rerun with `--frozen=false` to update it.\nchanges:\n- a\n+ b"
    );
    let error = lockfile.error_if_changed(true, "").unwrap_err();
    assert_eq!(
        error.message,
        "The lockfile is out of date. Run `deno cache --frozen=false`, `deno install --frozen=false`, or rerun with `--frozen=false` to update it.\nchanges:\n"
    );
    assert!(lockfile.has_content_changed());
}

#[test]
fn workspace_is_taken_in_once() {
    let config = WorkspaceConfig {
        root: WorkspaceMemberConfig {
            dependencies: texts(&["jsr:@std/path@1"]),
            package_json_deps: texts(&["npm:chalk@5"]),
        },
        members: Vec::new(),
    };
    let read = FileRead::Text(text_with("jsr:@std/fs@1"));
    let mut lockfile = CliLockfile::read_from_path("/a.lock", read, false).unwrap();
    lockfile.set_workspace_config(&config, false, false);
    assert!(lockfile.has_content_changed());
    lockfile.write_if_changed(false, "").unwrap();
    lockfile.set_workspace_config(&config, false, false);
    assert!(!lockfile.has_content_changed());
}

#[test]
fn malformed_lockfiles() {
    let empty = FileRead::Text(" \n".to_string());
    let error = CliLockfile::read_from_path("/a.lock", empty, false).unwrap_err();
    assert_eq!(error.message, "Unable to read lockfile. Lockfile was empty at '/a.lock'.");
    let broken = FileRead::Text("{".to_string());
    assert!(CliLockfile::read_from_path("/a.lock", broken, false).is_err());
    let failed = FileRead::Failed("denied".to_string());
    let error = CliLockfile::read_from_path("/a.lock", failed, false).unwrap_err();
    assert_eq!(error.message, "Failed reading lockfile '/a.lock'");
    assert_eq!(error.cause.as_deref(), Some("denied"));
    let error = write_error("full");
    assert_eq!(error.message, "Failed writing lockfile.");
    assert_eq!(error.cause.as_deref(), Some("full"));
}

#[test]
fn cuts() {
    assert!(check_cut("", 1));
    assert!(check_cut("a\u{e9}", 1));
    assert!(!check_cut("\u{e9}", 1));
    assert!(check_cut("abcde\u{e9}", 5));
    assert!(check_cut("abc\u{e9}", 5));
    assert!(!check_cut("abcd\u{e9}", 5));
    assert!(!check_cut("abc\u{1f600}", 5));
    assert!(check_cut("ab\u{20ac}", 5));
}

/// Whether a text can be read, which is tried if so.
fn reads(text: &str) -> bool {
    let can_be_read = can_be_read(text);
    if can_be_read {
        let _ = CliLockfile::read_from_path("/a.lock", FileRead::Text(text.to_string()), false);
    }
    can_be_read
}

#[test]
fn readable_lockfile_texts() {
    assert!(reads(EMPTY_LOCKFILE_TEXT));
    assert!(reads(""));
    assert!(reads("[]"));
    // remote modules and checksums are not cut
    assert!(reads(r#"{"version":"4","remote":{"https://a/\u0062.ts":"h"}}"#));
    assert!(reads("{\"version\":\"4\",\"remote\":{\"\u{e9}\":\"\u{e9}\"}}"));
    assert!(reads("{\"version\":\"4\",\"npm\":{\"a@1\":{\"integrity\":\"\u{e9}\"}}}"));
    assert!(!reads("{\"version\":\"4\",\"npm\":{\"\u{e9}@1\":{\"integrity\":\"h\"}}}"));
    assert!(!reads(r#"{"version":"4","npm":{"\u00e9@1":{"integrity":"h"}}}"#));
    let with_dep = |dep: &str| {
        format!(
            "{{\"version\":\"4\",\"npm\":{{\"a@1\":{{\"integrity\":\"h\",\"dependencies\":[\"{}\"]}}}}}}",
            dep
        )
    };
    assert!(reads(&with_dep("b@2")));
    assert!(reads(&with_dep("b\u{e9}@2")));
    assert!(!reads(&with_dep("\u{e9}@2")));
    assert!(reads(&with_dep("b@npm:c@2")));
    assert!(!reads(&with_dep("b@npm:\u{e9}@2")));
    assert!(reads(&with_dep("b@2@npm:\u{e9}")));
    // what is no package is not cut
    assert!(reads("{\"version\":\"4\",\"npm\":{\"\u{e9}@1\":{}}}"));
    assert!(reads("{\"version\":\"4\",\"npm\":{\"\u{e9}@1\":{\"integrity\":1}}}"));
    assert!(reads("{\"version\":\"4\",\"npm\":{\"\u{e9}@1\":[]}}"));
    assert!(!reads("{\"version\":\"4\",\"npm\":{\"\u{e9}@1\":[\"h\"]}}"));
    assert!(!reads("{\"version\":\"4\",\"npm\":{\"a@1\":[\"h\",[\"\u{e9}@1\"]]}}"));
    assert!(reads("{\"version\":\"4\",\"npm\":{\"a@1\":[\"h\",[\"\u{e9}@1\"],1]}}"));
    assert!(reads("{\"version\":\"4\",\"npm\":{\"a@1\":[\"h\",[\"\u{e9}@1\",1]]}}"));
    let specifiers = "\"specifiers\":{\"jsr:a\":1}";
    let npm = "\"npm\":{\"\u{e9}@1\":[\"h\"]}";
    assert!(reads(&format!("{{\"version\":\"4\",{},{}}}", specifiers, npm)));
    assert!(reads(&format!("{{\"version\":\"4\",\"specifiers\":null,{}}}", npm)));
}

#[test]
fn wrong_identifiers_in_lockfiles() {
    // what is wrong ends the reading, in the order of the identifiers
    let ids = |ids: [&str; 2]| {
        format!("{{\"version\":\"4\",\"npm\":{{\"{}\":[\"\"],\"{}\":[\"\"]}}}}", ids[0], ids[1])
    };
    assert!(reads(&ids(["wrong", "\u{e9}@1"])));
    assert!(reads(&ids(["\u{e9}@1", "wrong"])));
    assert!(!reads(&ids(["\u{e9}@1", "\u{ea}"])));
    let deps = |a: &str, b: &str| {
        format!(
            "{{\"version\":\"4\",\"npm\":{{\"b@1\":[\"\",[{}]],\"a@1\":[\"\",[{}]]}}}}",
            b, a
        )
    };
    assert!(reads(&deps("\"missing\"", "\"\u{e9}@1\"")));
    assert!(!reads(&deps("\"\u{e9}@1\"", "\"missing\"")));
    assert!(reads(&deps("\"b\", \"c@npm:wrong\", \"\u{e9}@1\"", "")));
    assert!(!reads(&deps("\"b\", \"\u{e9}@1\", \"c@npm:wrong\"", "")));
    let named = |deps: &str| {
        let npm = format!("{{\"a@1\":{{\"integrity\":\"\",\"dependencies\":{{{}}}}}}}", deps);
        format!("{{\"version\":\"3\",\"packages\":{{\"npm\":{}}}}}", npm)
    };
    assert!(reads(&named("\"a\":\"wrong\",\"b\":\"\u{e9}@1\"")));
    assert!(!reads(&named("\"a\":\"\u{e9}@1\",\"b\":\"wrong\"")));
    let requirements = |keys: &str| {
        let jsr = "\"jsr\":{\"@a/b@1\":{\"integrity\":\"h\"}}";
        format!("{{\"version\":\"4\",\"specifiers\":{{{}}},{}}}", keys, jsr)
    };
    assert!(reads(&requirements("\"jsr\":\"a\",\"jsr:\u{e9}\":\"a\"")));
    assert!(!reads(&requirements("\"jsr:\u{e9}\":\"a\",\"npm\":\"a\"")));
}

#[test]
fn aliases_in_lockfiles() {
    // a name without a version takes that of the package, which may be an alias
    let aliased = |id: &str, dep: &str| {
        format!(
            "{{\"version\":\"4\",\"npm\":{{\"{}\":{{\"integrity\":\"\"}},\"bar@1.0\":{{\"integrity\":\"\",\"dependencies\":[\"{}\"]}}}}}}",
            id, dep
        )
    };
    assert!(!reads(&aliased("foo@npm:\u{fc}@1.0", "foo")));
    assert!(reads(&aliased("foo@npm:\u{fc}@1.0", "other@1")));
    assert!(reads(&aliased("foo@npm:u@1.0", "foo")));
    // the last version counts
    let both = |first: &str, second: &str| {
        format!(
            "{{\"version\":\"4\",\"npm\":{{\"a@1\":[\"\",[\"b\"]],\"b@{}\":[\"\"],\"b@{}\":[\"\"]}}}}",
            first, second
        )
    };
    assert!(reads(&both("npm:\u{fc}@1", "z")));
    assert!(reads(&both("z", "npm:\u{fc}@1")));
    assert!(!reads(&both("1", "npm:\u{fc}@1")));
    let earlier = |version: &str, deps: &str| {
        let npm = format!(
            "{{\"foo@npm:\u{fc}@1\":{{\"integrity\":\"\"}},\"bar@1\":{{\"integrity\":\"\",\"dependencies\":{{{}}}}}}}",
            deps
        );
        match version {
            "2" => format!("{{\"version\":\"2\",\"npm\":{{\"packages\":{}}}}}", npm),
            _ => format!("{{\"version\":\"3\",\"packages\":{{\"npm\":{}}}}}", npm),
        }
    };
    for version in ["2", "3"] {
        assert!(!reads(&earlier(version, "\"foo\":\"foo@1\"")));
        assert!(reads(&earlier(version, "\"fu\":\"foo@1\"")));
        assert!(!reads(&earlier(version, "\"fu\":\"\u{e9}@1\"")));
        assert!(!reads(&earlier(version, "\"\u{e9}\":\"foo@1\"")));
    }
}

#[test]
fn requirements_in_lockfiles() {
    // requirements are cut where there are JSR packages
    let key = "\"specifiers\":{\"jsr:\u{e9}\":\"a\"}";
    assert!(reads(&format!("{{\"version\":\"4\",{}}}", key)));
    assert!(reads(&format!("{{\"version\":\"4\",{},\"jsr\":{{}}}}", key)));
    let jsr = "\"jsr\":{\"@a/b@1\":{\"integrity\":\"h\"}}";
    assert!(!reads(&format!("{{\"version\":\"4\",{},{}}}", key, jsr)));
    assert!(reads(&format!("{{\"version\":\"4\",{},\"jsr\":{{\"a\":1}}}}", key)));
    let packages = format!("{{{},\"jsr\":{{}}}}", key);
    assert!(reads(&format!("{{\"version\":\"4\",\"packages\":{}}}", packages)));
    assert!(!reads(&format!("{{\"version\":\"3\",\"packages\":{}}}", packages)));
    let jsr = "\"packages\":{\"jsr\":{\"@a/b@1\":{\"dependencies\":[\"jsr:\u{e9}\"]}}}";
    assert!(!reads(&format!("{{\"version\":\"3\",{}}}", jsr)));
    let jsr = "\"packages\":{\"jsr\":{\"@a/b@1\":[\"h\",[\"jsr:\u{e9}\"]]}}";
    assert!(reads(&format!("{{\"version\":\"3\",{}}}", jsr)));
    let npm = "\"npm\":{\"packages\":{\"a@1\":{\"dependencies\":{\"b\":\"\u{e9}@1\"}}}}";
    assert!(!reads(&format!("{{\"version\":\"2\",{}}}", npm)));
    assert!(reads(&format!("{{\"version\":\"5\",{}}}", npm)));
    assert!(reads(&format!("{{{}}}", npm)));
    let npm = "\"npm\":{\"packages\":{\"a@1\":[\"h\",[\"\u{e9}@1\"]]}}";
    assert!(!reads(&format!("{{\"version\":\"2\",{}}}", npm)));
}

#[test]
fn lockfiles_with_escapes_are_read() {
    let text = r#"{"version":"4","remote":{"https://a/\u0062.ts":"h"}}"#;
    let outcome = discover_lockfile(&run(), &small_workspace(), FileRead::Text(text.to_string()));
    let lockfile = outcome.unwrap().unwrap().unwrap();
    assert_eq!(lockfile.filename(), "/project/deno.lock");
    assert!(!lockfile.overwrite());
    assert!(lockfile.can_be_written());
    assert!(lockfile.to_json().contains("https://a/b.ts"));
}

#[test]
fn lockfiles_that_cannot_be_discovered() {
    let unreadable =
        || FileRead::Text("{\"version\":\"4\",\"npm\":{\"\u{e9}@1\":[\"h\"]}}".to_string());
    assert!(discover_lockfile(&run(), &small_workspace(), unreadable()).is_none());
    let large = || {
        let file = package_json(&[("a", "^18446744073709551615.0.0")]);
        workspace(vec![folder("file:///project/", None, Some(file))])
    };
    assert!(discover_lockfile(&run(), &large(), FileRead::NotFound).is_none());
    // nothing is taken in where there is no lockfile
    let mut off = run();
    off.no_lock = true;
    assert!(discover_lockfile(&off, &large(), unreadable()).unwrap().unwrap().is_none());
    let failed = FileRead::Failed("denied".to_string());
    assert!(discover_lockfile(&run(), &large(), failed).unwrap().is_err());
    let mut fresh = run();
    fresh.lock_write = true;
    let lockfile = discover_lockfile(&fresh, &small_workspace(), unreadable());
    assert!(lockfile.unwrap().unwrap().unwrap().overwrite());
}

#[test]
fn lockfiles_that_cannot_be_written() {
    let text = "{\"version\":\"4\",\"specifiers\":{\"jsr:\u{e9}\":\"jsr:a@1\"}}";
    let read = FileRead::Text(text.to_string());
    let lockfile = CliLockfile::read_from_path("/a.lock", read, false).unwrap();
    assert!(!lockfile.can_be_written());
    let empty = CliLockfile::read_from_path("/a.lock", FileRead::NotFound, false).unwrap();
    assert!(empty.can_be_written());
}

#[test]
fn packages_go_with_their_requirements() {
    let text = r#"{
        "version": "4",
        "specifiers": { "npm:a@1": "npm:a@1.0.0", "npm:b@1": "npm:b@1.0.0" },
        "npm": {
            "a@1.0.0": { "integrity": "ha", "dependencies": ["c"] },
            "b@1.0.0": { "integrity": "hb" },
            "c@1.0.0": { "integrity": "hc" }
        },
        "redirects": { "https://a.com/": "https://b.com/" },
        "remote": { "https://c.com/": "h" },
        "workspace": { "dependencies": ["npm:a@1", "npm:b@1"] }
    }"#;
    let config = |dependencies: &[&str]| WorkspaceConfig {
        root: WorkspaceMemberConfig {
            dependencies: texts(dependencies),
            package_json_deps: Vec::new(),
        },
        members: Vec::new(),
    };
    let read = FileRead::Text(text.to_string());
    let mut lockfile = CliLockfile::read_from_path("/a.lock", read, false).unwrap();
    let before = lockfile.to_json();
    assert!(before.contains("c@1.0.0"));
    lockfile.set_workspace_config(&config(&["npm:a@1", "npm:b@1"]), false, false);
    assert!(!lockfile.has_content_changed());
    assert_eq!(lockfile.to_json(), before);
    lockfile.set_workspace_config(&config(&["npm:b@1"]), false, false);
    assert!(lockfile.has_content_changed());
    let after = lockfile.to_json();
    assert!(!after.contains("a@1.0.0") && !after.contains("c@1.0.0"));
    assert!(after.contains("b@1.0.0"));
    assert!(lockfile.can_be_written());
    assert!(after.contains("https://b.com/") && after.contains("https://c.com/"));
}
