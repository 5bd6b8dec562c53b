use std::path::Path;
use std::path::PathBuf;

use deno_args::cache_setting::CacheSetting;
use deno_args::certs::{
    get_root_cert_store, pem_read_error, CertStep, PemRead, RootCertStoreLoadError,
};
use deno_args::config::DenoJson;
use deno_args::config_file::ConfigText;
use deno_args::error::CliError;
use deno_args::flags::{
    has_flag_env_var, resolve_no_prompt, BenchFlags, CaData, FileFlags, FmtFlags, GraphKind,
    LintFlags, NonZeroUsize, PermissionFlags, RunFlags, TestFlags, TestReporterConfig,
    TypeCheckMode,
};
use deno_args::import_maps::{
    import_map_load_error, import_map_specifier, resolve_import_map_specifier,
    IGNORED_IMPORT_MAP_WARNING,
};
use deno_args::options::{
    has_known_prose_wrap, resolve_fmt_options, resolve_lint_rules_options, BenchConfig,
    BenchOptions, FmtConfig, FmtOptions, FmtOptionsConfig, LintConfig, LintOptions,
    LintReporterKind, LintRulesConfig, ProseWrap, TestConfig, TestOptions, WorkspaceBenchOptions,
    WorkspaceLintConfig, WorkspaceLintOptions, WorkspaceTestOptions,
};
use deno_args::patterns::{resolve_files, FilePatterns};
use deno_args::specifier::{jsr_api_url, jsr_url, npm_registry_url, ModuleSpecifier};
use deno_args::storage_key::StorageKeyResolver;
use deno_config::glob::PathOrPatternSet;

fn specifier(text: &str) -> ModuleSpecifier {
    ModuleSpecifier::parse(text).unwrap()
}

fn texts(items: &[&str]) -> Vec<String> {
    items.iter().map(|item| item.to_string()).collect()
}

fn deno_json(text: &str, url: &str) -> DenoJson {
    let text = ConfigText::new(text.to_string()).unwrap();
    DenoJson::parse(text, specifier(url), Vec::new()).unwrap()
}

fn no_files() -> FileFlags {
    FileFlags { includes: Vec::new(), ignores: Vec::new() }
}

fn patterns(base: &str) -> FilePatterns {
    FilePatterns::new_with_base(base.to_string())
}

fn matches(files: &FilePatterns, path: &str) -> bool {
    let path = Path::new(path);
    let included = match &files.includes {
        Some(set) => set.matches_path(path),
        None => path.starts_with(&files.base),
    };
    included && !files.exclude.matches_path(path)
}

#[test]
fn resolve_import_map_flags_take_precedence() {
    let config_text = r#"{
      "importMap": "import_map.json"
    }"#;
    let config_file = Some(deno_json(config_text, "file:///deno/deno.jsonc"));
    let request = resolve_import_map_specifier(Some("import-map.json"), &config_file);
    assert_eq!(request.url_or_path.as_deref(), Some("import-map.json"));
    assert_eq!(
        request.warning.as_deref(),
        Some(
            "the configuration file \"file:///deno/deno.jsonc\" contains an entry for \"importMap\" that is being ignored."
        )
    );
    let resolved = specifier("file:///cwd/import-map.json");
    let actual = import_map_specifier(&request, Ok(resolved));
    assert!(actual.is_ok());
    assert_eq!(actual.unwrap().unwrap().as_str(), "file:///cwd/import-map.json");
}

#[test]
fn resolve_import_map_none() {
    let config_text = r#"{}"#;
    let config_file = Some(deno_json(config_text, "file:///deno/deno.jsonc"));
    let request = resolve_import_map_specifier(None, &config_file);
    let actual = import_map_specifier(&request, Err("not asked for".to_string()));
    assert!(actual.is_ok());
    let actual = actual.unwrap();
    assert!(actual.is_none());
    assert_eq!(request.warning, None);
}

#[test]
fn resolve_import_map_no_config() {
    let request = resolve_import_map_specifier(None, &None);
    let actual = import_map_specifier(&request, Err("not asked for".to_string()));
    assert!(actual.is_ok());
    let actual = actual.unwrap();
    assert!(actual.is_none());
}

#[test]
fn import_map_entry_of_an_import_map_is_ignored() {
    let config_text = r#"{ "imports": {}, "importMap": "import_map.json" }"#;
    let config_file = Some(deno_json(config_text, "file:///deno/deno.jsonc"));
    let request = resolve_import_map_specifier(None, &config_file);
    assert_eq!(request.url_or_path, None);
    assert_eq!(request.warning.as_deref(), Some(IGNORED_IMPORT_MAP_WARNING));
}

#[test]
fn import_map_errors() {
    let request = resolve_import_map_specifier(Some("http://["), &None);
    let error = import_map_specifier(&request, Err("invalid".to_string())).unwrap_err();
    assert_eq!(error.message, "Bad URL (\"http://[\") for import map.");
    assert_eq!(error.cause.as_deref(), Some("invalid"));
    let error = import_map_load_error(&specifier("file:///a.json"), "gone");
    assert_eq!(error.message, "Unable to load 'file:///a.json' import map");
    assert_eq!(error.to_text(), "Unable to load 'file:///a.json' import map: gone");
}

#[test]
fn storage_key_resolver_test() {
    let resolver = StorageKeyResolver(None);
    let specifier = ModuleSpecifier::parse("file:///a.ts").unwrap();
    assert_eq!(
        resolver.resolve_storage_key(&specifier),
        Some(specifier.as_str().to_string())
    );
    let resolver = StorageKeyResolver(Some(None));
    assert_eq!(resolver.resolve_storage_key(&specifier), None);
    let resolver = StorageKeyResolver(Some(Some("value".to_string())));
    assert_eq!(
        resolver.resolve_storage_key(&specifier),
        Some("value".to_string())
    );

    // test empty
    let resolver = StorageKeyResolver::empty();
    assert_eq!(resolver.resolve_storage_key(&specifier), None);
}

#[test]
fn resolve_files_test() {
    let written = [
        "data/tes.ts",
        "data/test1.js",
        "data/test1.ts",
        "data/test12.ts",
        "nested/foo/foo.ts",
        "nested/foo/bar.ts",
        "nested/foo/fizz.ts",
        "nested/foo/bazz.ts",
        "nested/fizz/foo.ts",
        "nested/fizz/bar.ts",
        "nested/fizz/fizz.ts",
        "nested/fizz/bazz.ts",
        "pages/[id].ts",
    ];
    let temp_dir_path = Path::new("/tmp/project");
    let error = PathOrPatternSet::from_include_relative_path_or_patterns(
        temp_dir_path,
        &["data/**********.ts".to_string()],
    )
    .unwrap_err();
    assert!(error.to_string().starts_with("Failed to expand glob"));

    let resolved_files = resolve_files(
        FilePatterns {
            base: "/tmp/project".to_string(),
            includes: Some(
                PathOrPatternSet::from_include_relative_path_or_patterns(
                    temp_dir_path,
                    &[
                        "data/test1.?s".to_string(),
                        "nested/foo/*.ts".to_string(),
                        "nested/fizz/*.ts".to_string(),
                        "pages/[id].ts".to_string(),
                    ],
                )
                .unwrap(),
            ),
            exclude: PathOrPatternSet::from_exclude_relative_path_or_patterns(
                temp_dir_path,
                &["nested/**/*bazz.ts".to_string()],
            )
            .unwrap(),
        },
        &no_files(),
        Some("/tmp/project"),
    )
    .unwrap();

    let mut files: Vec<PathBuf> = written
        .iter()
        .map(|p| temp_dir_path.join(p))
        .filter(|path| matches(&resolved_files, path.to_str().unwrap()))
        .collect();

    files.sort();

    assert_eq!(
        files,
        vec![
            "data/test1.js",
            "data/test1.ts",
            "nested/fizz/bar.ts",
            "nested/fizz/fizz.ts",
            "nested/fizz/foo.ts",
            "nested/foo/bar.ts",
            "nested/foo/fizz.ts",
            "nested/foo/foo.ts",
            "pages/[id].ts",
        ]
        .into_iter()
        .map(|p| temp_dir_path.join(p))
        .collect::<Vec<_>>()
    );
}

#[test]
fn file_flags_take_precedence() {
    let config = FilePatterns {
        base: "/project".to_string(),
        includes: Some(
            PathOrPatternSet::from_include_relative_path_or_patterns(
                Path::new("/project"),
                &["a".to_string()],
            )
            .unwrap(),
        ),
        exclude: PathOrPatternSet::from_exclude_relative_path_or_patterns(
            Path::new("/project"),
            &["b/hidden.ts".to_string()],
        )
        .unwrap(),
    };
    let flags = FileFlags { includes: texts(&["b"]), ignores: texts(&["b/skip.ts"]) };
    let files = resolve_files(config, &flags, Some("/project/sub")).unwrap();
    assert_eq!(files.base, "/project");
    assert!(matches(&files, "/project/sub/b/mod.ts"));
    assert!(!matches(&files, "/project/sub/b/skip.ts"));
    assert!(!matches(&files, "/project/a/mod.ts"));
    assert!(!matches(&files, "/project/b/mod.ts"));
}

#[test]
fn file_flags_are_seen_from_the_configured_base() {
    let flags = FileFlags { includes: texts(&["b"]), ignores: Vec::new() };
    let files = resolve_files(patterns("/project"), &flags, None).unwrap();
    assert!(matches(&files, "/project/b/mod.ts"));
    assert!(!matches(&files, "/project/c/mod.ts"));
}

#[test]
fn file_flags_with_a_malformed_pattern() {
    let flags = FileFlags { includes: texts(&["data/**********.ts"]), ignores: Vec::new() };
    let error = resolve_files(patterns("/"), &flags, None).unwrap_err();
    assert!(error.message.starts_with("Failed to expand glob"));
    let error = flags.as_file_patterns("/").unwrap_err();
    assert!(error.message.starts_with("Failed to expand glob"));
    let flags = FileFlags { includes: Vec::new(), ignores: texts(&["data/**********.ts"]) };
    let error = resolve_files(patterns("/"), &flags, None).unwrap_err();
    assert!(error.message.starts_with("Failed to expand glob"));
}

#[test]
fn file_flags_as_patterns() {
    let files = no_files().as_file_patterns("/cwd").unwrap();
    assert!(files.includes.is_none());
    assert!(files.exclude.inner().is_empty());
    let flags = FileFlags { includes: texts(&["src"]), ignores: texts(&["src/gen"]) };
    let files = flags.as_file_patterns("/cwd").unwrap();
    assert_eq!(files.base, "/cwd");
    assert!(matches(&files, "/cwd/src/a.ts"));
    assert!(!matches(&files, "/cwd/src/gen/a.ts"));
}

#[test]
fn jsr_urls() {
    let reg_url = jsr_url(None);
    assert!(reg_url.as_str().ends_with('/'));
    let reg_api_url = jsr_api_url(None);
    assert!(reg_api_url.as_str().ends_with('/'));
}

#[test]
fn registries_of_the_environment() {
    assert_eq!(npm_registry_url(None).as_str(), "https://registry.npmjs.org/");
    assert_eq!(jsr_url(None).as_str(), "https://jsr.io/");
    assert_eq!(jsr_api_url(None).as_str(), "https://jsr.io/api/");
    let registry = npm_registry_url(Some("http://localhost:4260//"));
    assert_eq!(registry.as_str(), "http://localhost:4260/");
    assert_eq!(npm_registry_url(Some("no url")).as_str(), "https://registry.npmjs.org/");
    assert_eq!(jsr_url(Some("http://localhost:4250")).as_str(), "http://localhost:4250/");
    let api = jsr_api_url(Some("http://localhost:4250/registry"));
    assert_eq!(api.as_str(), "http://localhost:4250/api/");
    assert_eq!(jsr_api_url(Some("no url")).as_str(), "https://jsr.io/api/");
    let value = Some("https://me@a.com:8443/x?q=1#f");
    assert_eq!(jsr_url(value).as_str(), "https://me@a.com:8443/x?q=1#f/");
    let api = jsr_api_url(value);
    assert_eq!(api.as_str(), "https://me@a.com:8443/api/?q=1#f/");
    assert_eq!(api.tuple_origin(), jsr_url(value).tuple_origin());
    assert_eq!(jsr_api_url(Some("foo:/.//x")).as_str(), "foo:/./api/");
}

#[test]
fn configuration_files() {
    let text = r#"{
        // the package
        "name": "@a/b",
        "imports": { "c": "npm:c@1" },
        "exports": "./mod.ts",
        "unstable": ["kv"],
        "vendor": true,
    }"#;
    let file = deno_json(text, "file:///project/deno.json");
    assert_eq!(file.json.name.as_deref(), Some("@a/b"));
    assert_eq!(file.json.version, None);
    assert_eq!(file.json.imports.as_deref(), Some(r#"{"c":"npm:c@1"}"#));
    assert_eq!(file.json.scopes, None);
    assert_eq!(file.json.exports.as_deref(), Some("\"./mod.ts\""));
    assert_eq!(file.json.unstable, texts(&["kv"]));
    assert_eq!(file.json.vendor, Some(true));
    assert_eq!(file.json.node_modules_dir, None);
    assert!(file.is_an_import_map() && file.is_package());
    let broken = ConfigText::new("{".to_string()).unwrap();
    assert!(DenoJson::parse(broken, specifier("file:///deno.json"), Vec::new()).is_err());
}

#[test]
fn numbers_in_configuration_files() {
    let parses = |number: &str| {
        let text = format!("{{ \"name\": \"a\", \"other\": [{}] }}", number);
        let text = ConfigText::new(text)?;
        Some(DenoJson::parse(text, specifier("file:///deno.json"), Vec::new()).is_ok())
    };
    let digits = |count: usize| "9".repeat(count);
    for number in [
        "1e307".to_string(),
        "-9.99E+307".to_string(),
        "0e999".to_string(),
        "-0.000e99999999999999999999".to_string(),
        "1e-99999999999999999999".to_string(),
        "0.0001e311".to_string(),
        "18446744073709551616, 1.5, -1".to_string(),
        digits(308),
        format!("{}e-200", digits(500)),
        format!("0.{}1e1000", "0".repeat(800)),
        "\"1e999\"".to_string(),
        "1 /* 1e999 */".to_string(),
    ] {
        assert_eq!(parses(&number), Some(true), "{}", number);
    }
    for number in [
        "1e400".to_string(),
        "-1E+309".to_string(),
        "0.1e310".to_string(),
        "1, 2, 1e99999999999999999999".to_string(),
        digits(310),
        format!("{}e200", digits(200)),
        format!("0.{}1e1000000", "0".repeat(800)),
    ] {
        assert_eq!(parses(&number), None, "{}", number);
    }
}

#[test]
fn nesting_of_configuration_files() {
    let nested = |depth: usize| format!("{}{}", "[".repeat(depth), "]".repeat(depth));
    let text = ConfigText::new(nested(128)).unwrap();
    assert_eq!(text.as_str(), nested(128));
    let url = specifier("file:///deno.json");
    assert!(DenoJson::parse(text, url, Vec::new()).is_err());
    assert!(ConfigText::new(nested(129)).is_none());
    assert!(ConfigText::new("{\"a\":".repeat(129)).is_none());
    // brackets in texts and comments do not count, and do not close any
    let text = |inner: &str| format!("{{ \"a\": {}1 }}", inner.repeat(200));
    assert!(ConfigText::new(text("/* [ */")).is_some());
    assert!(ConfigText::new(text("// [\n")).is_some());
    assert!(ConfigText::new(format!("[{}1]", "\"[\\\"[\", '[', ".repeat(200))).is_some());
    assert!(ConfigText::new("[/* ] */".repeat(200)).is_none());
    assert!(ConfigText::new("[\"]\",".repeat(200)).is_none());
    assert!(ConfigText::new("[], ".repeat(200)).is_some());
}

#[test]
fn specifier_operations() {
    assert_eq!(specifier("HTTP://Example.com").as_str(), "http://example.com/");
    assert_eq!(ModuleSpecifier::parse("a.ts").unwrap_err(), "relative URL without a base");
    let base = specifier("file:///project/deno.json");
    assert_eq!(base.join("./a/b.ts").unwrap().as_str(), "file:///project/a/b.ts");
    assert!(base.join("http://[").is_none());
    assert!(base.has_scheme("file"));
    assert!(!base.has_scheme("fil"));
    assert_eq!(base.to_file_path().as_deref(), Some("/project/deno.json"));
    assert_eq!(specifier("https://a/b").to_file_path(), None);
    let target = specifier("file:///project/a/");
    assert_eq!(base.make_relative(&target).as_deref(), Some("a/"));
    assert_eq!(base.make_relative(&specifier("https://a/")), None);
    let directory = ModuleSpecifier::from_directory_path("/a b").unwrap();
    assert_eq!(directory.as_str(), "file:///a%20b/");
    let directory = ModuleSpecifier::from_directory_path("/a/../b").unwrap();
    assert_eq!(directory.as_str(), "file:///a/../b/");
    assert!(ModuleSpecifier::from_directory_path("relative").is_none());
    let origin = specifier("https://example.com:8080/path").tuple_origin();
    assert_eq!(origin.as_deref(), Some("https://example.com:8080"));
    assert_eq!(specifier("data:text/plain,a").tuple_origin(), None);
}

#[test]
fn cached_npm_packages() {
    assert!(CacheSetting::Only.should_use_for_npm_package("chalk"));
    assert!(CacheSetting::Use.should_use_for_npm_package("chalk"));
    assert!(CacheSetting::RespectHeaders.should_use_for_npm_package("chalk"));
    assert!(!CacheSetting::ReloadAll.should_use_for_npm_package("chalk"));
    let all = CacheSetting::ReloadSome(texts(&["npm:"]));
    assert!(!all.should_use_for_npm_package("chalk"));
    let one = CacheSetting::ReloadSome(texts(&["npm:chalk"]));
    assert!(!one.should_use_for_npm_package("chalk"));
    assert!(one.should_use_for_npm_package("chalk-template"));
    let other = CacheSetting::ReloadSome(texts(&["https://deno.land/"]));
    assert!(other.should_use_for_npm_package("chalk"));
}

#[test]
fn flags_of_the_environment() {
    assert!(has_flag_env_var(Some("1")));
    assert!(!has_flag_env_var(Some("true")));
    assert!(!has_flag_env_var(None));
    assert!(resolve_no_prompt(&PermissionFlags { no_prompt: true }, None));
    assert!(resolve_no_prompt(&PermissionFlags { no_prompt: false }, Some("1")));
    assert!(!resolve_no_prompt(&PermissionFlags { no_prompt: false }, Some("0")));
}

#[test]
fn small_flag_types() {
    assert!(NonZeroUsize::new(0).is_none());
    assert_eq!(NonZeroUsize::new(3).unwrap().get(), 3);
    assert_eq!(NonZeroUsize::one().get(), 1);
    assert_eq!(TypeCheckMode::NoCheck.as_graph_kind(), GraphKind::CodeOnly);
    assert_eq!(TypeCheckMode::Local.as_graph_kind(), GraphKind::All);
    assert_eq!(TypeCheckMode::All.as_graph_kind(), GraphKind::All);
    assert!(RunFlags { script: "-".to_string(), watch: None }.is_stdin());
    assert!(!RunFlags { script: "main.ts".to_string(), watch: None }.is_stdin());
}

fn bench_flags() -> BenchFlags {
    BenchFlags { files: no_files(), filter: Some("a".to_string()), json: true, no_run: false }
}

fn fmt_flags() -> FmtFlags {
    FmtFlags {
        files: no_files(),
        use_tabs: None,
        line_width: None,
        indent_width: None,
        single_quote: None,
        prose_wrap: None,
        no_semicolons: None,
    }
}

fn fmt_config() -> FmtOptionsConfig {
    FmtOptionsConfig {
        use_tabs: Some(true),
        line_width: Some(100),
        indent_width: None,
        single_quote: Some(false),
        prose_wrap: Some(ProseWrap::Never),
        semi_colons: None,
    }
}

fn lint_flags() -> LintFlags {
    LintFlags {
        files: no_files(),
        fix: false,
        json: false,
        compact: false,
        maybe_rules_tags: None,
        maybe_rules_include: None,
        maybe_rules_exclude: None,
    }
}

fn test_flags() -> TestFlags {
    TestFlags {
        files: no_files(),
        doc: true,
        no_run: false,
        coverage_dir: None,
        fail_fast: NonZeroUsize::new(2),
        allow_none: true,
        filter: None,
        shuffle: Some(7),
        concurrent_jobs: None,
        trace_leaks: false,
        reporter: TestReporterConfig::Tap,
        junit_path: Some("out.xml".to_string()),
    }
}

#[test]
fn bench_options() {
    let options = WorkspaceBenchOptions::resolve(&bench_flags());
    assert_eq!(options.filter.as_deref(), Some("a"));
    assert!(options.json);
    assert!(!options.no_run);
    let mut flags = bench_flags();
    flags.files.includes = texts(&["b"]);
    let config = BenchConfig { files: patterns("/") };
    let options = BenchOptions::resolve(config, &flags, Some("/cwd")).unwrap();
    assert!(matches(&options.files, "/cwd/b/a.ts"));
    flags.files.includes = texts(&["data/**********.ts"]);
    assert!(BenchOptions::resolve(BenchConfig { files: patterns("/") }, &flags, None).is_err());
}

#[test]
fn test_options() {
    let options = WorkspaceTestOptions::resolve(&test_flags());
    assert!(options.doc);
    assert!(options.allow_none);
    assert!(!options.no_run);
    assert!(!options.trace_leaks);
    assert_eq!(options.fail_fast.unwrap().get(), 2);
    assert_eq!(options.shuffle, Some(7));
    assert_eq!(options.concurrent_jobs.get(), 1);
    assert_eq!(options.reporter, TestReporterConfig::Tap);
    assert_eq!(options.junit_path.as_deref(), Some("out.xml"));
    assert_eq!(options.filter, None);
    let mut flags = test_flags();
    flags.concurrent_jobs = NonZeroUsize::new(8);
    assert_eq!(WorkspaceTestOptions::resolve(&flags).concurrent_jobs.get(), 8);
    flags.files.ignores = texts(&["b"]);
    let options = TestOptions::resolve(TestConfig { files: patterns("/") }, &flags, None).unwrap();
    assert!(matches(&options.files, "/a/a.ts"));
    assert!(!matches(&options.files, "/b/a.ts"));
}

#[test]
fn fmt_options_of_flags() {
    let unchanged = resolve_fmt_options(&fmt_flags(), fmt_config());
    assert_eq!(format!("{:?}", unchanged), format!("{:?}", fmt_config()));
    let mut flags = fmt_flags();
    flags.use_tabs = Some(false);
    flags.line_width = Some(60);
    flags.indent_width = Some(8);
    flags.single_quote = Some(true);
    flags.prose_wrap = Some("preserve".to_string());
    flags.no_semicolons = Some(true);
    let options = resolve_fmt_options(&flags, fmt_config());
    assert_eq!(options.use_tabs, Some(false));
    assert_eq!(options.line_width, Some(60));
    assert_eq!(options.indent_width, Some(8));
    assert_eq!(options.single_quote, Some(true));
    assert_eq!(options.prose_wrap, Some(ProseWrap::Preserve));
    assert_eq!(options.semi_colons, Some(false));
    for (text, wrap) in [("always", ProseWrap::Always), ("never", ProseWrap::Never)] {
        flags.prose_wrap = Some(text.to_string());
        assert!(has_known_prose_wrap(&flags));
        assert_eq!(resolve_fmt_options(&flags, fmt_config()).prose_wrap, Some(wrap));
    }
    flags.prose_wrap = Some("sometimes".to_string());
    assert!(!has_known_prose_wrap(&flags));
    assert!(has_known_prose_wrap(&fmt_flags()));
}

#[test]
fn fmt_options_resolve() {
    let mut flags = fmt_flags();
    flags.no_semicolons = Some(false);
    flags.files.includes = texts(&["src"]);
    let config = FmtConfig { options: fmt_config(), files: patterns("/") };
    let options = FmtOptions::resolve(config, &flags, Some("/cwd")).unwrap();
    assert_eq!(options.options.semi_colons, Some(true));
    assert!(matches(&options.files, "/cwd/src/a.ts"));
    let default = FmtOptions::default();
    assert_eq!(default.files.base, "/");
    assert!(default.files.includes.is_none());
    assert_eq!(default.options.use_tabs, None);
    assert_eq!(FmtOptions::new_with_base("/a".to_string()).files.base, "/a");
}

#[test]
fn lint_reporter() {
    let config = |report: Option<&str>| WorkspaceLintConfig { report: report.map(String::from) };
    let kind = |report: Option<&str>, json: bool, compact: bool| {
        let mut flags = lint_flags();
        flags.json = json;
        flags.compact = compact;
        WorkspaceLintOptions::resolve(&config(report), &flags).map(|options| options.reporter_kind)
    };
    assert_eq!(kind(None, false, false).unwrap(), LintReporterKind::Pretty);
    assert_eq!(kind(Some("json"), false, false).unwrap(), LintReporterKind::Json);
    assert_eq!(kind(Some("compact"), false, false).unwrap(), LintReporterKind::Compact);
    assert_eq!(kind(Some("pretty"), false, false).unwrap(), LintReporterKind::Pretty);
    let error: CliError = kind(Some("loud"), false, false).unwrap_err();
    assert_eq!(error.message, "Invalid lint report type in config file");
    assert_eq!(kind(Some("loud"), true, false).unwrap(), LintReporterKind::Json);
    assert_eq!(kind(Some("loud"), false, true).unwrap(), LintReporterKind::Compact);
    assert_eq!(kind(Some("pretty"), true, true).unwrap(), LintReporterKind::Json);
}

#[test]
fn lint_rules() {
    let config = LintRulesConfig {
        tags: Some(texts(&["recommended"])),
        includes: Some(texts(&["eqeqeq"])),
        exclude: None,
    };
    let rules = resolve_lint_rules_options(config, None, Some(texts(&["no-var"])), None);
    assert_eq!(rules.tags, Some(texts(&["recommended"])));
    assert_eq!(rules.includes, Some(texts(&["no-var"])));
    assert_eq!(rules.exclude, None);
}

#[test]
fn lint_options_resolve() {
    let mut flags = lint_flags();
    flags.fix = true;
    flags.maybe_rules_exclude = Some(texts(&["no-var"]));
    let config = LintConfig {
        rules: LintRulesConfig { tags: None, includes: None, exclude: Some(texts(&["eqeqeq"])) },
        files: patterns("/"),
    };
    let options = LintOptions::resolve(config, &flags, Some("/cwd")).unwrap();
    assert!(options.fix);
    assert_eq!(options.rules.exclude, Some(texts(&["no-var"])));
    let default = LintOptions::default();
    assert_eq!(default.files.base, "/");
    assert!(!default.fix);
    assert_eq!(default.rules.tags, None);
    assert_eq!(LintOptions::new_with_base("/a".to_string()).files.base, "/a");
}

fn shown(steps: Vec<CertStep>) -> String {
    format!("{:?}", steps)
}

#[test]
fn certificate_stores() {
    let steps = get_root_cert_store(None, None, None, None, None);
    assert_eq!(shown(steps), shown(vec![CertStep::AddMozilla]));
    let steps = get_root_cert_store(None, None, None, Some(" system, ,mozilla"), None);
    assert_eq!(shown(steps), shown(vec![CertStep::AddSystem, CertStep::AddMozilla]));
    let stores = Some(texts(&["system"]));
    let steps = get_root_cert_store(None, stores, None, Some("mozilla"), None);
    assert_eq!(shown(steps), shown(vec![CertStep::AddSystem]));
    let stores = Some(texts(&["mozilla", "none", "system"]));
    let data = Some(CaData::Bytes(vec![1]));
    let steps = get_root_cert_store(None, stores, data, None, None);
    let expected = vec![CertStep::AddMozilla, CertStep::UnknownStore("none".to_string())];
    assert_eq!(shown(steps), shown(expected));
}

#[test]
fn certificate_files() {
    let file = || Some(CaData::File("ca.pem".to_string()));
    let steps = get_root_cert_store(Some("/root"), Some(Vec::new()), file(), None, None);
    assert_eq!(shown(steps), shown(vec![CertStep::AddPemFile("/root/ca.pem".to_string())]));
    let steps = get_root_cert_store(None, Some(Vec::new()), file(), None, Some("env.pem"));
    assert_eq!(shown(steps), shown(vec![CertStep::AddPemFile("ca.pem".to_string())]));
    let steps = get_root_cert_store(None, Some(Vec::new()), None, None, Some("env.pem"));
    assert_eq!(shown(steps), shown(vec![CertStep::AddPemFile("env.pem".to_string())]));
    let data = Some(CaData::Bytes(vec![1, 2]));
    let steps = get_root_cert_store(None, Some(Vec::new()), data, None, None);
    assert_eq!(shown(steps), shown(vec![CertStep::AddPemData(vec![1, 2])]));
}

#[test]
fn certificate_errors() {
    let error = RootCertStoreLoadError::UnknownStore("none".to_string());
    assert_eq!(
        error.message(),
        "Unknown certificate store \"none\" specified (allowed: \"system,mozilla\")"
    );
    assert!(pem_read_error(PemRead::Certificates).is_none());
    let error = pem_read_error(PemRead::NotOpened("gone".to_string())).unwrap();
    assert_eq!(error.message(), "Failed opening CA file: gone");
    let error = pem_read_error(PemRead::Malformed("bad".to_string())).unwrap();
    assert_eq!(error.message(), "Unable to add pem file to certificate store: bad");
}
