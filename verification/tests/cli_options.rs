use std::sync::Arc;

use deno_args::cli_options::{
    empty_workspace, env_file_warning, insecure_certificates_warning, jsr_config_file_names,
    node_modules_folder, npm_system_info_for_target, workspace_discovery, workspace_npmrc_search,
    CliOptions, EnvFileError, Environment, MainModuleRequest, NpmSystemInfo, SpecifiedImportMap,
    WorkspaceStart,
};
use deno_args::config::{ConfigFolder, DenoJson, FolderConfigs, Workspace};
use deno_args::config_file::{ConfigFileJson, ConfigText};
use deno_args::emit::{
    resolve_ts_config_for_emit, to_transpile_and_emit_options,
    ts_config_to_transpile_and_emit_options, EmitConfigOptions, ImportsNotUsedAsValues,
    SourceMapOption, TsConfig, TsConfigType, TsTypeLib,
};
use deno_args::error::CliError;
use deno_args::flags::{
    BenchFlags, BundleFlags, CompileFlags, ConfigFlag, DenoSubcommand, FileFlags, Flags, FmtFlags,
    GraphKind, LintFlags, LogLevel, PermissionFlags, RunFlags, ServeFlags, TestFlags,
    TestReporterConfig, TypeCheckMode, UnstableConfig, WatchFlagsWithPaths,
};
use deno_args::folders::{resolve_node_modules_folder, resolve_vendor_folder, FolderChoice};
use deno_args::lockfile::{CliLockfile, FileRead};
use deno_args::npmrc::create_default_npmrc;
use deno_args::options::{
    BenchConfig, FmtConfig, FmtOptionsConfig, LintConfig, LintReporterKind, LintRulesConfig,
    TestConfig, WorkspaceLintConfig,
};
use deno_args::package_json::PackageJsonFile;
use deno_args::packages::{
    can_read_reference, config_to_deno_graph_workspace_member, npm_pkg_req_ref_to_binary_command,
    NpmPackageReqReference,
};
use deno_args::patterns::FilePatterns;
use deno_args::process_state::{NpmProcessState, NpmProcessStateKind, ProcessState};
use deno_args::specifier::ModuleSpecifier;
use deno_args::storage_key::StorageKeyResolver;
use deno_args::workspace_resolver::PackageJsonDepResolution;

fn specifier(text: &str) -> ModuleSpecifier {
    ModuleSpecifier::parse(text).unwrap()
}

fn texts(items: &[&str]) -> Vec<String> {
    items.iter().map(|item| item.to_string()).collect()
}

fn no_files() -> FileFlags {
    FileFlags { includes: Vec::new(), ignores: Vec::new() }
}

fn flags(subcommand: DenoSubcommand) -> Flags {
    Flags {
        argv: Vec::new(),
        subcommand,
        ca_stores: None,
        ca_data: None,
        cache_blocklist: Vec::new(),
        cache_path: None,
        cached_only: false,
        code_cache_enabled: false,
        type_check_mode: TypeCheckMode::Local,
        config_flag: ConfigFlag::Discover,
        enable_op_summary_metrics: false,
        enable_testing_features: false,
        env_file: None,
        ext: None,
        frozen_lockfile: false,
        import_map_path: None,
        inspect: None,
        inspect_brk: None,
        inspect_wait: None,
        location: None,
        lock: None,
        lock_write: false,
        log_level: None,
        no_lock: false,
        no_npm: false,
        no_remote: false,
        node_modules_dir: None,
        permissions: PermissionFlags { no_prompt: false },
        reload: false,
        seed: None,
        strace_ops: None,
        unsafely_ignore_certificate_errors: None,
        unstable_config: UnstableConfig {
            legacy_flag_enabled: false,
            bare_node_builtins: false,
            byonm: false,
            sloppy_imports: false,
            features: Vec::new(),
        },
        v8_flags: Vec::new(),
        vendor: None,
    }
}

fn run(script: &str) -> DenoSubcommand {
    DenoSubcommand::Run(RunFlags { script: script.to_string(), watch: None })
}

fn config_text(text: &str) -> ConfigText {
    ConfigText::new(text.to_string()).unwrap()
}

fn deno_json(url: &str) -> DenoJson {
    DenoJson {
        specifier: specifier(url),
        text: config_text("{}"),
        json: ConfigFileJson {
            name: None,
            version: None,
            import_map: None,
            imports: None,
            scopes: None,
            exports: None,
            node_modules_dir: None,
            vendor: None,
            unstable: Vec::new(),
        },
        dependencies: Vec::new(),
    }
}

fn package_json(path: &str) -> PackageJsonFile {
    PackageJsonFile {
        path: path.to_string(),
        name: None,
        version: None,
        dependencies: Vec::new(),
        dev_dependencies: Vec::new(),
    }
}

fn folder(url: &str, deno_json: Option<DenoJson>, pkg_json: Option<PackageJsonFile>) -> ConfigFolder {
    ConfigFolder { url: specifier(url), configs: FolderConfigs { deno_json, pkg_json } }
}

fn workspace(config: Option<DenoJson>, pkg_json: Option<PackageJsonFile>) -> Workspace {
    let start = config.as_ref().map(|config| specifier(config.specifier.as_str()));
    Workspace::new(vec![folder("file:///project/", config, pkg_json)], 0, start)
}

fn plain_environment() -> Environment {
    environment(false, None)
}

fn environment(deno_future: bool, npm: Option<NpmProcessState>) -> Environment {
    Environment {
        process: ProcessState { deno_future, npm },
        no_deprecation_warnings: false,
        verbose_warnings: false,
    }
}

fn resolved(flags: Flags, workspace: Workspace, environment: Environment) -> CliOptions<CliLockfile> {
    CliOptions::from_flags(
        flags,
        "/project".to_string(),
        workspace,
        create_default_npmrc(None),
        None,
        environment,
        Ok("/canonical/node_modules".to_string()),
    )
    .unwrap()
}

fn options(flags: Flags) -> CliOptions<CliLockfile> {
    resolved(flags, workspace(None, None), plain_environment())
}

#[test]
fn warnings_on_flags() {
    let mut flags = flags(run("main.ts"));
    assert_eq!(insecure_certificates_warning(&flags), None);
    flags.unsafely_ignore_certificate_errors = Some(Vec::new());
    assert_eq!(
        insecure_certificates_warning(&flags).as_deref(),
        Some("DANGER: TLS certificate validation is disabled for all hostnames")
    );
    flags.unsafely_ignore_certificate_errors = Some(texts(&["a.com", "b.com"]));
    assert_eq!(
        insecure_certificates_warning(&flags).as_deref(),
        Some("DANGER: TLS certificate validation is disabled for: a.com, b.com")
    );
}

#[test]
fn warnings_on_environment_files() {
    let error = EnvFileError::LineParse("A=\"".to_string(), "3".to_string());
    assert_eq!(
        env_file_warning(".env", &error),
        "Parsing failed within the specified environment file: .env at index: 3 of the value: A=\""
    );
    assert_eq!(
        env_file_warning(".env", &EnvFileError::Io),
        "The `--env` flag was used, but the environment file specified '.env' was not found."
    );
    assert_eq!(
        env_file_warning(".env", &EnvFileError::EnvVar),
        "One or more of the environment variables isn't present or not unicode within the specified environment file: .env"
    );
    assert_eq!(
        env_file_warning(".env", &EnvFileError::Unknown),
        "Unknown failure occurred with the specified environment file: .env"
    );
}

#[test]
fn workspace_is_looked_for() {
    let dirs = || Some(texts(&["/project/sub"]));
    let found = workspace_discovery(&flags(run("main.ts")), "/project", dirs(), None);
    assert!(matches!(found.start, WorkspaceStart::Dirs(dirs) if dirs == texts(&["/project/sub"])));
    assert!(found.discover_pkg_json && !found.allow_jsr_names && !found.include_task_comments);
    let found = workspace_discovery(&flags(DenoSubcommand::Task), "/project", None, Some("1"));
    assert!(matches!(found.start, WorkspaceStart::Empty));
    assert!(found.include_task_comments && !found.discover_pkg_json);
    let mut publish = flags(DenoSubcommand::Publish);
    publish.config_flag = ConfigFlag::Path("../jsr.json".to_string());
    let found = workspace_discovery(&publish, "/project", dirs(), Some("0"));
    assert!(
        matches!(found.start, WorkspaceStart::ConfigFile(path) if path == "/project/../jsr.json")
    );
    assert!(found.allow_jsr_names && found.discover_pkg_json);
    let mut disabled = flags(run("main.ts"));
    disabled.config_flag = ConfigFlag::Disabled;
    let found = workspace_discovery(&disabled, "/project", dirs(), None);
    assert!(matches!(found.start, WorkspaceStart::Empty));
    assert!(!found.discover_pkg_json);
    assert_eq!(jsr_config_file_names(), texts(&["jsr.json", "jsr.jsonc"]));
    assert_eq!(empty_workspace("/project").unwrap().root_dir().as_str(), "file:///project/");
    assert!(empty_workspace("project").is_none());
}

#[test]
fn npmrc_search_of_a_workspace() {
    let config = Some(deno_json("file:///project/deno.json"));
    let pkg_json = Some(package_json("/project/package.json"));
    let search = workspace_npmrc_search(&workspace(config, pkg_json));
    assert_eq!(search.candidate(), Some("/project/.npmrc"));
    let config = Some(deno_json("https://example.com/deno.json"));
    let search = workspace_npmrc_search(&workspace(config, None));
    assert_eq!(search.candidate(), None);
}

#[test]
fn node_modules_folders() {
    let none = flags(run("main.ts"));
    let config = Some(deno_json("file:///project/sub/deno.json"));
    let pkg_json = Some(package_json("/project/pkg/package.json"));
    let choice = |flags: &Flags, config: &Option<DenoJson>, pkg_json: &Option<PackageJsonFile>| {
        format!("{:?}", resolve_node_modules_folder("/cwd", flags, config, pkg_json, &None))
    };
    let at = |path: &str| format!("{:?}", FolderChoice::Canonical(path.to_string()));
    assert_eq!(choice(&none, &config, &None), format!("{:?}", FolderChoice::Off));
    assert_eq!(choice(&none, &config, &pkg_json), at("/project/pkg/node_modules"));
    let mut on = flags(run("main.ts"));
    on.node_modules_dir = Some(true);
    assert_eq!(choice(&on, &config, &None), at("/project/sub/node_modules"));
    assert_eq!(choice(&on, &None, &None), at("/cwd/node_modules"));
    let mut off = flags(run("main.ts"));
    off.node_modules_dir = Some(false);
    assert_eq!(choice(&off, &config, &pkg_json), format!("{:?}", FolderChoice::Off));
    let mut vendored = flags(run("main.ts"));
    vendored.vendor = Some(true);
    assert_eq!(choice(&vendored, &None, &None), at("/cwd/node_modules"));
    let inherited = Some(NpmProcessState {
        kind: NpmProcessStateKind::Byonm,
        local_node_modules_path: Some("/given".to_string()),
    });
    let found = resolve_node_modules_folder("/cwd", &none, &config, &pkg_json, &inherited);
    assert!(matches!(found, FolderChoice::At(path) if path == "/given"));
    let found = resolve_node_modules_folder("/cwd", &off, &config, &pkg_json, &inherited);
    assert!(matches!(found, FolderChoice::Off));
    let state = ProcessState { deno_future: false, npm: None };
    let found = node_modules_folder(&on, "/cwd", &workspace(None, None), &state);
    assert!(matches!(found, FolderChoice::Canonical(path) if path == "/cwd/node_modules"));
}

#[test]
fn vendor_folders() {
    let none = flags(run("main.ts"));
    let mut config = deno_json("file:///project/sub/deno.json");
    config.json.vendor = Some(true);
    let config = Some(config);
    assert_eq!(resolve_vendor_folder("/cwd", &none, &None), None);
    assert_eq!(
        resolve_vendor_folder("/cwd", &none, &config).as_deref(),
        Some("/project/sub/vendor")
    );
    let mut on = flags(run("main.ts"));
    on.vendor = Some(true);
    assert_eq!(resolve_vendor_folder("/cwd", &on, &None).as_deref(), Some("/cwd/vendor"));
    let mut off = flags(run("main.ts"));
    off.vendor = Some(false);
    assert_eq!(resolve_vendor_folder("/cwd", &off, &config), None);
}

#[test]
fn options_are_put_together() {
    let lockfile = || {
        let read = FileRead::NotFound;
        Some(CliLockfile::read_from_path("/project/deno.lock", read, false).unwrap())
    };
    let mut on = flags(run("main.ts"));
    on.node_modules_dir = Some(true);
    on.vendor = Some(true);
    let made = CliOptions::from_flags(
        on,
        "/project".to_string(),
        workspace(None, None),
        create_default_npmrc(None),
        lockfile(),
        plain_environment(),
        Ok("/real/node_modules".to_string()),
    )
    .unwrap();
    assert_eq!(made.initial_cwd(), "/project");
    assert!(made.maybe_lockfile().is_some());
    assert!(made.has_node_modules_dir());
    assert_eq!(made.node_modules_dir_path().as_deref(), Some("/real/node_modules"));
    assert_eq!(made.vendor_dir_path().as_deref(), Some("/project/vendor"));
    assert_eq!(made.node_modules_dir_enablement(), Some(true));
    let moved = made.with_node_modules_dir_path("/other".to_string());
    assert_eq!(moved.node_modules_dir_path().as_deref(), Some("/other"));
    assert_eq!(moved.vendor_dir_path().as_deref(), Some("/project/vendor"));
    let registry = made.npmrc().default_config.registry_url.as_str();
    assert_eq!(registry, "https://registry.npmjs.org/");

    let mut on = flags(run("main.ts"));
    on.vendor = Some(true);
    let global = CliOptions::new(
        on,
        "/project".to_string(),
        lockfile().map(Arc::new),
        create_default_npmrc(None),
        Arc::new(workspace(None, None)),
        true,
        plain_environment(),
        Ok("/real/node_modules".to_string()),
    )
    .unwrap();
    assert!(global.maybe_lockfile().is_none());
    assert!(global.vendor_dir_path().is_none());

    let mut on = flags(run("main.ts"));
    on.node_modules_dir = Some(true);
    let error = CliOptions::<CliLockfile>::from_flags(
        on,
        "/project".to_string(),
        workspace(None, None),
        create_default_npmrc(None),
        None,
        plain_environment(),
        Err("denied".to_string()),
    )
    .unwrap_err();
    assert_eq!(error.message, "Resolving node_modules folder.");
    assert_eq!(error.cause.as_deref(), Some("denied"));
}

#[test]
fn deprecation_warnings() {
    let mut quiet = flags(run("main.ts"));
    quiet.log_level = Some(LogLevel::Error);
    let made = options(quiet);
    assert!(made.disable_deprecated_api_warning());
    assert!(!made.verbose_deprecated_api_warning());
    assert!(made.is_quiet());
    let mut environment = plain_environment();
    environment.no_deprecation_warnings = true;
    environment.verbose_warnings = true;
    let made = resolved(flags(run("main.ts")), workspace(None, None), environment);
    assert!(made.disable_deprecated_api_warning());
    assert!(made.verbose_deprecated_api_warning());
    assert!(!made.is_quiet());
    assert!(!options(flags(run("main.ts"))).disable_deprecated_api_warning());
}

#[test]
fn plain_options() {
    let mut given = flags(run("main.ts"));
    given.argv = texts(&["a", "b"]);
    given.ca_stores = Some(texts(&["system"]));
    given.cache_path = Some("/cache".to_string());
    given.code_cache_enabled = true;
    given.enable_testing_features = true;
    given.ext = Some("ts".to_string());
    given.no_remote = true;
    given.no_npm = true;
    given.reload = true;
    given.seed = Some(5);
    given.strace_ops = Some(texts(&["op"]));
    given.unsafely_ignore_certificate_errors = Some(texts(&["a.com"]));
    given.unstable_config.legacy_flag_enabled = true;
    given.v8_flags = texts(&["--expose-gc"]);
    given.location = Some(specifier("https://example.com/a"));
    given.log_level = Some(LogLevel::Info);
    let made = options(given);
    assert_eq!(made.argv(), &texts(&["a", "b"]));
    assert_eq!(made.ca_stores(), &Some(texts(&["system"])));
    assert!(made.ca_data().is_none());
    assert_eq!(made.maybe_custom_root().as_deref(), Some("/cache"));
    assert!(made.code_cache_enabled());
    assert!(made.enable_testing_features());
    assert_eq!(made.ext_flag().as_deref(), Some("ts"));
    assert!(made.no_remote() && made.no_npm() && made.reload_flag());
    assert_eq!(made.seed(), Some(5));
    assert_eq!(made.strace_ops(), &Some(texts(&["op"])));
    assert_eq!(made.unsafely_ignore_certificate_errors(), &Some(texts(&["a.com"])));
    assert!(made.legacy_unstable_flag());
    assert_eq!(made.v8_flags(), &texts(&["--expose-gc"]));
    assert_eq!(made.location_flag().as_ref().unwrap().as_str(), "https://example.com/a");
    assert_eq!(made.log_level(), Some(LogLevel::Info));
    assert_eq!(made.type_check_mode(), TypeCheckMode::Local);
    assert!(!made.permission_flags().no_prompt);
    assert!(!made.no_config());
    assert!(matches!(made.sub_command(), DenoSubcommand::Run(_)));
    assert_eq!(made.ts_type_lib_window(), TsTypeLib::DenoWindow);
    assert_eq!(made.ts_type_lib_worker(), TsTypeLib::DenoWorker);
    assert!(!made.enable_future_features());
    assert!(!made.check_js());
    assert_eq!(made.workspace().root_dir().as_str(), "file:///project/");
    let mut disabled = flags(run("main.ts"));
    disabled.config_flag = ConfigFlag::Disabled;
    assert!(options(disabled).no_config());
}

#[test]
fn graph_kinds() {
    assert_eq!(options(flags(DenoSubcommand::Cache)).graph_kind(), GraphKind::All);
    assert_eq!(options(flags(DenoSubcommand::Check)).graph_kind(), GraphKind::TypesOnly);
    assert_eq!(options(flags(run("main.ts"))).graph_kind(), GraphKind::All);
    let mut unchecked = flags(run("main.ts"));
    unchecked.type_check_mode = TypeCheckMode::NoCheck;
    assert_eq!(options(unchecked).graph_kind(), GraphKind::CodeOnly);
}

#[test]
fn cache_settings() {
    let setting = |change: &dyn Fn(&mut Flags)| {
        let mut given = flags(run("main.ts"));
        change(&mut given);
        format!("{:?}", options(given).cache_setting())
    };
    assert_eq!(setting(&|_| ()), "Use");
    assert_eq!(setting(&|given| given.reload = true), "ReloadAll");
    assert_eq!(
        setting(&|given| {
            given.reload = true;
            given.cache_blocklist = texts(&["npm:"]);
        }),
        "ReloadSome([\"npm:\"])"
    );
    assert_eq!(
        setting(&|given| {
            given.cached_only = true;
            given.reload = true;
        }),
        "Only"
    );
}

#[test]
fn npm_system_of_targets() {
    let system = |target: Option<&str>| {
        let current = NpmSystemInfo { os: "this".to_string(), cpu: "one".to_string() };
        let info = npm_system_info_for_target(target, current);
        (info.os, info.cpu)
    };
    let pair = |os: &str, cpu: &str| (os.to_string(), cpu.to_string());
    assert_eq!(system(Some("aarch64-apple-darwin")), pair("darwin", "arm64"));
    assert_eq!(system(Some("aarch64-unknown-linux-gnu")), pair("linux", "arm64"));
    assert_eq!(system(Some("x86_64-apple-darwin")), pair("darwin", "x64"));
    assert_eq!(system(Some("x86_64-unknown-linux-gnu")), pair("linux", "x64"));
    assert_eq!(system(Some("x86_64-pc-windows-msvc")), pair("win32", "x64"));
    assert_eq!(system(Some("wasm32")), pair("this", "one"));
    assert_eq!(system(None), pair("this", "one"));
    let compile = |target: Option<&str>| {
        options(flags(DenoSubcommand::Compile(CompileFlags {
            source_file: "main.ts".to_string(),
            target: target.map(String::from),
        })))
    };
    let made = compile(Some("x86_64-pc-windows-msvc"));
    assert_eq!(made.npm_system_info().os, "win32");
    assert_eq!(made.npm_system_info_warning(), None);
    let made = compile(Some("wasm32"));
    assert_eq!(
        made.npm_system_info_warning().as_deref(),
        Some(
            "Not implemented npm system info for target 'wasm32'. Using current system default. This may impact architecture specific dependencies."
        )
    );
    let current = deno_npm::NpmSystemInfo::default();
    assert_eq!(made.npm_system_info().os, current.os);
    assert_eq!(made.npm_system_info().cpu, current.cpu);
    assert_eq!(options(flags(run("main.ts"))).npm_system_info().cpu, current.cpu);
}

#[test]
fn specified_import_maps() {
    let mut given = flags(run("main.ts"));
    given.import_map_path = Some("map.json".to_string());
    let mut made = options(given);
    let request = made.specified_import_map_request().unwrap();
    assert_eq!(request.url_or_path.as_deref(), Some("map.json"));
    let found = made.resolve_specified_import_map_specifier(Ok(specifier("file:///map.json")));
    assert_eq!(found.unwrap().unwrap().as_str(), "file:///map.json");
    let error = made.resolve_specified_import_map_specifier(Err("bad".to_string())).unwrap_err();
    assert_eq!(error.message, "Bad URL (\"map.json\") for import map.");
    assert_eq!(error.cause.as_deref(), Some("bad"));
    let plan = made.create_workspace_resolver(Ok(Some(specifier("file:///map.json")))).unwrap();
    assert_eq!(plan.pkg_json_dep_resolution, PackageJsonDepResolution::Enabled);
    assert!(
        matches!(plan.import_map, SpecifiedImportMap::Load(url) if url.as_str() == "file:///map.json")
    );
    let plan = made.create_workspace_resolver(Ok(None)).unwrap();
    assert!(matches!(plan.import_map, SpecifiedImportMap::Unspecified));
    let error = made.create_workspace_resolver(Err(CliError::new("bad"))).unwrap_err();
    assert_eq!(error.message, "bad");

    made.set_import_map_specifier(Some(specifier("file:///other.json")));
    assert!(made.specified_import_map_request().is_none());
    let found = made.resolve_specified_import_map_specifier(Err("bad".to_string())).unwrap();
    assert_eq!(found.unwrap().as_str(), "file:///other.json");
    made.set_import_map_specifier(None);
    let found = made.resolve_specified_import_map_specifier(Ok(specifier("file:///map.json")));
    assert!(found.unwrap().is_none());
    let plan = made.create_workspace_resolver(Err(CliError::new("bad"))).unwrap();
    assert!(
        matches!(plan.import_map, SpecifiedImportMap::Empty(url) if url.as_str() == "file:///project/import_map.json")
    );
}

#[test]
fn ipc_descriptors() {
    let made = options(flags(run("main.ts")));
    assert_eq!(made.node_ipc_fd(Some("12")), Some(12));
    assert_eq!(made.node_ipc_fd(Some("-3")), Some(-3));
    assert_eq!(made.node_ipc_fd(Some("+3")), Some(3));
    assert_eq!(made.node_ipc_fd(Some("12a")), None);
    assert_eq!(made.node_ipc_fd(Some("")), None);
    assert_eq!(made.node_ipc_fd(Some("9223372036854775808")), None);
    assert_eq!(made.node_ipc_fd(Some("-9223372036854775808")), Some(i64::MIN));
    assert_eq!(made.node_ipc_fd(None), None);
}

#[test]
fn serving() {
    let serve = ServeFlags {
        script: "main.ts".to_string(),
        port: 8000,
        host: "0.0.0.0".to_string(),
    };
    let made = options(flags(DenoSubcommand::Serve(serve)));
    assert_eq!(made.serve_port(), Some(8000));
    assert_eq!(made.serve_host().as_deref(), Some("0.0.0.0"));
    let made = options(flags(run("main.ts")));
    assert_eq!(made.serve_port(), None);
    assert_eq!(made.serve_host(), None);
}

#[test]
fn main_modules() {
    let request = |subcommand: DenoSubcommand| options(flags(subcommand)).resolve_main_module();
    let from_cwd = |subcommand: DenoSubcommand, expected: &str| {
        assert!(
            matches!(request(subcommand), Ok(MainModuleRequest::FromInitialCwd(text)) if text == expected)
        );
    };
    from_cwd(run("main.ts"), "main.ts");
    from_cwd(DenoSubcommand::Bundle(BundleFlags { source_file: "b.ts".to_string() }), "b.ts");
    let compile = CompileFlags { source_file: "c.ts".to_string(), target: None };
    from_cwd(DenoSubcommand::Compile(compile), "c.ts");
    from_cwd(DenoSubcommand::Eval, "./$deno$eval");
    from_cwd(DenoSubcommand::Repl, "./$deno$repl.ts");
    let serve = ServeFlags { script: "s.ts".to_string(), port: 1, host: String::new() };
    from_cwd(DenoSubcommand::Serve(serve), "s.ts");
    let watched = RunFlags {
        script: "npm:chalk".to_string(),
        watch: Some(WatchFlagsWithPaths { hmr: false, paths: Vec::new() }),
    };
    from_cwd(DenoSubcommand::Run(watched), "npm:chalk");
    assert!(
        matches!(request(run("-")), Ok(MainModuleRequest::FromCurrentDir(text)) if text == "./$deno$stdin.ts")
    );
    assert!(
        matches!(request(run("npm:chalk@5/x")), Ok(MainModuleRequest::Npm(url)) if url.as_str() == "npm:chalk@5/x")
    );
    assert_eq!(request(DenoSubcommand::Info).unwrap_err().message, "No main module.");
}

#[test]
fn file_header_overrides() {
    let overrides = |ext: Option<&str>, main: Option<&str>| {
        let mut given = flags(run("main"));
        given.ext = ext.map(String::from);
        let found = options(given).resolve_file_header_overrides(main.map(specifier));
        format!("{:?}", found.iter().map(|entry| (entry.0.as_str(), &entry.1)).collect::<Vec<_>>())
    };
    for (ext, content_type) in [
        ("ts", "text/typescript"),
        ("tsx", "text/tsx"),
        ("js", "text/javascript"),
        ("jsx", "text/jsx"),
    ] {
        assert_eq!(
            overrides(Some(ext), Some("file:///main")),
            format!("[(\"file:///main\", [(\"content-type\", {:?})])]", content_type)
        );
    }
    assert_eq!(overrides(Some("py"), Some("file:///main")), "[]");
    assert_eq!(overrides(None, Some("file:///main")), "[]");
    assert_eq!(overrides(Some("ts"), None), "[]");
}

#[test]
fn inspectors() {
    let mut given = flags(run("main.ts"));
    given.inspect_brk = Some("127.0.0.1:1".to_string());
    given.inspect_wait = Some("127.0.0.1:2".to_string());
    let made = options(given);
    assert!(made.is_inspecting());
    assert_eq!(made.resolve_inspector_server().as_deref(), Some("127.0.0.1:1"));
    assert_eq!(made.inspect_brk().as_deref(), Some("127.0.0.1:1"));
    assert_eq!(made.inspect_wait().as_deref(), Some("127.0.0.1:2"));
    let mut given = flags(run("main.ts"));
    given.inspect = Some("127.0.0.1:3".to_string());
    assert!(options(given).is_inspecting());
    let mut given = flags(run("main.ts"));
    given.inspect_wait = Some("127.0.0.1:2".to_string());
    let made = options(given);
    assert!(!made.is_inspecting());
    assert_eq!(made.resolve_inspector_server().as_deref(), Some("127.0.0.1:2"));
    let made = options(flags(run("main.ts")));
    assert!(!made.is_inspecting());
    assert_eq!(made.resolve_inspector_server(), None);
}

#[test]
fn imports_of_configuration_files() {
    let with_text = |text: &str| {
        let mut config = deno_json("file:///project/deno.json");
        config.text = config_text(text);
        resolved(flags(run("main.ts")), workspace(Some(config), None), plain_environment())
    };
    let text = r#"{ "compilerOptions": { "types": ["./types.d.ts"] } }"#;
    let found = with_text(text).to_maybe_imports().unwrap();
    assert_eq!(found.len(), 1);
    assert_eq!(found[0].referrer.as_str(), "file:///project/deno.json");
    assert_eq!(found[0].imports, texts(&["./types.d.ts"]));
    assert!(with_text("{}").to_maybe_imports().unwrap().is_empty());
    assert!(with_text(r#"{ "compilerOptions": { "types": 1 } }"#).to_maybe_imports().is_err());
    assert!(with_text("{").to_maybe_imports().is_err());
    assert!(options(flags(run("main.ts"))).to_maybe_imports().unwrap().is_empty());
}

fn patterns() -> FilePatterns {
    FilePatterns::new_with_base("/project".to_string())
}

fn fmt_config() -> FmtConfig {
    let options = FmtOptionsConfig {
        use_tabs: None,
        line_width: Some(100),
        indent_width: None,
        single_quote: None,
        prose_wrap: None,
        semi_colons: None,
    };
    FmtConfig { options, files: patterns() }
}

#[test]
fn options_of_members() {
    let made = options(flags(DenoSubcommand::Info));
    let fmt_flags = FmtFlags {
        files: no_files(),
        use_tabs: Some(true),
        line_width: None,
        indent_width: None,
        single_quote: None,
        prose_wrap: None,
        no_semicolons: None,
    };
    let all = vec![Ok(fmt_config()), Ok(fmt_config())];
    let found = made.resolve_fmt_options_for_members(&fmt_flags, all).unwrap();
    assert_eq!(found.len(), 2);
    assert_eq!(found[1].options.use_tabs, Some(true));
    assert_eq!(found[1].options.line_width, Some(100));
    let all = vec![Ok(fmt_config()), Err("first".to_string()), Err("second".to_string())];
    let error = made.resolve_fmt_options_for_members(&fmt_flags, all).unwrap_err();
    assert_eq!(error.message, "first");
    assert!(made.resolve_fmt_options(&fmt_flags, Ok(fmt_config())).is_ok());

    let lint_flags = LintFlags {
        files: no_files(),
        fix: true,
        json: true,
        compact: false,
        maybe_rules_tags: None,
        maybe_rules_include: None,
        maybe_rules_exclude: None,
    };
    let lint_config = || LintConfig {
        rules: LintRulesConfig { tags: None, includes: None, exclude: None },
        files: patterns(),
    };
    let all = vec![(1, Ok(lint_config())), (2, Ok(lint_config()))];
    let found = made.resolve_lint_options_for_members(&lint_flags, all).unwrap();
    assert_eq!(found.iter().map(|entry| entry.0).collect::<Vec<_>>(), vec![1, 2]);
    assert!(found[0].1.fix);
    let all = vec![(1, Err("first".to_string()))];
    let error = made.resolve_lint_options_for_members::<u8>(&lint_flags, all).unwrap_err();
    assert_eq!(error.message, "first");
    assert!(made.resolve_lint_options(&lint_flags, Ok(lint_config())).is_ok());
    let config = WorkspaceLintConfig { report: None };
    let found = made.resolve_workspace_lint_options(&lint_flags, Ok(config)).unwrap();
    assert_eq!(found.reporter_kind, LintReporterKind::Json);
    let error =
        made.resolve_workspace_lint_options(&lint_flags, Err("bad".to_string())).unwrap_err();
    assert_eq!(error.message, "bad");

    let test_flags = TestFlags {
        files: no_files(),
        doc: true,
        no_run: false,
        coverage_dir: None,
        fail_fast: None,
        allow_none: false,
        filter: None,
        shuffle: None,
        concurrent_jobs: None,
        trace_leaks: false,
        reporter: TestReporterConfig::Dot,
        junit_path: None,
    };
    let all = vec![('a', Ok(TestConfig { files: patterns() }))];
    let found = made.resolve_test_options_for_members(&test_flags, all).unwrap();
    assert_eq!(found[0].0, 'a');
    assert_eq!(found[0].1.files.base, "/project");
    let error = made.resolve_test_options(&test_flags, Err("bad".to_string())).unwrap_err();
    assert_eq!(error.message, "bad");
    assert!(made.resolve_workspace_test_options(&test_flags).doc);

    let mut bench_flags =
        BenchFlags { files: no_files(), filter: None, json: true, no_run: false };
    bench_flags.files.includes = texts(&["data/**********.ts"]);
    let all = vec![('a', Ok(BenchConfig { files: patterns() }))];
    let error = made.resolve_bench_options_for_members(&bench_flags, all).unwrap_err();
    assert!(error.message.starts_with("Failed to expand glob"));
    bench_flags.files.includes = Vec::new();
    assert!(
        made.resolve_bench_options(&bench_flags, Ok(BenchConfig { files: patterns() })).is_ok()
    );
    assert!(made.resolve_workspace_bench_options(&bench_flags).json);
}

fn test_command(coverage_dir: Option<&str>) -> DenoSubcommand {
    DenoSubcommand::Test(TestFlags {
        files: no_files(),
        doc: false,
        no_run: false,
        coverage_dir: coverage_dir.map(String::from),
        fail_fast: None,
        allow_none: false,
        filter: None,
        shuffle: None,
        concurrent_jobs: None,
        trace_leaks: false,
        reporter: TestReporterConfig::Pretty,
        junit_path: None,
    })
}

#[test]
fn coverage_directories() {
    let made = options(flags(test_command(Some("cov"))));
    assert_eq!(made.coverage_dir(Some("env")).as_deref(), Some("cov"));
    let made = options(flags(test_command(None)));
    assert_eq!(made.coverage_dir(Some("env")).as_deref(), Some("env"));
    assert_eq!(made.coverage_dir(None), None);
    assert_eq!(options(flags(run("main.ts"))).coverage_dir(Some("env")), None);
}

#[test]
fn op_summary_metrics() {
    assert!(options(flags(test_command(None))).enable_op_summary_metrics());
    assert!(options(flags(DenoSubcommand::Repl)).enable_op_summary_metrics());
    assert!(options(flags(DenoSubcommand::Jupyter)).enable_op_summary_metrics());
    assert!(!options(flags(run("main.ts"))).enable_op_summary_metrics());
    let mut given = flags(run("main.ts"));
    given.enable_op_summary_metrics = true;
    assert!(options(given).enable_op_summary_metrics());
}

#[test]
fn watching() {
    let watched = |hmr: bool| {
        flags(DenoSubcommand::Run(RunFlags {
            script: "main.ts".to_string(),
            watch: Some(WatchFlagsWithPaths { hmr, paths: texts(&["a", "/b"]) }),
        }))
    };
    assert!(options(watched(true)).has_hmr());
    assert!(!options(watched(false)).has_hmr());
    assert!(!options(flags(run("main.ts"))).has_hmr());
    let config = Some(deno_json("file:///project/deno.json"));
    let pkg_json = Some(package_json("/project/package.json"));
    let made = resolved(watched(false), workspace(config, pkg_json), plain_environment());
    let map = specifier("file:///project/map.json");
    assert_eq!(
        made.watch_paths(Some(&map)),
        texts(&[
            "/project/a",
            "/b",
            "/project/map.json",
            "/project/deno.json",
            "/project/package.json"
        ])
    );
    let config = Some(deno_json("https://example.com/deno.json"));
    let made = resolved(watched(false), workspace(config, None), plain_environment());
    let map = specifier("https://example.com/map.json");
    assert_eq!(made.watch_paths(Some(&map)), texts(&["/project/a", "/b"]));
}

#[test]
fn npm_commands() {
    let made = options(flags(run("npm:chalk@5/source")));
    assert_eq!(made.take_binary_npm_command_name(None).as_deref(), Some("source"));
    assert_eq!(made.take_binary_npm_command_name(Some("cmd")).as_deref(), Some("cmd"));
    let made = options(flags(run("npm:chalk@5")));
    assert_eq!(made.take_binary_npm_command_name(None).as_deref(), Some("chalk"));
    let made = options(flags(run("main.ts")));
    assert_eq!(made.take_binary_npm_command_name(None), None);
    let made = options(flags(DenoSubcommand::Repl));
    assert_eq!(made.take_binary_npm_command_name(Some("cmd")), None);
    let reference = NpmPackageReqReference::parse("npm:@scope/pkg@1.2/bin").unwrap();
    assert_eq!(reference.name, "@scope/pkg");
    assert_eq!(reference.sub_path.as_deref(), Some("bin"));
    assert_eq!(npm_pkg_req_ref_to_binary_command(&reference), "bin");
    assert!(NpmPackageReqReference::parse("jsr:@scope/pkg").is_none());
    assert!(can_read_reference("npm:chalk@5"));
    assert!(!can_read_reference("npm:chalk@18446744073709551615"));
    assert!(!can_read_reference("npm:@a/b@^0.18446744073709551615/mod"));
    assert!(can_read_reference("npm:@a/b@^1.18446744073709551615/mod"));
    assert!(can_read_reference("npm:chalk@1.0.18446744073709551615"));
    assert!(can_read_reference("npm:chalk@latest"));
    assert!(can_read_reference("npm:chalk@5/18446744073709551615.js"));
    assert!(can_read_reference("./18446744073709551615.ts"));
    assert!(can_read_reference("./a@18446744073709551615.ts"));
}

#[test]
fn unstable_features() {
    let mut config = deno_json("file:///project/deno.json");
    config.json.unstable = texts(&["byonm", "bare-node-builtins", "kv"]);
    let mut given = flags(run("main.ts"));
    given.unstable_config.features = texts(&["kv", "cron"]);
    let future = texts(&["ffi", "cron"]);
    let made = resolved(given, workspace(Some(config), None), plain_environment());
    assert_eq!(
        made.unstable_features(&future),
        texts(&["byonm", "bare-node-builtins", "kv", "cron"])
    );
    assert!(made.unstable_bare_node_builtins());
    assert!(!made.unstable_sloppy_imports());
    assert!(made.use_byonm());
    let made = resolved(flags(run("main.ts")), workspace(None, None), environment(true, None));
    assert_eq!(made.unstable_features(&future), texts(&["ffi", "cron"]));
    let mut given = flags(run("main.ts"));
    given.unstable_config.sloppy_imports = true;
    assert!(options(given).unstable_sloppy_imports());
}

#[test]
fn bringing_own_packages() {
    let pkg_json = || Some(package_json("/project/package.json"));
    let given = || flags(run("main.ts"));
    let future = environment(true, None);
    assert!(resolved(given(), workspace(None, pkg_json()), future).use_byonm());
    let present = environment(false, None);
    assert!(!resolved(given(), workspace(None, pkg_json()), present).use_byonm());
    let mut managed = given();
    managed.node_modules_dir = Some(true);
    let future = environment(true, None);
    assert!(!resolved(managed, workspace(None, pkg_json()), future).use_byonm());
    let state = NpmProcessState { kind: NpmProcessStateKind::Byonm, local_node_modules_path: None };
    let made = resolved(given(), workspace(None, None), environment(false, Some(state)));
    assert!(made.use_byonm());
    assert!(made.is_npm_main());
    assert!(made.resolve_npm_resolution_snapshot().unwrap().is_none());
    let plan = made.create_workspace_resolver(Ok(None)).unwrap();
    assert_eq!(plan.pkg_json_dep_resolution, PackageJsonDepResolution::Disabled);
    let mut asked = given();
    asked.unstable_config.byonm = true;
    assert!(options(asked).use_byonm());
}

#[test]
fn storage_keys_of_options() {
    let key = |location: Option<&str>, config: Option<DenoJson>| {
        let mut given = flags(run("main.ts"));
        given.location = location.map(specifier);
        let made = resolved(given, workspace(config, None), plain_environment());
        StorageKeyResolver::from_options(&made).resolve_storage_key(&specifier("file:///main.ts"))
    };
    let config = || Some(deno_json("file:///project/deno.json"));
    assert_eq!(
        key(Some("https://example.com/a"), config()).as_deref(),
        Some("https://example.com")
    );
    assert_eq!(key(Some("data:text/plain,a"), config()), None);
    assert_eq!(key(None, config()).as_deref(), Some("file:///project/deno.json"));
    assert_eq!(key(None, None).as_deref(), Some("file:///main.ts"));
}

#[test]
fn packages_of_a_workspace() {
    let mut config = deno_json("file:///project/lib/deno.json");
    let missing = config_to_deno_graph_workspace_member(&config).unwrap_err();
    assert_eq!(missing.message, "Missing 'name' field in config file.");
    config.json.name = Some("@scope/lib".to_string());
    let missing = config_to_deno_graph_workspace_member(&config).unwrap_err();
    assert_eq!(missing.message, "Missing 'version' field in config file.");
    config.json.version = Some("v1.2.3".to_string());
    config.text = config_text(r#"{ "exports": "./mod.ts" }"#);
    config.json.exports = Some("\"./mod.ts\"".to_string());
    let member = config_to_deno_graph_workspace_member(&config).unwrap();
    assert_eq!(member.base.as_str(), "file:///project/lib/");
    assert_eq!(member.name, "@scope/lib");
    assert_eq!(member.version, "1.2.3");
    assert_eq!(member.exports, vec![(".".to_string(), "./mod.ts".to_string())]);
    let folders = vec![
        folder("file:///project/", None, None),
        folder("file:///project/lib/", Some(config), None),
    ];
    let made =
        resolved(flags(run("a")), Workspace::new(folders, 0, None), plain_environment());
    let members = made.resolve_deno_graph_workspace_members().unwrap();
    assert_eq!(members.len(), 1);
    assert_eq!(members[0].name, "@scope/lib");
    let mut config = deno_json("file:///project/lib/deno.json");
    config.json.name = Some("@scope/lib".to_string());
    config.json.version = Some("one".to_string());
    assert!(config_to_deno_graph_workspace_member(&config).is_err());
    config.json.version = Some("1.0.0".to_string());
    config.text = config_text(r#"{ "exports": "./mod" }"#);
    let error = config_to_deno_graph_workspace_member(&config).unwrap_err();
    assert_eq!(
        error.message,
        "The path './mod' at the root export is missing a file extension. Add a file extension such as '.js' or '.ts'."
    );
    config.text = config_text("{");
    assert!(config_to_deno_graph_workspace_member(&config).is_err());
}

#[test]
fn workspaces() {
    let mut root = deno_json("file:///project/deno.json");
    root.json.unstable = texts(&["kv"]);
    root.json.node_modules_dir = Some(false);
    root.text =
        config_text(r#"{ "lock": "other.lock", "compilerOptions": { "checkJs": true } }"#);
    let folders = vec![
        folder("file:///project/a/", Some(deno_json("file:///project/a/deno.json")), None),
        folder("file:///project/", Some(root), None),
    ];
    let found = Workspace::new(folders, 1, Some(specifier("file:///project/a/deno.json")));
    assert_eq!(found.config_folders().len(), 2);
    assert_eq!(found.root_dir().as_str(), "file:///project/");
    assert!(found.root_folder_configs().deno_json.is_some());
    let start = found.start_deno_json().as_ref().unwrap();
    assert_eq!(start.as_str(), "file:///project/a/deno.json");
    assert!(found.has_unstable("kv"));
    assert!(!found.has_unstable("cron"));
    assert_eq!(found.unstable_features(), texts(&["kv"]));
    assert_eq!(found.node_modules_dir(), Some(false));
    assert!(found.check_js());
    assert_eq!(
        found.resolve_lockfile_path().unwrap().as_deref(),
        Some("/project/other.lock")
    );
    let mut off = deno_json("file:///project/deno.json");
    off.text = config_text(r#"{ "lock": false }"#);
    assert_eq!(workspace(Some(off), None).resolve_lockfile_path().unwrap(), None);
    let plain = workspace(Some(deno_json("file:///project/deno.json")), None);
    assert!(!plain.check_js());
    assert_eq!(
        plain.resolve_lockfile_path().unwrap().as_deref(),
        Some("/project/deno.lock")
    );
    let rootless = workspace(Some(deno_json("file:///")), None);
    assert_eq!(rootless.resolve_lockfile_path().unwrap().as_deref(), Some("/deno.lock"));
    let mut rootless = deno_json("file:///");
    rootless.text = config_text(r#"{ "lock": "other.lock" }"#);
    let rootless = workspace(Some(rootless), None);
    let error = rootless.resolve_lockfile_path().unwrap_err();
    assert_eq!(error, "The configuration file is in no directory.");
    let found = workspace(None, Some(package_json("/project/package.json")));
    assert_eq!(
        found.resolve_lockfile_path().unwrap().as_deref(),
        Some("/project/deno.lock")
    );
    assert_eq!(workspace(None, None).resolve_lockfile_path().unwrap(), None);
}

fn emit_options() -> EmitConfigOptions {
    EmitConfigOptions {
        experimental_decorators: false,
        emit_decorator_metadata: true,
        imports_not_used_as_values: "remove".to_string(),
        inline_source_map: true,
        inline_sources: true,
        source_map: true,
        jsx: "react".to_string(),
        jsx_factory: "h".to_string(),
        jsx_fragment_factory: "Fragment".to_string(),
        jsx_import_source: Some("preact".to_string()),
        jsx_precompile_skip_elements: Some(texts(&["a"])),
    }
}

#[test]
fn emit_options_are_read() {
    let (transpile, emit) = to_transpile_and_emit_options(emit_options());
    assert!(!transpile.use_ts_decorators && transpile.use_decorators_proposal);
    assert!(transpile.emit_metadata && !transpile.var_decl_imports);
    assert_eq!(transpile.imports_not_used_as_values, ImportsNotUsedAsValues::Remove);
    assert_eq!(transpile.jsx_factory, "h");
    assert_eq!(transpile.jsx_fragment_factory, "Fragment");
    assert_eq!(transpile.jsx_import_source.as_deref(), Some("preact"));
    assert_eq!(transpile.precompile_jsx_skip_elements, Some(texts(&["a"])));
    assert!(emit.inline_sources && !emit.remove_comments);
    assert_eq!(emit.source_map, SourceMapOption::Inline);
    assert_eq!(emit.source_map_file, None);
    for (text, expected) in [
        ("preserve", ImportsNotUsedAsValues::Preserve),
        ("error", ImportsNotUsedAsValues::Error),
        ("other", ImportsNotUsedAsValues::Remove),
    ] {
        let mut options = emit_options();
        options.imports_not_used_as_values = text.to_string();
        options.experimental_decorators = true;
        let (transpile, _) = to_transpile_and_emit_options(options);
        assert_eq!(transpile.imports_not_used_as_values, expected);
        assert!(transpile.use_ts_decorators && !transpile.use_decorators_proposal);
    }
    let mut options = emit_options();
    options.inline_source_map = false;
    assert_eq!(to_transpile_and_emit_options(options).1.source_map, SourceMapOption::Separate);
    let mut options = emit_options();
    options.inline_source_map = false;
    options.source_map = false;
    assert_eq!(to_transpile_and_emit_options(options).1.source_map, SourceMapOption::NoMap);
}

#[test]
fn jsx_modes() {
    let mode = |jsx: &str| {
        let mut options = emit_options();
        options.jsx = jsx.to_string();
        let (transpile, _) = to_transpile_and_emit_options(options);
        (
            transpile.transform_jsx,
            transpile.jsx_automatic,
            transpile.jsx_development,
            transpile.precompile_jsx,
        )
    };
    assert_eq!(mode("react"), (true, false, false, false));
    assert_eq!(mode("react-jsx"), (true, true, false, false));
    assert_eq!(mode("react-jsxdev"), (true, true, true, false));
    assert_eq!(mode("precompile"), (false, false, false, true));
    assert_eq!(mode("preserve"), (false, false, false, false));
}

fn value_of<'a>(config: &'a TsConfig, name: &str) -> Option<&'a str> {
    let entry = config.entries.iter().find(|entry| entry.0 == name);
    entry.map(|entry| entry.1.as_str())
}

#[test]
fn compiler_options_for_emit() {
    let mut config = deno_json("file:///project/deno.json");
    config.text = config_text(r#"{ "compilerOptions": { "jsx": "react-jsx", "jsxImportSource": "preact" } }"#);
    let found = resolve_ts_config_for_emit(TsConfigType::Emit, &Some(config), false).unwrap();
    assert_eq!(value_of(&found.ts_config, "jsx"), Some("\"react-jsx\""));
    assert_eq!(value_of(&found.ts_config, "experimentalDecorators"), Some("false"));
    let (transpile, _) = ts_config_to_transpile_and_emit_options(found.ts_config).unwrap();
    assert!(transpile.transform_jsx && transpile.jsx_automatic);
    assert_eq!(transpile.jsx_import_source.as_deref(), Some("preact"));
    let found = resolve_ts_config_for_emit(TsConfigType::Bundle, &None, true).unwrap();
    assert_eq!(value_of(&found.ts_config, "experimentalDecorators"), Some("true"));
    let (transpile, _) = ts_config_to_transpile_and_emit_options(found.ts_config).unwrap();
    assert!(transpile.use_ts_decorators);
    for (lib, name) in [
        (TsTypeLib::DenoWindow, "[\"deno.window\",\"deno.unstable\"]"),
        (TsTypeLib::DenoWorker, "[\"deno.worker\",\"deno.unstable\"]"),
    ] {
        let found = resolve_ts_config_for_emit(TsConfigType::Check(lib), &None, false).unwrap();
        assert_eq!(value_of(&found.ts_config, "lib"), Some(name));
    }
    let mut config = deno_json("file:///project/deno.json");
    config.text = config_text("{");
    assert!(resolve_ts_config_for_emit(TsConfigType::Emit, &Some(config), false).is_err());
}

#[test]
fn malformed_compiler_options() {
    let config = TsConfig { entries: Vec::new() };
    let error = ts_config_to_transpile_and_emit_options(config).unwrap_err();
    assert_eq!(error.message, "Failed to parse compilerOptions");
    assert!(error.cause.is_some());
    // of two entries with one name the last counts
    let found = resolve_ts_config_for_emit(TsConfigType::Emit, &None, false).unwrap();
    let mut entries = vec![("jsx".to_string(), "{".to_string())];
    entries.extend(found.ts_config.entries);
    assert!(ts_config_to_transpile_and_emit_options(TsConfig { entries }).is_ok());
}

#[test]
fn ignored_compiler_options() {
    let mut config = deno_json("file:///project/deno.json");
    config.text = config_text(r#"{ "compilerOptions": { "target": "es5" } }"#);
    let found = resolve_ts_config_for_emit(TsConfigType::Emit, &Some(config), false).unwrap();
    assert!(found.maybe_ignored_options.unwrap().contains("target"));
}

#[test]
fn compiler_options_of_commands() {
    let bundle = DenoSubcommand::Bundle(BundleFlags { source_file: "a.ts".to_string() });
    let made = options(flags(bundle));
    let found = made.resolve_ts_config_for_emit(TsConfigType::Bundle).unwrap();
    assert_eq!(value_of(&found.ts_config, "experimentalDecorators"), Some("true"));
    let made = options(flags(run("main.ts")));
    let found = made.resolve_ts_config_for_emit(TsConfigType::Emit).unwrap();
    assert_eq!(value_of(&found.ts_config, "experimentalDecorators"), Some("false"));
    let lint = made.resolve_lint_config().unwrap();
    assert_eq!(lint.default_jsx_factory, None);
    let mut config = deno_json("file:///project/deno.json");
    config.text = config_text(r#"{ "compilerOptions": { "jsx": "react-jsx", "jsxFactory": "h" } }"#);
    let made = resolved(flags(run("a")), workspace(Some(config), None), plain_environment());
    let lint = made.resolve_lint_config().unwrap();
    assert_eq!(lint.default_jsx_factory.as_deref(), Some("h"));
    assert_eq!(lint.default_jsx_fragment_factory.as_deref(), Some("React.Fragment"));
}
