//! What holds of the resolved options of a command, stated over the results of the
//! functions that resolve them.

use std::sync::Arc;

use deno_npm::npm_rc::ResolvedNpmRc;
use deno_npm::resolution::ValidSerializedNpmResolutionSnapshot;
use vstd::prelude::*;

use crate::cache_setting::CacheSetting;
use crate::cli_options::{
    empty_workspace, env_file_warning, insecure_certificates_warning, jsr_config_file_names,
    node_modules_folder, npm_system_info_for_target, workspace_discovery, workspace_npmrc_search,
    CliOptions, EnvFileError, Environment, LinterJsxConfig, MainModuleRequest, MainModuleView,
    NpmSystemInfo, ReferrerImports, SpecifiedImportMap, WorkspaceDiscovery, WorkspaceResolverPlan,
    WorkspaceStart,
};
use crate::config::{ConfigFolder, DenoJson, Workspace};
use crate::config_file::{config_file_checks_js, config_file_error};
use crate::emit::{
    emit_options_of, resolve_ts_config_for_emit, TsConfigForEmit, TsConfigType, TsTypeLib,
};
use crate::error::CliError;
use crate::flags::{
    BenchFlags, CaData, ConfigFlag, DenoSubcommand, Flags, FmtFlags, GraphKind, LintFlags, LogLevel,
    PermissionFlags, TestFlags, TypeCheckMode,
};
use crate::folders::{
    resolve_node_modules_folder, resolve_vendor_folder, FolderChoice, FolderChoiceView,
};
use crate::import_maps::{resolve_import_map_specifier, ImportMapRequest};
use crate::lists::{law_collected, law_first_error, law_with_all_missing};
use crate::npmrc::NpmrcSearch;
use crate::options::{
    are_fmt_options_of, are_rules_of, is_valid_fmt_flags, BenchConfig, BenchOptions, FmtConfig,
    FmtOptions, FmtOptionsView, LintConfig, LintOptions, LintOptionsView, TestConfig, TestOptions,
    WorkspaceBenchOptions, WorkspaceLintConfig, WorkspaceLintOptions, WorkspaceTestOptions,
};
use crate::packages::{npm_reference, workspace_members, WorkspaceMember};
use crate::path::path_join;
use crate::patterns::{
    are_files_of, has_invalid_ignores, has_invalid_includes, is_error_on_files, FilePatternsView,
};
use crate::process_state::{
    is_complete, snapshot_packages, valid_snapshot_packages, NpmProcessStateKind, ProcessState,
};
use crate::specifier::{
    directory_url, scheme_of, url_file_path, url_joined, url_parsed, ModuleSpecifier,
};
use crate::text::{joined, parse_i64};
use crate::workspace_resolver::PackageJsonDepResolution;

verus! {

/// There is a warning exactly where certificates are not checked. It lists the hosts, or
/// says that none is checked if there is no list.
pub proof fn law_insecure_certificates(flags: &Flags, r: Option<String>)
    requires
        call_ensures(insecure_certificates_warning, (flags,), r),
    ensures
        r is Some <==> flags.unsafely_ignore_certificate_errors is Some,
        r matches Some(warning) ==> {
            let hosts = flags.unsafely_ignore_certificate_errors->0;
            &&& hosts.len() == 0 ==> warning@ == "DANGER: TLS certificate validation is disabled "@
                + "for all hostnames"@
            &&& hosts.len() > 0 ==> warning@ == "DANGER: TLS certificate validation is disabled "@
                + ("for: "@ + joined(hosts.deep_view(), ", "@))
        },
{
}

/// The warning on an environment file names the file, and where and in which value it is
/// malformed if it is.
pub proof fn law_env_file_warning(name: &str, error: &EnvFileError, r: String)
    requires
        call_ensures(env_file_warning, (name, error), r),
    ensures
        *error matches EnvFileError::LineParse(line, index) ==> r@
            == "Parsing failed within the specified environment file: "@ + name@ + " at index: "@
            + index@ + " of the value: "@ + line@,
        *error is Io ==> r@ == "The `--env` flag was used, but the environment file specified '"@
            + name@ + "' was not found."@,
        *error is EnvVar ==> r@
            == "One or more of the environment variables isn't present or not unicode within the specified environment file: "@
            + name@,
        *error is Unknown ==> r@
            == "Unknown failure occurred with the specified environment file: "@ + name@,
{
}

/// A workspace is looked for at the configuration file that a flag names, seen from the
/// current directory; nowhere if configuration is off; and otherwise from the directories
/// that the command's arguments lead to. `package.json` files are taken in unless
/// configuration, npm or such files are off. Comments on tasks matter for tasks alone,
/// and the names that JSR uses for publishing alone.
pub proof fn law_workspace_discovery(
    flags: &Flags,
    cwd: &str,
    dirs: Option<Vec<String>>,
    no_package_json: Option<&str>,
    r: WorkspaceDiscovery,
)
    requires
        call_ensures(workspace_discovery, (flags, cwd, dirs, no_package_json), r),
    ensures
        flags.config_flag is Disabled ==> r.start is Empty && !r.discover_pkg_json,
        flags.config_flag matches ConfigFlag::Path(path) ==> r.start is ConfigFile
            && r.start->ConfigFile_0@ == path_join(cwd@, path@),
        flags.config_flag is Discover && dirs is None ==> r.start is Empty,
        flags.config_flag is Discover && dirs is Some ==> r.start == WorkspaceStart::Dirs(dirs->0),
        r.discover_pkg_json <==> !(flags.config_flag is Disabled) && !flags.no_npm && !(
        no_package_json is Some && no_package_json->0@ == seq!['1']),
        r.include_task_comments <==> flags.subcommand is Task,
        r.allow_jsr_names <==> flags.subcommand is Publish,
{
    reveal_strlit("1");
    assert("1"@ == seq!['1']);
}

/// The names of configuration files that JSR uses.
pub proof fn law_jsr_names(r: Vec<String>)
    requires
        call_ensures(jsr_config_file_names, (), r),
    ensures
        r.len() == 2,
        r@[0]@ == "jsr.json"@,
        r@[1]@ == "jsr.jsonc"@,
{
    assert(r.deep_view().len() == r.len());
    assert(r.deep_view()[0] == r@[0]@ && r.deep_view()[1] == r@[1]@);
}

/// A workspace without configuration files has the directory as its only folder, which
/// holds no file.
pub proof fn law_empty_workspace(cwd: &str, r: Option<Workspace>)
    requires
        call_ensures(empty_workspace, (cwd,), r),
    ensures
        r is Some <==> directory_url(cwd@) is Some,
        r matches Some(workspace) ==> {
            &&& workspace.folders().len() == 1
            &&& Some(workspace.root().url@) == directory_url(cwd@)
            &&& workspace.root().configs.deno_json is None
            &&& workspace.root().configs.pkg_json is None
            &&& workspace.start() is None
        },
{
}

/// Whether a path is that of a configuration file that is a local file.
pub open spec fn is_local_path(deno_json: Option<DenoJson>, path: Option<Seq<char>>) -> bool {
    &&& path is Some <==> deno_json is Some && scheme_of(deno_json->0.specifier@) == "file"@
        && url_file_path(deno_json->0.specifier@) is Some
    &&& path is Some ==> path == url_file_path(deno_json->0.specifier@)
}

/// The `.npmrc` of a workspace is looked for beside the root's `package.json` and beside
/// the root's configuration file, if that is a local one.
pub proof fn law_workspace_npmrc_search(
    workspace: &Workspace,
    pkg_json_path: Option<&str>,
    deno_json_path: Option<&str>,
    expected: NpmrcSearch,
    r: NpmrcSearch,
)
    requires
        call_ensures(workspace_npmrc_search, (workspace,), r),
        call_ensures(NpmrcSearch::new, (pkg_json_path, deno_json_path), expected),
        pkg_json_path is Some <==> workspace.root().configs.pkg_json is Some,
        pkg_json_path is Some ==> pkg_json_path->0@ == workspace.root().configs.pkg_json->0.path@,
        is_local_path(workspace.root().configs.deno_json, deno_json_path.deep_view()),
    ensures
        r.pending() == expected.pending(),
{
}

/// The `node_modules` folder of a command is decided by the configuration files of the
/// workspace's root, and the state that the process inherited.
pub proof fn law_node_modules_of_command(
    flags: &Flags,
    cwd: &str,
    workspace: &Workspace,
    process: &ProcessState,
    expected: FolderChoice,
    r: FolderChoice,
)
    requires
        call_ensures(node_modules_folder, (flags, cwd, workspace, process), r),
        call_ensures(
            resolve_node_modules_folder,
            (
                cwd,
                flags,
                &workspace.root().configs.deno_json,
                &workspace.root().configs.pkg_json,
                &process.npm,
            ),
            expected,
        ),
    ensures
        r.deep_view() == expected.deep_view(),
{
}

proof fn lemma_targets_differ()
    ensures
        "aarch64-apple-darwin"@ != "aarch64-unknown-linux-gnu"@,
        "aarch64-apple-darwin"@ != "x86_64-apple-darwin"@,
        "aarch64-apple-darwin"@ != "x86_64-unknown-linux-gnu"@,
        "aarch64-apple-darwin"@ != "x86_64-pc-windows-msvc"@,
        "aarch64-unknown-linux-gnu"@ != "x86_64-apple-darwin"@,
        "aarch64-unknown-linux-gnu"@ != "x86_64-unknown-linux-gnu"@,
        "aarch64-unknown-linux-gnu"@ != "x86_64-pc-windows-msvc"@,
        "x86_64-apple-darwin"@ != "x86_64-unknown-linux-gnu"@,
        "x86_64-apple-darwin"@ != "x86_64-pc-windows-msvc"@,
        "x86_64-unknown-linux-gnu"@ != "x86_64-pc-windows-msvc"@,
{
    reveal_strlit("aarch64-apple-darwin");
    reveal_strlit("aarch64-unknown-linux-gnu");
    reveal_strlit("x86_64-apple-darwin");
    reveal_strlit("x86_64-unknown-linux-gnu");
    reveal_strlit("x86_64-pc-windows-msvc");
    assert("aarch64-apple-darwin"@.len() == 20 && "aarch64-unknown-linux-gnu"@.len() == 25);
    assert("x86_64-apple-darwin"@.len() == 19 && "x86_64-unknown-linux-gnu"@.len() == 24);
    assert("x86_64-pc-windows-msvc"@.len() == 22);
}

/// Whether a system is known for a compilation target.
pub open spec fn is_known_target(target: Seq<char>) -> bool {
    ||| target == "aarch64-apple-darwin"@
    ||| target == "aarch64-unknown-linux-gnu"@
    ||| target == "x86_64-apple-darwin"@
    ||| target == "x86_64-unknown-linux-gnu"@
    ||| target == "x86_64-pc-windows-msvc"@
}

/// Whether a system is the one of a known compilation target.
pub open spec fn is_system_of(system: NpmSystemInfo, target: Seq<char>) -> bool {
    &&& target == "aarch64-apple-darwin"@ ==> system.os@ == "darwin"@ && system.cpu@ == "arm64"@
    &&& target == "aarch64-unknown-linux-gnu"@ ==> system.os@ == "linux"@ && system.cpu@
        == "arm64"@
    &&& target == "x86_64-apple-darwin"@ ==> system.os@ == "darwin"@ && system.cpu@ == "x64"@
    &&& target == "x86_64-unknown-linux-gnu"@ ==> system.os@ == "linux"@ && system.cpu@ == "x64"@
    &&& target == "x86_64-pc-windows-msvc"@ ==> system.os@ == "win32"@ && system.cpu@ == "x64"@
}

/// npm packages are chosen for the system of a known target, and for the current one
/// without a target or with one that is not known.
pub proof fn law_system_of_target(
    target: Option<&str>,
    current: NpmSystemInfo,
    r: NpmSystemInfo,
)
    requires
        call_ensures(npm_system_info_for_target, (target, current), r),
    ensures
        target is None ==> r == current,
        target is Some && !is_known_target(target->0@) ==> r == current,
        target is Some ==> is_known_target(target->0@) ==> is_system_of(r, target->0@),
{
    lemma_targets_differ();
}

/// A command that compiles for a known target chooses npm packages for it, and there is a
/// warning, which names the target, exactly where the target is not known.
pub proof fn law_system_of_command<L>(
    options: &CliOptions<L>,
    system: NpmSystemInfo,
    warning: Option<String>,
)
    requires
        call_ensures(CliOptions::<L>::npm_system_info, (options,), system),
        call_ensures(CliOptions::<L>::npm_system_info_warning, (options,), warning),
    ensures
        !(options.flags().subcommand is Compile) ==> warning is None,
        options.flags().subcommand matches DenoSubcommand::Compile(flags) ==> {
            &&& flags.target is None ==> warning is None
            &&& flags.target matches Some(target) ==> {
                &&& is_known_target(target@) ==> warning is None && is_system_of(system, target@)
                &&& !is_known_target(target@) ==> warning is Some && warning->0@
                    == "Not implemented npm system info for target '"@ + target@
                    + "'. Using current system default. This may impact architecture specific dependencies."@
            }
        },
{
    lemma_targets_differ();
}

/// Options hold the flags, the directory, the npm settings, the workspace and the process
/// state that they are made of. With the global cache forced there is neither a lockfile
/// nor a vendor folder; otherwise the lockfile is the one given, and the vendor folder is
/// the one that flags and the root's configuration file lead to. The `node_modules` folder
/// is the one that is decided on, in its canonical form where that is asked for, and it is
/// an error if it has none.
pub proof fn law_made_options<L>(
    flags: Flags,
    cwd: String,
    lockfile: Option<Arc<L>>,
    npmrc: Arc<ResolvedNpmRc>,
    workspace: Arc<Workspace>,
    force_global_cache: bool,
    environment: Environment,
    canonical: Result<String, String>,
    shown_cwd: &str,
    choice: FolderChoice,
    vendor: Option<String>,
    r: Result<CliOptions<L>, CliError>,
)
    requires
        call_ensures(
            CliOptions::<L>::new,
            (
                flags,
                cwd,
                lockfile,
                npmrc,
                workspace,
                force_global_cache,
                environment,
                canonical,
            ),
            r,
        ),
        shown_cwd@ == cwd@,
        call_ensures(
            node_modules_folder,
            (&flags, shown_cwd, &*workspace, &environment.process),
            choice,
        ),
        call_ensures(
            resolve_vendor_folder,
            (shown_cwd, &flags, &workspace.root().configs.deno_json),
            vendor,
        ),
    ensures
        r is Err <==> choice is Canonical && canonical is Err,
        r matches Err(error) ==> error.message@ == "Resolving node_modules folder."@
            && error.cause.deep_view() == Some(canonical->Err_0@),
        r matches Ok(options) ==> {
            &&& options.flags() == flags
            &&& options.cwd() == cwd@
            &&& options.npm_settings() == *npmrc
            &&& options.configs() == *workspace
            &&& options.inherited() == environment.process
            &&& options.import_map_override() is None
            &&& choice is Off ==> options.node_modules() is None
            &&& choice matches FolderChoice::At(path) ==> options.node_modules() == Some(path@)
            &&& choice is Canonical ==> options.node_modules() == Some(canonical->Ok_0@)
            &&& force_global_cache ==> options.lockfile() is None && options.vendor() is None
            &&& !force_global_cache ==> options.lockfile() == lockfile && options.vendor()
                == vendor.deep_view()
            &&& options.hides_deprecations() <==> flags.log_level == Some(LogLevel::Error)
                || environment.no_deprecation_warnings
            &&& options.details_deprecations() == environment.verbose_warnings
        },
{
}

/// Options that are made of flags do not force the global cache, and hold the lockfile
/// that was discovered.
pub proof fn law_options_of_flags<L>(
    flags: Flags,
    cwd: String,
    workspace: Workspace,
    npmrc: Arc<ResolvedNpmRc>,
    lockfile: Option<L>,
    environment: Environment,
    canonical: Result<String, String>,
    r: Result<CliOptions<L>, CliError>,
    expected: Result<CliOptions<L>, CliError>,
)
    requires
        call_ensures(
            CliOptions::<L>::from_flags,
            (flags, cwd, workspace, npmrc, lockfile, environment, canonical),
            r,
        ),
        call_ensures(
            CliOptions::<L>::new,
            (
                flags,
                cwd,
                (match lockfile {
                    Some(lockfile) => Some(Arc::new(lockfile)),
                    None => None,
                }),
                npmrc,
                Arc::new(workspace),
                false,
                environment,
                canonical,
            ),
            expected,
        ),
    ensures
        r is Ok <==> expected is Ok,
        r is Err ==> r->Err_0@ == expected->Err_0@,
        r matches Ok(options) ==> {
            &&& options.flags() == flags && options.cwd() == cwd@
            &&& options.configs() == workspace && options.npm_settings() == *npmrc
            &&& lockfile is Some <==> options.lockfile() is Some
            &&& lockfile is Some ==> *options.lockfile()->0 == lockfile->0
            &&& options.node_modules() == expected->Ok_0.node_modules()
            &&& options.vendor() == expected->Ok_0.vendor()
            &&& options.inherited() == environment.process
            &&& options.hides_deprecations() == expected->Ok_0.hides_deprecations()
            &&& options.details_deprecations() == environment.verbose_warnings
            &&& options.import_map_override() is None
        },
{
}

/// A module graph holds everything for `cache`, types alone for `check`, and otherwise
/// leaves types out exactly where nothing is checked.
pub proof fn law_graph_of_command<L>(options: &CliOptions<L>, r: GraphKind)
    requires
        call_ensures(CliOptions::<L>::graph_kind, (options,), r),
    ensures
        options.flags().subcommand is Cache ==> r is All,
        r is TypesOnly <==> options.flags().subcommand is Check,
        !(options.flags().subcommand is Cache) && !(options.flags().subcommand is Check) ==> (r
            is CodeOnly <==> options.flags().type_check_mode is NoCheck),
{
}

/// Cached files alone are used if that flag is given, whatever else is; else listed files
/// are reloaded if there are any; else everything is if that flag is given; else cached
/// files are used.
pub proof fn law_cache_setting<L>(options: &CliOptions<L>, r: CacheSetting)
    requires
        call_ensures(CliOptions::<L>::cache_setting, (options,), r),
    ensures
        ({
            let flags = options.flags();
            &&& r is Only <==> flags.cached_only
            &&& r is ReloadSome <==> !flags.cached_only && flags.cache_blocklist.len() > 0
            &&& r is ReloadAll <==> !flags.cached_only && flags.cache_blocklist.len() == 0
                && flags.reload
            &&& r is Use <==> !flags.cached_only && flags.cache_blocklist.len() == 0
                && !flags.reload
            &&& r matches CacheSetting::ReloadSome(list) ==> list.deep_view()
                == flags.cache_blocklist.deep_view()
        }),
{
}

/// Windows and workers have type libraries of their own.
pub proof fn law_type_libraries<L>(options: &CliOptions<L>, window: TsTypeLib, worker: TsTypeLib)
    requires
        call_ensures(CliOptions::<L>::ts_type_lib_window, (options,), window),
        call_ensures(CliOptions::<L>::ts_type_lib_worker, (options,), worker),
    ensures
        window is DenoWindow,
        worker is DenoWorker,
{
}

/// The import map of a command: an override hides all others, be it by none at all.
/// Without one it is the one that the flag names, resolved; and it is an error if that
/// cannot be resolved.
pub proof fn law_import_map_of_command<L>(
    options: &CliOptions<L>,
    path: Option<&str>,
    asked: ImportMapRequest,
    request: Option<ImportMapRequest>,
    resolved: Result<ModuleSpecifier, String>,
    r: Result<Option<ModuleSpecifier>, CliError>,
)
    requires
        call_ensures(CliOptions::<L>::specified_import_map_request, (options,), request),
        call_ensures(
            CliOptions::<L>::resolve_specified_import_map_specifier,
            (options, resolved),
            r,
        ),
        path.deep_view() == options.flags().import_map_path.deep_view(),
        call_ensures(
            resolve_import_map_specifier,
            (path, &options.configs().root().configs.deno_json),
            asked,
        ),
    ensures
        request is None <==> options.import_map_override() is Some,
        request matches Some(request) ==> request.url_or_path.deep_view()
            == asked.url_or_path.deep_view() && request.warning.deep_view()
            == asked.warning.deep_view(),
        options.import_map_override() matches Some(specifier) ==> r is Ok && r->Ok_0.deep_view()
            == specifier,
        options.import_map_override() is None && options.flags().import_map_path is None ==> r is Ok
            && r->Ok_0 is None,
        options.import_map_override() is None && options.flags().import_map_path is Some ==> {
            &&& resolved matches Ok(specifier) ==> r is Ok && r->Ok_0 == Some(specifier)
            &&& resolved matches Err(cause) ==> r is Err && r->Err_0.message@ == "Bad URL (\""@
                + options.flags().import_map_path->0@ + "\") for import map."@
                && r->Err_0.cause.deep_view() == Some(cause@)
        },
{
}

/// A workspace resolver reads the dependencies of `package.json` files unless packages
/// come from the user's own `node_modules`. Its import map is the one that was specified;
/// an override by none makes it an empty one at the root of the workspace.
pub proof fn law_workspace_resolver_plan<L>(
    options: &CliOptions<L>,
    specified: Result<Option<ModuleSpecifier>, CliError>,
    byonm: bool,
    r: Result<WorkspaceResolverPlan, CliError>,
)
    requires
        call_ensures(CliOptions::<L>::create_workspace_resolver, (options, specified), r),
        call_ensures(CliOptions::<L>::use_byonm, (options,), byonm),
    ensures
        r matches Ok(plan) ==> (plan.pkg_json_dep_resolution is Disabled <==> byonm),
        options.import_map_override() == Some(None::<Seq<char>>) ==> {
            let url = url_joined(options.configs().root().url@, "import_map.json"@);
            &&& r is Ok <==> url is Some
            &&& r matches Ok(plan) ==> plan.import_map is Empty && Some(
                plan.import_map->Empty_0@,
            ) == url
        },
        options.import_map_override() != Some(None::<Seq<char>>) ==> {
            &&& specified matches Err(error) ==> r is Err && r->Err_0 == error
            &&& specified matches Ok(None) ==> r is Ok && r->Ok_0.import_map is Unspecified
            &&& specified matches Ok(Some(url)) ==> r is Ok && r->Ok_0.import_map is Load
                && r->Ok_0.import_map->Load_0@ == url@
        },
{
}

/// The channel to the parent process is the number in the environment, if it is one.
pub proof fn law_node_channel<L>(
    options: &CliOptions<L>,
    value: Option<&str>,
    number: Option<i64>,
    r: Option<i64>,
)
    requires
        call_ensures(CliOptions::<L>::node_ipc_fd, (options, value), r),
        value is Some ==> call_ensures(parse_i64, (value->0,), number),
    ensures
        value is None ==> r is None,
        value is Some ==> r == number,
{
}

/// A server listens where its flags say, and no other command listens.
pub proof fn law_server<L>(options: &CliOptions<L>, port: Option<u16>, host: Option<String>)
    requires
        call_ensures(CliOptions::<L>::serve_port, (options,), port),
        call_ensures(CliOptions::<L>::serve_host, (options,), host),
    ensures
        options.flags().subcommand matches DenoSubcommand::Serve(flags) ==> port == Some(flags.port)
            && host is Some && host->0@ == flags.host@,
        !(options.flags().subcommand is Serve) ==> port is None && host is None,
{
}

/// The main module of a command: the file to bundle or compile, or the script to run or
/// serve, seen from the directory that the command was started in; names of their own for
/// code that is evaluated, typed in, or read from standard input. A script that is an npm
/// package and is not watched is that package. Other commands have none.
pub proof fn law_main_module<L>(
    options: &CliOptions<L>,
    r: Result<MainModuleRequest, CliError>,
)
    requires
        call_ensures(CliOptions::<L>::resolve_main_module, (options,), r),
    ensures
        ({
            let command = options.flags().subcommand;
            &&& command matches DenoSubcommand::Bundle(flags) ==> r is Ok && r->Ok_0.deep_view()
                == MainModuleView::FromInitialCwd(flags.source_file@)
            &&& command matches DenoSubcommand::Compile(flags) ==> r is Ok && r->Ok_0.deep_view()
                == MainModuleView::FromInitialCwd(flags.source_file@)
            &&& command matches DenoSubcommand::Serve(flags) ==> r is Ok && r->Ok_0.deep_view()
                == MainModuleView::FromInitialCwd(flags.script@)
            &&& command is Eval ==> r is Ok && r->Ok_0.deep_view()
                == MainModuleView::FromInitialCwd("./$deno$eval"@)
            &&& command is Repl ==> r is Ok && r->Ok_0.deep_view()
                == MainModuleView::FromInitialCwd("./$deno$repl.ts"@)
            &&& command matches DenoSubcommand::Run(flags) ==> {
                let script = flags.script@;
                let is_package = flags.watch is None && npm_reference(script) is Some;
                &&& script == seq!['-'] ==> r is Ok && r->Ok_0.deep_view()
                    == MainModuleView::FromCurrentDir("./$deno$stdin.ts"@)
                &&& script != seq!['-'] && !is_package ==> r is Ok && r->Ok_0.deep_view()
                    == MainModuleView::FromInitialCwd(script)
                &&& script != seq!['-'] && is_package && url_parsed(script) is Ok ==> r is Ok
                    && r->Ok_0.deep_view() == MainModuleView::Npm(url_parsed(script)->Ok_0)
                &&& script != seq!['-'] && is_package && url_parsed(script) is Err ==> r is Err
                    && r->Err_0.message@ == url_parsed(script)->Err_0
            }
            &&& !(command is Bundle || command is Compile || command is Serve || command is Eval
                || command is Repl || command is Run) ==> r is Err && r->Err_0.message@
                == "No main module."@
        }),
{
    reveal_strlit("-");
    assert("-"@ == seq!['-']);
}

proof fn lemma_extensions_differ()
    ensures
        "ts"@ != "tsx"@,
        "ts"@ != "js"@,
        "ts"@ != "jsx"@,
        "tsx"@ != "js"@,
        "tsx"@ != "jsx"@,
        "js"@ != "jsx"@,
{
    reveal_strlit("ts");
    reveal_strlit("tsx");
    reveal_strlit("js");
    reveal_strlit("jsx");
    assert("ts"@[0] == 't' && "tsx"@[0] == 't' && "js"@[0] == 'j' && "jsx"@[0] == 'j');
    assert("ts"@.len() == 2 && "tsx"@.len() == 3 && "js"@.len() == 2 && "jsx"@.len() == 3);
}

/// Headers are overridden for the main module alone, and only if an extension is given
/// that a content type is known for, which is then the only header.
pub proof fn law_header_overrides<L>(
    options: &CliOptions<L>,
    main_module: Option<ModuleSpecifier>,
    r: Vec<(ModuleSpecifier, Vec<(String, String)>)>,
)
    requires
        call_ensures(
            CliOptions::<L>::resolve_file_header_overrides,
            (options, main_module),
            r,
        ),
    ensures
        ({
            let ext = options.flags().ext;
            let is_known = ext is Some && (ext->0@ == "ts"@ || ext->0@ == "tsx"@ || ext->0@ == "js"@
                || ext->0@ == "jsx"@);
            &&& !is_known || main_module is None ==> r.len() == 0
            &&& is_known && main_module is Some ==> {
                &&& r.len() == 1
                &&& r@[0].0@ == main_module->0@
                &&& r@[0].1.len() == 1
                &&& r@[0].1@[0].0@ == "content-type"@
                &&& ext->0@ == "ts"@ ==> r@[0].1@[0].1@ == "text/typescript"@
                &&& ext->0@ == "tsx"@ ==> r@[0].1@[0].1@ == "text/tsx"@
                &&& ext->0@ == "js"@ ==> r@[0].1@[0].1@ == "text/javascript"@
                &&& ext->0@ == "jsx"@ ==> r@[0].1@[0].1@ == "text/jsx"@
            }
        }),
{
    lemma_extensions_differ();
    let view = r.deep_view();
    assert(view.len() == r.len());
    if r.len() > 0 {
        assert(view[0] == r@[0].deep_view());
        assert(view[0].1 == r@[0].1.deep_view());
        assert(view[0].1.len() == r@[0].1.len());
        if r@[0].1.len() > 0 {
            assert(view[0].1[0] == r@[0].1@[0].deep_view());
        }
    }
}

/// A process starts from the packages that it inherited, if they are complete, and it is
/// an error if they are not. Without any, or with the user's own, there are none. The main
/// module counts as one of an npm package exactly where the process inherited a state.
pub proof fn law_inherited_packages<L>(
    options: &CliOptions<L>,
    r: Result<Option<ValidSerializedNpmResolutionSnapshot>, CliError>,
    is_npm_main: bool,
)
    requires
        call_ensures(CliOptions::<L>::resolve_npm_resolution_snapshot, (options,), r),
        call_ensures(CliOptions::<L>::is_npm_main, (options,), is_npm_main),
    ensures
        is_npm_main <==> options.inherited().npm is Some,
        options.inherited().npm is None ==> r is Ok && r->Ok_0 is None,
        options.inherited().npm matches Some(state) ==> {
            &&& state.kind is Byonm ==> r is Ok && r->Ok_0 is None
            &&& state.kind matches NpmProcessStateKind::Snapshot(snapshot) ==> {
                let packages = snapshot_packages(snapshot);
                &&& is_complete(packages) ==> r is Ok && r->Ok_0 is Some
                    && valid_snapshot_packages(r->Ok_0->0) == packages
                &&& !is_complete(packages) ==> r is Err
            }
        },
{
}

/// There is a `node_modules` directory exactly where there is a path for it. Another path
/// changes nothing else.
pub proof fn law_node_modules_path<L>(
    options: &CliOptions<L>,
    path: String,
    changed: CliOptions<L>,
    has_dir: bool,
    changed_has_dir: bool,
    shown: &Option<String>,
)
    requires
        call_ensures(CliOptions::<L>::with_node_modules_dir_path, (options, path), changed),
        call_ensures(CliOptions::<L>::has_node_modules_dir, (options,), has_dir),
        call_ensures(CliOptions::<L>::has_node_modules_dir, (&changed,), changed_has_dir),
        call_ensures(CliOptions::<L>::node_modules_dir_path, (&changed,), shown),
    ensures
        has_dir <==> options.node_modules() is Some,
        changed_has_dir,
        shown.deep_view() == Some(path@),
        changed.flags() == options.flags() && changed.cwd() == options.cwd(),
        changed.configs() == options.configs() && changed.inherited() == options.inherited(),
        changed.lockfile() == options.lockfile() && changed.vendor() == options.vendor(),
        changed.npm_settings() == options.npm_settings(),
        changed.import_map_override() == options.import_map_override(),
        changed.hides_deprecations() == options.hides_deprecations(),
        changed.details_deprecations() == options.details_deprecations(),
{
}

/// What is said on `node_modules`: what the flag says, or else what the root's
/// configuration file says.
pub proof fn law_node_modules_enablement<L>(options: &CliOptions<L>, r: Option<bool>)
    requires
        call_ensures(CliOptions::<L>::node_modules_dir_enablement, (options,), r),
    ensures
        options.flags().node_modules_dir is Some ==> r == options.flags().node_modules_dir,
        options.flags().node_modules_dir is None && options.configs().root().configs.deno_json
            is None ==> r is None,
        options.flags().node_modules_dir is None
            ==> (options.configs().root().configs.deno_json matches Some(file) ==> r
            == file.json.node_modules_dir),
{
}

/// The compiler options of a command are those of the root's configuration file, as a
/// bundle exactly where the command bundles.
pub proof fn law_compiler_options<L>(
    options: &CliOptions<L>,
    config_type: TsConfigType,
    expected: Result<TsConfigForEmit, CliError>,
    r: Result<TsConfigForEmit, CliError>,
)
    requires
        call_ensures(CliOptions::<L>::resolve_ts_config_for_emit, (options, config_type), r),
        call_ensures(
            resolve_ts_config_for_emit,
            (
                config_type,
                &options.configs().root().configs.deno_json,
                options.flags().subcommand is Bundle,
            ),
            expected,
        ),
    ensures
        r is Ok <==> expected is Ok,
        r is Ok ==> r->Ok_0.ts_config.deep_view() == expected->Ok_0.ts_config.deep_view()
            && r->Ok_0.maybe_ignored_options.deep_view()
            == expected->Ok_0.maybe_ignored_options.deep_view(),
        r is Err ==> r->Err_0@ == expected->Err_0@,
{
}

/// An inspector listens at the address of the first flag that is given, of `inspect`,
/// `inspect-brk` and `inspect-wait`. The command is inspecting with either of the first
/// two.
pub proof fn law_inspector<L>(options: &CliOptions<L>, address: Option<String>, inspects: bool)
    requires
        call_ensures(CliOptions::<L>::resolve_inspector_server, (options,), address),
        call_ensures(CliOptions::<L>::is_inspecting, (options,), inspects),
    ensures
        ({
            let flags = options.flags();
            &&& flags.inspect matches Some(at) ==> address.deep_view() == Some(at@)
            &&& flags.inspect is None ==> (flags.inspect_brk matches Some(at) ==> address.deep_view()
                == Some(at@))
            &&& flags.inspect is None && flags.inspect_brk is None ==> address.deep_view()
                == flags.inspect_wait.deep_view()
            &&& inspects <==> flags.inspect is Some || flags.inspect_brk is Some
        }),
{
}

/// The imports of a module graph are the types of the root's configuration file, each
/// seen from that file; without such a file there are none.
pub proof fn law_graph_imports<L>(
    options: &CliOptions<L>,
    r: Result<Vec<ReferrerImports>, CliError>,
)
    requires
        call_ensures(CliOptions::<L>::to_maybe_imports, (options,), r),
    ensures
        options.configs().root().configs.deno_json is None ==> r is Ok && r->Ok_0.len() == 0,
        options.configs().root().configs.deno_json matches Some(file) ==> match file.brought_types() {
            Ok(types) => r is Ok && r->Ok_0.len() == types.len() && forall|i: int|
                0 <= i < types.len() ==> (#[trigger] r->Ok_0@[i]).referrer@ == types[i].0
                    && r->Ok_0@[i].imports.deep_view() == types[i].1,
            Err(message) => r is Err && r->Err_0.message@ == message,
        },
{
    if r is Ok {
        assert(r->Ok_0.deep_view().len() == r->Ok_0.len());
    }
    if let Some(file) = options.configs().root().configs.deno_json {
        if let Ok(types) = file.brought_types() {
            let list = r->Ok_0;
            assert(list.deep_view() == types);
            assert forall|i: int| 0 <= i < types.len() implies (#[trigger] list@[i]).referrer@
                == types[i].0 && list@[i].imports.deep_view() == types[i].1 by {
                assert(list.deep_view()[i] == list@[i].deep_view());
            }
        }
    }
}

/// Options of `lint` as a whole: an error in the configuration stands, and otherwise they
/// are those that flags and configuration lead to.
pub proof fn law_workspace_lint<L>(
    options: &CliOptions<L>,
    flags: &LintFlags,
    config: Result<WorkspaceLintConfig, String>,
    expected: Result<WorkspaceLintOptions, CliError>,
    r: Result<WorkspaceLintOptions, CliError>,
)
    requires
        call_ensures(
            CliOptions::<L>::resolve_workspace_lint_options,
            (options, flags, config),
            r,
        ),
        config is Ok ==> call_ensures(
            WorkspaceLintOptions::resolve,
            (&config->Ok_0, flags),
            expected,
        ),
    ensures
        config is Err ==> r is Err && r->Err_0.message@ == config->Err_0@,
        config is Ok ==> (r is Ok <==> expected is Ok),
        config is Ok && expected is Ok ==> r->Ok_0.reporter_kind == expected->Ok_0.reporter_kind,
        config is Ok && expected is Err ==> r->Err_0@ == expected->Err_0@,
{
}

/// Lint rules assume the JSX factories of the compiler options exactly where imports for
/// JSX are automatic.
pub proof fn law_lint_factories<L>(
    options: &CliOptions<L>,
    config: Result<TsConfigForEmit, CliError>,
    r: Result<LinterJsxConfig, CliError>,
)
    requires
        call_ensures(CliOptions::<L>::resolve_lint_config, (options,), r),
        call_ensures(
            CliOptions::<L>::resolve_ts_config_for_emit,
            (options, TsConfigType::Emit),
            config,
        ),
    ensures
        config is Err ==> r is Err && r->Err_0@ == config->Err_0@,
        config matches Ok(found) ==> match emit_options_of(found.ts_config.deep_view()) {
            Err(message) => r is Err && r->Err_0.message@ == "Failed to parse compilerOptions"@,
            Ok(given) => {
                let is_automatic = given.jsx == "react-jsx"@ || given.jsx == "react-jsxdev"@;
                &&& r is Ok
                &&& is_automatic ==> r->Ok_0.default_jsx_factory.deep_view() == Some(
                    given.jsx_factory,
                ) && r->Ok_0.default_jsx_fragment_factory.deep_view() == Some(
                    given.jsx_fragment_factory,
                )
                &&& !is_automatic ==> r->Ok_0.default_jsx_factory is None
                    && r->Ok_0.default_jsx_fragment_factory is None
            },
        },
{
    reveal_strlit("react");
    reveal_strlit("react-jsx");
    reveal_strlit("react-jsxdev");
    reveal_strlit("precompile");
    assert("react"@.len() == 5 && "react-jsx"@.len() == 9 && "react-jsxdev"@.len() == 12);
    assert("precompile"@.len() == 10);
}

/// Tests and benches run as their flags say, and the packages of the workspace are those
/// of its folders.
pub proof fn law_workspace_runs<L>(
    options: &CliOptions<L>,
    test_flags: &TestFlags,
    bench_flags: &BenchFlags,
    test: WorkspaceTestOptions,
    bench: WorkspaceBenchOptions,
    expected_test: WorkspaceTestOptions,
    members: Result<Vec<WorkspaceMember>, CliError>,
    expected_members: Result<Vec<WorkspaceMember>, CliError>,
)
    requires
        call_ensures(
            CliOptions::<L>::resolve_workspace_test_options,
            (options, test_flags),
            test,
        ),
        call_ensures(
            CliOptions::<L>::resolve_workspace_bench_options,
            (options, bench_flags),
            bench,
        ),
        call_ensures(WorkspaceTestOptions::resolve, (test_flags,), expected_test),
        call_ensures(
            CliOptions::<L>::resolve_deno_graph_workspace_members,
            (options,),
            members,
        ),
        call_ensures(workspace_members, (&options.configs(),), expected_members),
    ensures
        bench.filter == bench_flags.filter && bench.json == bench_flags.json && bench.no_run
            == bench_flags.no_run,
        test.doc == expected_test.doc && test.no_run == expected_test.no_run && test.fail_fast
            == expected_test.fail_fast && test.allow_none == expected_test.allow_none
            && test.filter == expected_test.filter && test.shuffle == expected_test.shuffle,
        test.concurrent_jobs.number() == expected_test.concurrent_jobs.number(),
        test.trace_leaks == expected_test.trace_leaks && test.reporter == expected_test.reporter
            && test.junit_path == expected_test.junit_path,
        members is Ok <==> expected_members is Ok,
        members is Ok ==> members->Ok_0.deep_view() == expected_members->Ok_0.deep_view(),
        members is Err ==> members->Err_0@ == expected_members->Err_0@,
{
}

/// Options that a flag alone decides are what the flag says.
pub proof fn law_plain_flags<L>(
    options: &CliOptions<L>,
    argv: &Vec<String>,
    ca_data: &Option<CaData>,
    ca_stores: &Option<Vec<String>>,
    ext: &Option<String>,
    inspect_brk: &Option<String>,
    inspect_wait: &Option<String>,
    location: &Option<ModuleSpecifier>,
    root: &Option<String>,
    permissions: &PermissionFlags,
    strace: &Option<Vec<String>>,
    insecure: &Option<Vec<String>>,
    v8_flags: &Vec<String>,
    seed: Option<u64>,
    level: Option<LogLevel>,
)
    requires
        call_ensures(CliOptions::<L>::argv, (options,), argv),
        call_ensures(CliOptions::<L>::ca_data, (options,), ca_data),
        call_ensures(CliOptions::<L>::ca_stores, (options,), ca_stores),
        call_ensures(CliOptions::<L>::ext_flag, (options,), ext),
        call_ensures(CliOptions::<L>::inspect_brk, (options,), inspect_brk),
        call_ensures(CliOptions::<L>::inspect_wait, (options,), inspect_wait),
        call_ensures(CliOptions::<L>::location_flag, (options,), location),
        call_ensures(CliOptions::<L>::maybe_custom_root, (options,), root),
        call_ensures(CliOptions::<L>::permission_flags, (options,), permissions),
        call_ensures(CliOptions::<L>::strace_ops, (options,), strace),
        call_ensures(CliOptions::<L>::unsafely_ignore_certificate_errors, (options,), insecure),
        call_ensures(CliOptions::<L>::v8_flags, (options,), v8_flags),
        call_ensures(CliOptions::<L>::seed, (options,), seed),
        call_ensures(CliOptions::<L>::log_level, (options,), level),
    ensures
        *argv == options.flags().argv && *v8_flags == options.flags().v8_flags,
        *ca_data == options.flags().ca_data && *ca_stores == options.flags().ca_stores,
        *ext == options.flags().ext && *location == options.flags().location,
        *inspect_brk == options.flags().inspect_brk && *inspect_wait
            == options.flags().inspect_wait,
        *root == options.flags().cache_path && *permissions == options.flags().permissions,
        *strace == options.flags().strace_ops && *insecure
            == options.flags().unsafely_ignore_certificate_errors,
        seed == options.flags().seed && level == options.flags().log_level,
{
}

/// Switches that a flag alone decides are what the flag says. Only errors are shown
/// exactly where that is the log level, and configuration is off exactly where that is
/// asked for.
pub proof fn law_plain_switches<L>(
    options: &CliOptions<L>,
    testing: bool,
    quiet: bool,
    no_remote: bool,
    no_npm: bool,
    no_config: bool,
    reload: bool,
    legacy: bool,
    code_cache: bool,
    future: bool,
)
    requires
        call_ensures(CliOptions::<L>::enable_testing_features, (options,), testing),
        call_ensures(CliOptions::<L>::is_quiet, (options,), quiet),
        call_ensures(CliOptions::<L>::no_remote, (options,), no_remote),
        call_ensures(CliOptions::<L>::no_npm, (options,), no_npm),
        call_ensures(CliOptions::<L>::no_config, (options,), no_config),
        call_ensures(CliOptions::<L>::reload_flag, (options,), reload),
        call_ensures(CliOptions::<L>::legacy_unstable_flag, (options,), legacy),
        call_ensures(CliOptions::<L>::code_cache_enabled, (options,), code_cache),
        call_ensures(CliOptions::<L>::enable_future_features, (options,), future),
    ensures
        testing == options.flags().enable_testing_features,
        quiet <==> options.flags().log_level is Some && options.flags().log_level->0 is Error,
        no_remote == options.flags().no_remote && no_npm == options.flags().no_npm,
        no_config <==> options.flags().config_flag is Disabled,
        reload == options.flags().reload && code_cache == options.flags().code_cache_enabled,
        legacy == options.flags().unstable_config.legacy_flag_enabled,
        future == options.inherited().deno_future,
{
}

/// Coverage data is for tests alone, and goes where the flag says, or else where the
/// environment says.
pub proof fn law_coverage<L>(options: &CliOptions<L>, env: Option<&str>, r: Option<String>)
    requires
        call_ensures(CliOptions::<L>::coverage_dir, (options, env), r),
    ensures
        !(options.flags().subcommand is Test) ==> r is None,
        options.flags().subcommand matches DenoSubcommand::Test(flags) ==> {
            &&& flags.coverage_dir matches Some(dir) ==> r.deep_view() == Some(dir@)
            &&& flags.coverage_dir is None ==> r.deep_view() == env.deep_view()
        },
{
}

/// A summary of operations is kept if the flag asks for it, and for tests and
/// interactive sessions in any case. Modules are replaced while the program runs exactly
/// where that is asked for in watching a script.
pub proof fn law_metrics_and_replacement<L>(options: &CliOptions<L>, metrics: bool, hmr: bool)
    requires
        call_ensures(CliOptions::<L>::enable_op_summary_metrics, (options,), metrics),
        call_ensures(CliOptions::<L>::has_hmr, (options,), hmr),
    ensures
        metrics <==> options.flags().enable_op_summary_metrics || options.flags().subcommand is Test
            || options.flags().subcommand is Repl || options.flags().subcommand is Jupyter,
        hmr <==> (options.flags().subcommand matches DenoSubcommand::Run(flags) && flags.watch
            is Some && flags.watch->0.hmr),
{
}

/// The command of an npm package that is run: the one in the environment, or else the sub
/// path of the package reference, or else the package's name. There is none for a script
/// that is no npm package, nor for other commands.
pub proof fn law_npm_command<L>(options: &CliOptions<L>, env: Option<&str>, r: Option<String>)
    requires
        call_ensures(CliOptions::<L>::take_binary_npm_command_name, (options, env), r),
    ensures
        !(options.flags().subcommand is Run) ==> r is None,
        options.flags().subcommand matches DenoSubcommand::Run(flags) ==> {
            &&& env is Some ==> r.deep_view() == Some(env->0@)
            &&& env is None && npm_reference(flags.script@) is None ==> r is None
            &&& env is None ==> (npm_reference(flags.script@) matches Some((_, Some(path)))
                ==> r.deep_view() == Some(path))
            &&& env is None ==> (npm_reference(flags.script@) matches Some((name, None))
                ==> r.deep_view() == Some(name))
        },
{
}

/// Whether the root's configuration file lists an unstable feature.
pub open spec fn is_configured(workspace: Workspace, feature: Seq<char>) -> bool {
    workspace.root().configs.deno_json matches Some(file)
        && file.json.unstable.deep_view().contains(feature)
}

/// Unstable features with flags of their own are on if the flag is given or the root's
/// configuration file lists them.
pub proof fn law_unstable_switches<L>(options: &CliOptions<L>, builtins: bool, sloppy: bool)
    requires
        call_ensures(CliOptions::<L>::unstable_bare_node_builtins, (options,), builtins),
        call_ensures(CliOptions::<L>::unstable_sloppy_imports, (options,), sloppy),
    ensures
        builtins <==> options.flags().unstable_config.bare_node_builtins || is_configured(
            options.configs(),
            "bare-node-builtins"@,
        ),
        sloppy <==> options.flags().unstable_config.sloppy_imports || is_configured(
            options.configs(),
            "sloppy-imports"@,
        ),
{
}

/// Packages come from the user's own `node_modules` if a flag, the configuration file or
/// the inherited state says so; and in the next major version also where a folder of the
/// workspace has a `package.json` and nothing is said on `node_modules`.
pub proof fn law_own_packages<L>(
    options: &CliOptions<L>,
    enablement: Option<bool>,
    r: bool,
)
    requires
        call_ensures(CliOptions::<L>::use_byonm, (options,), r),
        call_ensures(CliOptions::<L>::node_modules_dir_enablement, (options,), enablement),
    ensures
        ({
            let has_file = exists|i: int|
                0 <= i < options.configs().folders().len() && (
                #[trigger] options.configs().folders()[i]).configs.pkg_json is Some;
            let state_says_so = options.inherited().npm is Some && options.inherited().npm->0.kind
                is Byonm;
            r <==> options.flags().unstable_config.byonm || is_configured(
                options.configs(),
                "byonm"@,
            ) || state_says_so || (options.inherited().deno_future && enablement is None
                && has_file)
        }),
{
}

/// The unstable features in use are those of the root's configuration file, as they
/// stand, and behind them, each once, those of the flags and, in the next major version,
/// those of that version.
pub proof fn law_features_of_command<L>(
    options: &CliOptions<L>,
    future: &Vec<String>,
    r: Vec<String>,
)
    requires
        call_ensures(CliOptions::<L>::unstable_features, (options, future), r),
    ensures
        ({
            let features = r.deep_view();
            let flagged = options.flags().unstable_config.features.deep_view();
            let root = options.configs().root().configs;
            &&& forall|feature: Seq<char>| #[trigger]
                features.contains(feature) <==> is_configured(options.configs(), feature)
                    || flagged.contains(feature) || (options.inherited().deno_future
                    && future.deep_view().contains(feature))
            &&& root.deno_json matches Some(file) ==> file.json.unstable.len() <= features.len()
                && features.take(file.json.unstable.len() as int)
                == file.json.unstable.deep_view()
            &&& root.deno_json is None ==> features.no_duplicates()
        }),
{
    let configured = options.configs().configured_unstable();
    let flagged = options.flags().unstable_config.features.deep_view();
    crate::cli_options::law_unstable_features(*options, future.deep_view());
    law_with_all_missing(configured, flagged);
}

/// Whether a list holds the paths of the configuration files of folders, in order: of each
/// folder that of its configuration file, if it is a local one, and that of its
/// `package.json`.
pub open spec fn are_config_paths(paths: Seq<Seq<char>>, folders: Seq<ConfigFolder>) -> bool {
    paths == folders.map_values(|folder: ConfigFolder| folder_paths(folder)).flatten()
}

/// The paths of the configuration files of a folder.
pub open spec fn folder_paths(folder: ConfigFolder) -> Seq<Seq<char>> {
    let deno_json = folder.configs.deno_json;
    let is_local = deno_json is Some && scheme_of(deno_json->0.specifier@) == "file"@
        && url_file_path(deno_json->0.specifier@) is Some;
    let first = if is_local {
        seq![url_file_path(deno_json->0.specifier@)->0]
    } else {
        Seq::empty()
    };
    if folder.configs.pkg_json is Some {
        first.push(folder.configs.pkg_json->0.path@)
    } else {
        first
    }
}

proof fn lemma_config_paths(folders: Seq<ConfigFolder>)
    ensures
        are_config_paths(crate::cli_options::config_paths(folders), folders),
    decreases folders.len(),
{
    let f = |folder: ConfigFolder| folder_paths(folder);
    let all = folders.map_values(f);
    if folders.len() == 0 {
        assert(all.flatten() =~= Seq::<Seq<char>>::empty());
    } else {
        let front = folders.drop_last();
        lemma_config_paths(front);
        assert(all.drop_last() == front.map_values(f));
        assert(all == all.drop_last().push(all.last()));
        all.drop_last().lemma_flatten_push(all.last());
        assert(crate::cli_options::config_paths(folders) =~= all.drop_last().flatten()
            + folder_paths(folders.last()));
    }
}

/// The paths to watch, in order: those that a watched script asks for, seen from the
/// directory that the command was started in; that of the import map, if it is a local
/// file; and those of all configuration files of the workspace.
pub proof fn law_watched_paths<L>(
    options: &CliOptions<L>,
    import_map: Option<&ModuleSpecifier>,
    named: Seq<Seq<char>>,
    maps: Seq<Seq<char>>,
    configs: Seq<Seq<char>>,
    r: Vec<String>,
)
    requires
        call_ensures(CliOptions::<L>::watch_paths, (options, import_map), r),
        ({
            let is_watched = options.flags().subcommand matches DenoSubcommand::Run(flags)
                && flags.watch is Some;
            &&& !is_watched ==> named.len() == 0
            &&& options.flags().subcommand matches DenoSubcommand::Run(flags) ==> (
            flags.watch matches Some(watch) ==> named.len() == watch.paths.len() && forall|i: int|
                0 <= i < named.len() ==> #[trigger] named[i] == path_join(
                    options.cwd(),
                    watch.paths@[i]@,
                ))
        }),
        ({
            let is_local = import_map is Some && url_file_path(import_map->0@) is Some;
            &&& is_local ==> maps == seq![url_file_path(import_map->0@)->0]
            &&& !is_local ==> maps.len() == 0
        }),
        are_config_paths(configs, options.configs().folders()),
    ensures
        r.deep_view() == named + maps + configs,
{
    lemma_config_paths(options.configs().folders());
    let expected = crate::cli_options::seen_from(
        options.cwd(),
        crate::cli_options::watched_by_flags(options.flags().subcommand),
    );
    assert(named =~= expected);
    assert(maps =~= crate::cli_options::import_map_path(import_map));
}

/// The options of `fmt` for a member: those of its configuration as the flags change
/// them, with files of the command line seen from the directory that the command was
/// started in. An error in the configuration stands.
pub proof fn law_member_fmt<L>(
    options: &CliOptions<L>,
    flags: &FmtFlags,
    config: Result<FmtConfig, String>,
    r: Result<FmtOptions, CliError>,
)
    requires
        is_valid_fmt_flags(*flags),
        call_ensures(CliOptions::<L>::resolve_fmt_options, (options, flags, config), r),
    ensures
        config is Err ==> r is Err && r->Err_0.message@ == config->Err_0@,
        config matches Ok(config) ==> {
            &&& r is Err <==> has_invalid_includes(flags.files, options.cwd())
                || has_invalid_ignores(flags.files, options.cwd())
            &&& r matches Err(error) ==> is_error_on_files(error, flags.files, options.cwd())
            &&& r matches Ok(fmt) ==> are_files_of(
                fmt.files.deep_view(),
                config.files.deep_view(),
                flags.files,
                options.cwd(),
            ) && are_fmt_options_of(fmt.options, config.options, *flags)
        },
{
    reveal_strlit("always");
    reveal_strlit("never");
    reveal_strlit("preserve");
    assert("always"@[0] == 'a' && "never"@[0] == 'n' && "preserve"@[0] == 'p');
}

/// The options of `lint` for a member: those of its configuration as the flags change
/// them, with files of the command line seen from the directory that the command was
/// started in. An error in the configuration stands.
pub proof fn law_member_lint<L>(
    options: &CliOptions<L>,
    flags: &LintFlags,
    config: Result<LintConfig, String>,
    r: Result<LintOptions, CliError>,
)
    requires
        call_ensures(CliOptions::<L>::resolve_lint_options, (options, flags, config), r),
    ensures
        config is Err ==> r is Err && r->Err_0.message@ == config->Err_0@,
        config matches Ok(config) ==> {
            &&& r is Err <==> has_invalid_includes(flags.files, options.cwd())
                || has_invalid_ignores(flags.files, options.cwd())
            &&& r matches Err(error) ==> is_error_on_files(error, flags.files, options.cwd())
            &&& r matches Ok(lint) ==> are_files_of(
                lint.files.deep_view(),
                config.files.deep_view(),
                flags.files,
                options.cwd(),
            ) && lint.fix == flags.fix && are_rules_of(
                lint.rules.deep_view(),
                config.rules.deep_view(),
                *flags,
            )
        },
{
}

/// The options of `test` for a member: the files of its configuration as the flags change
/// them, seen from the directory that the command was started in. An error in the
/// configuration stands.
pub proof fn law_member_test<L>(
    options: &CliOptions<L>,
    flags: &TestFlags,
    config: Result<TestConfig, String>,
    r: Result<TestOptions, CliError>,
)
    requires
        call_ensures(CliOptions::<L>::resolve_test_options, (options, flags, config), r),
    ensures
        config is Err ==> r is Err && r->Err_0.message@ == config->Err_0@,
        config matches Ok(config) ==> {
            &&& r is Err <==> has_invalid_includes(flags.files, options.cwd())
                || has_invalid_ignores(flags.files, options.cwd())
            &&& r matches Err(error) ==> is_error_on_files(error, flags.files, options.cwd())
            &&& r matches Ok(test) ==> are_files_of(
                test.files.deep_view(),
                config.files.deep_view(),
                flags.files,
                options.cwd(),
            )
        },
{
}

/// The options of `bench` for a member: the files of its configuration as the flags change
/// them, seen from the directory that the command was started in. An error in the
/// configuration stands.
pub proof fn law_member_bench<L>(
    options: &CliOptions<L>,
    flags: &BenchFlags,
    config: Result<BenchConfig, String>,
    r: Result<BenchOptions, CliError>,
)
    requires
        call_ensures(CliOptions::<L>::resolve_bench_options, (options, flags, config), r),
    ensures
        config is Err ==> r is Err && r->Err_0.message@ == config->Err_0@,
        config matches Ok(config) ==> {
            &&& r is Err <==> has_invalid_includes(flags.files, options.cwd())
                || has_invalid_ignores(flags.files, options.cwd())
            &&& r matches Err(error) ==> is_error_on_files(error, flags.files, options.cwd())
            &&& r matches Ok(bench) ==> are_files_of(
                bench.files.deep_view(),
                config.files.deep_view(),
                flags.files,
                options.cwd(),
            )
        },
{
}

/// The options of `fmt` for several members are those of each of them, in order.
/// It fails exactly where it fails for one of them, with the first error.
pub proof fn law_members_fmt<L>(
    options: &CliOptions<L>,
    flags: &FmtFlags,
    members: Vec<Result<FmtConfig, String>>,
    outcomes: Seq<Result<FmtOptions, CliError>>,
    r: Result<Vec<FmtOptions>, CliError>,
)
    requires
        is_valid_fmt_flags(*flags),
        call_ensures(
            CliOptions::<L>::resolve_fmt_options_for_members,
            (options, flags, members),
            r,
        ),
        outcomes.len() == members.len(),
        forall|i: int|
            0 <= i < outcomes.len() ==> call_ensures(
                CliOptions::<L>::resolve_fmt_options,
                (options, flags, members@[i]),
                #[trigger] outcomes[i],
            ),
    ensures
        r is Ok <==> forall|i: int| 0 <= i < outcomes.len() ==> (#[trigger] outcomes[i]) is Ok,
        r matches Ok(list) ==> list.len() == outcomes.len() && forall|i: int|
            0 <= i < outcomes.len() ==> (#[trigger] outcomes[i]) is Ok
                && list@[i].deep_view() == outcomes[i]->Ok_0.deep_view(),
        r matches Err(error) ==> exists|i: int|
            0 <= i < outcomes.len() && (#[trigger] outcomes[i]) is Err && outcomes[i]->Err_0@
                == error@ && forall|k: int| 0 <= k < i ==> (#[trigger] outcomes[k]) is Ok,
{
    let model = crate::cli_options::members_fmt(members@, *flags, options.cwd());
    law_collected(model);
    law_first_error(model);
    assert forall|i: int| 0 <= i < outcomes.len() implies crate::patterns::gives(
        #[trigger] outcomes[i],
        model[i],
    ) by {
        assert(call_ensures(
            CliOptions::<L>::resolve_fmt_options,
            (options, flags, members@[i]),
            outcomes[i],
        ));
    }
    assert forall|i: int| 0 <= i < outcomes.len() implies (#[trigger] model[i] is Ok
        <==> outcomes[i] is Ok) by {
        assert(crate::patterns::gives(outcomes[i], model[i]));
    }
    if r is Ok {
        let list = r->Ok_0;
        let values = crate::lists::collected(model)->Ok_0;
        assert forall|i: int| 0 <= i < outcomes.len() implies (#[trigger] outcomes[i]) is Ok
            && list@[i].deep_view() == outcomes[i]->Ok_0.deep_view() by {
            assert(model[i] == Ok::<FmtOptionsView, Seq<char>>(values[i]));
            assert(crate::patterns::gives(outcomes[i], model[i]));
            assert(list.deep_view()[i] == list@[i].deep_view());
        }
    } else {
        let message = crate::lists::collected(model)->Err_0;
        let i = choose|i: int|
            0 <= i < model.len() && (#[trigger] model[i]) == Err::<FmtOptionsView, Seq<char>>(message) && forall|
                k: int,
            |
                0 <= k < i ==> (#[trigger] model[k]) is Ok;
        assert(crate::patterns::gives(outcomes[i], model[i]));
        assert(outcomes[i] is Err);
        assert forall|k: int| 0 <= k < i implies (#[trigger] outcomes[k]) is Ok by {
            assert(model[k] is Ok);
        }
        assert(!(forall|k: int| 0 <= k < outcomes.len() ==> (#[trigger] outcomes[k]) is Ok));
    }
}

/// The options of `lint` for several members are those of each of them, each beside its member, in order.
/// It fails exactly where it fails for one of them, with the first error.
pub proof fn law_members_lint<L, C>(
    options: &CliOptions<L>,
    flags: &LintFlags,
    members: Vec<(C, Result<LintConfig, String>)>,
    outcomes: Seq<Result<LintOptions, CliError>>,
    r: Result<Vec<(C, LintOptions)>, CliError>,
)
    requires
        call_ensures(
            CliOptions::<L>::resolve_lint_options_for_members::<C>,
            (options, flags, members),
            r,
        ),
        outcomes.len() == members.len(),
        forall|i: int|
            0 <= i < outcomes.len() ==> call_ensures(
                CliOptions::<L>::resolve_lint_options,
                (options, flags, members@[i].1),
                #[trigger] outcomes[i],
            ),
    ensures
        r is Ok <==> forall|i: int| 0 <= i < outcomes.len() ==> (#[trigger] outcomes[i]) is Ok,
        r matches Ok(list) ==> list.len() == outcomes.len() && forall|i: int|
            0 <= i < outcomes.len() ==> (#[trigger] outcomes[i]) is Ok
                && list@[i].1.deep_view() == outcomes[i]->Ok_0.deep_view() && list@[i].0 == members@[i].0,
        r matches Err(error) ==> exists|i: int|
            0 <= i < outcomes.len() && (#[trigger] outcomes[i]) is Err && outcomes[i]->Err_0@
                == error@ && forall|k: int| 0 <= k < i ==> (#[trigger] outcomes[k]) is Ok,
{
    let model = crate::cli_options::members_lint(members@, *flags, options.cwd());
    law_collected(model);
    law_first_error(model);
    assert forall|i: int| 0 <= i < outcomes.len() implies crate::patterns::gives(
        #[trigger] outcomes[i],
        model[i],
    ) by {
        assert(call_ensures(
            CliOptions::<L>::resolve_lint_options,
            (options, flags, members@[i].1),
            outcomes[i],
        ));
    }
    assert forall|i: int| 0 <= i < outcomes.len() implies (#[trigger] model[i] is Ok
        <==> outcomes[i] is Ok) by {
        assert(crate::patterns::gives(outcomes[i], model[i]));
    }
    if r is Ok {
        let list = r->Ok_0;
        let values = crate::lists::collected(model)->Ok_0;
        assert forall|i: int| 0 <= i < outcomes.len() implies (#[trigger] outcomes[i]) is Ok
            && list@[i].1.deep_view() == outcomes[i]->Ok_0.deep_view() && list@[i].0 == members@[i].0 by {
            assert(model[i] == Ok::<LintOptionsView, Seq<char>>(values[i]));
            assert(crate::patterns::gives(outcomes[i], model[i]));
            assert(list@[i].0 == members@[i].0);
        }
    } else {
        let message = crate::lists::collected(model)->Err_0;
        let i = choose|i: int|
            0 <= i < model.len() && (#[trigger] model[i]) == Err::<LintOptionsView, Seq<char>>(message) && forall|
                k: int,
            |
                0 <= k < i ==> (#[trigger] model[k]) is Ok;
        assert(crate::patterns::gives(outcomes[i], model[i]));
        assert(outcomes[i] is Err);
        assert forall|k: int| 0 <= k < i implies (#[trigger] outcomes[k]) is Ok by {
            assert(model[k] is Ok);
        }
        assert(!(forall|k: int| 0 <= k < outcomes.len() ==> (#[trigger] outcomes[k]) is Ok));
    }
}

/// The options of `test` for several members are those of each of them, each beside its member, in order.
/// It fails exactly where it fails for one of them, with the first error.
pub proof fn law_members_test<L, C>(
    options: &CliOptions<L>,
    flags: &TestFlags,
    members: Vec<(C, Result<TestConfig, String>)>,
    outcomes: Seq<Result<TestOptions, CliError>>,
    r: Result<Vec<(C, TestOptions)>, CliError>,
)
    requires
        call_ensures(
            CliOptions::<L>::resolve_test_options_for_members::<C>,
            (options, flags, members),
            r,
        ),
        outcomes.len() == members.len(),
        forall|i: int|
            0 <= i < outcomes.len() ==> call_ensures(
                CliOptions::<L>::resolve_test_options,
                (options, flags, members@[i].1),
                #[trigger] outcomes[i],
            ),
    ensures
        r is Ok <==> forall|i: int| 0 <= i < outcomes.len() ==> (#[trigger] outcomes[i]) is Ok,
        r matches Ok(list) ==> list.len() == outcomes.len() && forall|i: int|
            0 <= i < outcomes.len() ==> (#[trigger] outcomes[i]) is Ok
                && list@[i].1.deep_view() == outcomes[i]->Ok_0.deep_view() && list@[i].0 == members@[i].0,
        r matches Err(error) ==> exists|i: int|
            0 <= i < outcomes.len() && (#[trigger] outcomes[i]) is Err && outcomes[i]->Err_0@
                == error@ && forall|k: int| 0 <= k < i ==> (#[trigger] outcomes[k]) is Ok,
{
    let model = crate::cli_options::members_test(members@, *flags, options.cwd());
    law_collected(model);
    law_first_error(model);
    assert forall|i: int| 0 <= i < outcomes.len() implies crate::patterns::gives(
        #[trigger] outcomes[i],
        model[i],
    ) by {
        assert(call_ensures(
            CliOptions::<L>::resolve_test_options,
            (options, flags, members@[i].1),
            outcomes[i],
        ));
    }
    assert forall|i: int| 0 <= i < outcomes.len() implies (#[trigger] model[i] is Ok
        <==> outcomes[i] is Ok) by {
        assert(crate::patterns::gives(outcomes[i], model[i]));
    }
    if r is Ok {
        let list = r->Ok_0;
        let values = crate::lists::collected(model)->Ok_0;
        assert forall|i: int| 0 <= i < outcomes.len() implies (#[trigger] outcomes[i]) is Ok
            && list@[i].1.deep_view() == outcomes[i]->Ok_0.deep_view() && list@[i].0 == members@[i].0 by {
            assert(model[i] == Ok::<FilePatternsView, Seq<char>>(values[i]));
            assert(crate::patterns::gives(outcomes[i], model[i]));
            assert(list@[i].0 == members@[i].0);
        }
    } else {
        let message = crate::lists::collected(model)->Err_0;
        let i = choose|i: int|
            0 <= i < model.len() && (#[trigger] model[i]) == Err::<FilePatternsView, Seq<char>>(message) && forall|
                k: int,
            |
                0 <= k < i ==> (#[trigger] model[k]) is Ok;
        assert(crate::patterns::gives(outcomes[i], model[i]));
        assert(outcomes[i] is Err);
        assert forall|k: int| 0 <= k < i implies (#[trigger] outcomes[k]) is Ok by {
            assert(model[k] is Ok);
        }
        assert(!(forall|k: int| 0 <= k < outcomes.len() ==> (#[trigger] outcomes[k]) is Ok));
    }
}

/// The options of `bench` for several members are those of each of them, each beside its member, in order.
/// It fails exactly where it fails for one of them, with the first error.
pub proof fn law_members_bench<L, C>(
    options: &CliOptions<L>,
    flags: &BenchFlags,
    members: Vec<(C, Result<BenchConfig, String>)>,
    outcomes: Seq<Result<BenchOptions, CliError>>,
    r: Result<Vec<(C, BenchOptions)>, CliError>,
)
    requires
        call_ensures(
            CliOptions::<L>::resolve_bench_options_for_members::<C>,
            (options, flags, members),
            r,
        ),
        outcomes.len() == members.len(),
        forall|i: int|
            0 <= i < outcomes.len() ==> call_ensures(
                CliOptions::<L>::resolve_bench_options,
                (options, flags, members@[i].1),
                #[trigger] outcomes[i],
            ),
    ensures
        r is Ok <==> forall|i: int| 0 <= i < outcomes.len() ==> (#[trigger] outcomes[i]) is Ok,
        r matches Ok(list) ==> list.len() == outcomes.len() && forall|i: int|
            0 <= i < outcomes.len() ==> (#[trigger] outcomes[i]) is Ok
                && list@[i].1.deep_view() == outcomes[i]->Ok_0.deep_view() && list@[i].0 == members@[i].0,
        r matches Err(error) ==> exists|i: int|
            0 <= i < outcomes.len() && (#[trigger] outcomes[i]) is Err && outcomes[i]->Err_0@
                == error@ && forall|k: int| 0 <= k < i ==> (#[trigger] outcomes[k]) is Ok,
{
    let model = crate::cli_options::members_bench(members@, *flags, options.cwd());
    law_collected(model);
    law_first_error(model);
    assert forall|i: int| 0 <= i < outcomes.len() implies crate::patterns::gives(
        #[trigger] outcomes[i],
        model[i],
    ) by {
        assert(call_ensures(
            CliOptions::<L>::resolve_bench_options,
            (options, flags, members@[i].1),
            outcomes[i],
        ));
    }
    assert forall|i: int| 0 <= i < outcomes.len() implies (#[trigger] model[i] is Ok
        <==> outcomes[i] is Ok) by {
        assert(crate::patterns::gives(outcomes[i], model[i]));
    }
    if r is Ok {
        let list = r->Ok_0;
        let values = crate::lists::collected(model)->Ok_0;
        assert forall|i: int| 0 <= i < outcomes.len() implies (#[trigger] outcomes[i]) is Ok
            && list@[i].1.deep_view() == outcomes[i]->Ok_0.deep_view() && list@[i].0 == members@[i].0 by {
            assert(model[i] == Ok::<FilePatternsView, Seq<char>>(values[i]));
            assert(crate::patterns::gives(outcomes[i], model[i]));
            assert(list@[i].0 == members@[i].0);
        }
    } else {
        let message = crate::lists::collected(model)->Err_0;
        let i = choose|i: int|
            0 <= i < model.len() && (#[trigger] model[i]) == Err::<FilePatternsView, Seq<char>>(message) && forall|
                k: int,
            |
                0 <= k < i ==> (#[trigger] model[k]) is Ok;
        assert(crate::patterns::gives(outcomes[i], model[i]));
        assert(outcomes[i] is Err);
        assert forall|k: int| 0 <= k < i implies (#[trigger] outcomes[k]) is Ok by {
            assert(model[k] is Ok);
        }
        assert(!(forall|k: int| 0 <= k < outcomes.len() ==> (#[trigger] outcomes[k]) is Ok));
    }
}

/// Overriding the import map changes nothing else.
pub proof fn law_overriding_import_map<L>(path: Option<ModuleSpecifier>)
    ensures
        forall|options: &mut CliOptions<L>| #[trigger]
            call_ensures(CliOptions::<L>::set_import_map_specifier, (options, path), ()) ==> {
                &&& final(options).import_map_override() == Some(path.deep_view())
                &&& final(options).flags() == options.flags()
                &&& final(options).cwd() == options.cwd()
                &&& final(options).configs() == options.configs()
                &&& final(options).inherited() == options.inherited()
                &&& final(options).node_modules() == options.node_modules()
                &&& final(options).vendor() == options.vendor()
                &&& final(options).lockfile() == options.lockfile()
                &&& final(options).npm_settings() == options.npm_settings()
                &&& final(options).hides_deprecations() == options.hides_deprecations()
                &&& final(options).details_deprecations() == options.details_deprecations()
            },
{
}

/// What is shown of the options is what they are made of.
pub proof fn law_shown_options<L>(
    options: &CliOptions<L>,
    cwd: &str,
    workspace: &Workspace,
    lockfile: Option<Arc<L>>,
    npmrc: &Arc<ResolvedNpmRc>,
    vendor: &Option<String>,
    hides: bool,
    details: bool,
    command: &DenoSubcommand,
)
    requires
        call_ensures(CliOptions::<L>::initial_cwd, (options,), cwd),
        call_ensures(CliOptions::<L>::workspace, (options,), workspace),
        call_ensures(CliOptions::<L>::maybe_lockfile, (options,), lockfile),
        call_ensures(CliOptions::<L>::npmrc, (options,), npmrc),
        call_ensures(CliOptions::<L>::vendor_dir_path, (options,), vendor),
        call_ensures(CliOptions::<L>::disable_deprecated_api_warning, (options,), hides),
        call_ensures(CliOptions::<L>::verbose_deprecated_api_warning, (options,), details),
        call_ensures(CliOptions::<L>::sub_command, (options,), command),
    ensures
        cwd@ == options.cwd() && *workspace == options.configs(),
        lockfile == options.lockfile() && **npmrc == options.npm_settings(),
        vendor.deep_view() == options.vendor(),
        hides == options.hides_deprecations() && details == options.details_deprecations(),
        *command == options.flags().subcommand,
{
}

/// JavaScript is checked exactly where the root's configuration file can be parsed and
/// asks for it.
pub proof fn law_checked_javascript<L>(options: &CliOptions<L>, r: bool)
    requires
        call_ensures(CliOptions::<L>::check_js, (options,), r),
    ensures
        options.configs().root().configs.deno_json is None ==> !r,
        options.configs().root().configs.deno_json matches Some(file) ==> (r <==> config_file_error(
            file.text@,
            file.specifier@,
        ) is None && config_file_checks_js(file.text@, file.specifier@)),
{
}

/// Types are checked as much as the flags say.
pub proof fn law_type_checks<L>(options: &CliOptions<L>, r: TypeCheckMode)
    requires
        call_ensures(CliOptions::<L>::type_check_mode, (options,), r),
    ensures
        r == options.flags().type_check_mode,
{
}

} // verus!
