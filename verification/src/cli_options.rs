//! The resolved options of a command: flags, configuration files and
//! environment taken together.

use std::sync::Arc;

use deno_npm::npm_rc::ResolvedNpmRc;
use deno_npm::resolution::ValidSerializedNpmResolutionSnapshot;
use vstd::prelude::*;

use crate::cache_setting::CacheSetting;
use crate::config::{ConfigFolder, DenoJson, FolderConfigs, Workspace};
use crate::config_file::types_of;
use crate::emit::{
    config_source, emit_options_of, options_for_emit, resolve_ts_config_for_emit,
    transpile_options, ts_config_to_transpile_and_emit_options, EmitConfigView, TsConfigForEmit,
    TsConfigType, TsTypeLib, EXPERIMENTAL_DECORATORS,
};
use crate::error::CliError;
use crate::flags::{
    has_flag_env_var, BenchFlags, CaData, ConfigFlag, DenoSubcommand, Flags, FmtFlags, GraphKind,
    LintFlags, LogLevel, PermissionFlags, TestFlags, TypeCheckMode,
};
use crate::folders::{
    node_modules_choice, resolve_node_modules_folder, resolve_vendor_folder, vendor_folder,
    FolderChoice, FolderChoiceView,
};
use crate::import_maps::{
    bad_import_map_message, import_map_specifier, requested_import_map,
    resolve_import_map_specifier, ImportMapRequest, ImportMapRequestView,
};
use crate::lists::{
    add_all_missing, collected, law_with_all_missing, lemma_first_error_stays, with_all_missing,
};
use crate::npmrc::{npmrc_candidates, NpmrcSearch};
use crate::options::{
    chosen_reporter, is_valid_fmt_flags, overridden, resolved_fmt, resolved_lint, BenchConfig,
    BenchOptions, FmtConfig, FmtOptions, FmtOptionsView, LintConfig, LintOptions, LintOptionsView,
    TestConfig, TestOptions, WorkspaceBenchOptions, WorkspaceLintConfig, WorkspaceLintOptions,
    WorkspaceTestOptions,
};
use crate::packages::{
    binary_command, described_members, is_readable_reference, npm_pkg_req_ref_to_binary_command,
    npm_reference, workspace_members, NpmPackageReqReference, WorkspaceMember,
};
use crate::path::{join, path_join};
use crate::patterns::{gives, resolved_files, FilePatternsView};
use crate::process_state::{valid_snapshot_packages, ProcessState};
use crate::specifier::{
    directory_url, scheme_of, url_file_path, url_joined, url_parsed, ModuleSpecifier,
};
use crate::text::{concat2, concat3, join_texts, joined, parse_i64, same_text, written_integer};
use crate::workspace_resolver::PackageJsonDepResolution;

verus! {

/// What the environment says beside flags and configuration files.
#[derive(Debug)]
pub struct Environment {
    pub process: ProcessState,
    /// Whether `DENO_NO_DEPRECATION_WARNINGS` is set.
    pub no_deprecation_warnings: bool,
    /// Whether `DENO_VERBOSE_WARNINGS` is set.
    pub verbose_warnings: bool,
}

/// The resolved options of a command. `L` is the form in which the lockfile is
/// shared.
#[derive(Debug)]
pub struct CliOptions<L> {
    flags: Arc<Flags>,
    initial_cwd: String,
    maybe_node_modules_folder: Option<String>,
    maybe_vendor_folder: Option<String>,
    npmrc: Arc<ResolvedNpmRc>,
    maybe_lockfile: Option<Arc<L>>,
    import_map_override: Option<Option<ModuleSpecifier>>,
    workspace: Arc<Workspace>,
    process: Arc<ProcessState>,
    disable_deprecated_api_warning: bool,
    verbose_deprecated_api_warning: bool,
}

/// The warning that certificates are not checked, for all hosts or for those
/// that are listed.
pub open spec fn insecure_warning(allowlist: Option<Seq<Seq<char>>>) -> Option<Seq<char>> {
    match allowlist {
        Some(hosts) => Some(
            "DANGER: TLS certificate validation is disabled "@ + (if hosts.len() == 0 {
                "for all hostnames"@
            } else {
                "for: "@ + joined(hosts, ", "@)
            }),
        ),
        None => None,
    }
}

/// The warning that certificates are not checked, where the flags say so.
pub fn insecure_certificates_warning(flags: &Flags) -> (r: Option<String>)
    ensures
        r.deep_view() == insecure_warning(flags.unsafely_ignore_certificate_errors.deep_view()),
{
    match &flags.unsafely_ignore_certificate_errors {
        Some(insecure_allowlist) => {
            let domains: String = if insecure_allowlist.len() == 0 {
                "for all hostnames".to_owned()
            } else {
                let hosts: String = join_texts(insecure_allowlist, ", ");
                concat2("for: ", hosts.as_str())
            };
            Some(concat2("DANGER: TLS certificate validation is disabled ", domains.as_str()))
        },
        None => None,
    }
}

/// Why an environment file could not be loaded.
#[derive(Debug)]
pub enum EnvFileError {
    /// A value in the file is malformed: the value, and where.
    LineParse(String, String),
    /// The file cannot be read.
    Io,
    /// A variable in the file is missing or not Unicode.
    EnvVar,
    /// Something else.
    Unknown,
}

/// The message on an environment file that could not be loaded.
pub open spec fn env_file_message(name: Seq<char>, error: EnvFileError) -> Seq<char> {
    match error {
        EnvFileError::LineParse(line, index) =>
            "Parsing failed within the specified environment file: "@ + name + " at index: "@
            + index@ + " of the value: "@ + line@,
        EnvFileError::Io =>
            "The `--env` flag was used, but the environment file specified '"@ + name
            + "' was not found."@,
        EnvFileError::EnvVar =>
            "One or more of the environment variables isn't present or not unicode within the specified environment file: "@
            + name,
        EnvFileError::Unknown =>
            "Unknown failure occurred with the specified environment file: "@ + name,
    }
}

/// The message on an environment file that could not be loaded.
pub fn env_file_warning(name: &str, error: &EnvFileError) -> (r: String)
    ensures
        r@ == env_file_message(name@, *error),
{
    match error {
        EnvFileError::LineParse(line, index) => {
            let start: String = concat3(
                "Parsing failed within the specified environment file: ",
                name,
                " at index: ",
            );
            let middle: String = concat3(start.as_str(), index.as_str(), " of the value: ");
            concat2(middle.as_str(), line.as_str())
        },
        EnvFileError::Io => concat3(
            "The `--env` flag was used, but the environment file specified '",
            name,
            "' was not found.",
        ),
        EnvFileError::EnvVar => concat2(
            "One or more of the environment variables isn't present or not unicode within the specified environment file: ",
            name,
        ),
        EnvFileError::Unknown => concat2(
            "Unknown failure occurred with the specified environment file: ",
            name,
        ),
    }
}

/// Where a workspace is looked for.
#[derive(Debug)]
pub enum WorkspaceStart {
    /// Nowhere: there are no configuration files.
    Empty,
    /// In these directories and those above them.
    Dirs(Vec<String>),
    /// At this configuration file, once its path is normalized.
    ConfigFile(String),
}

/// How a workspace is looked for.
#[derive(Debug)]
pub struct WorkspaceDiscovery {
    pub start: WorkspaceStart,
    /// Whether comments on tasks are kept.
    pub include_task_comments: bool,
    /// Whether configuration files may also have the names that JSR uses.
    pub allow_jsr_names: bool,
    /// Whether `package.json` files are taken in.
    pub discover_pkg_json: bool,
}

/// The names of configuration files that JSR uses.
pub fn jsr_config_file_names() -> (r: Vec<String>)
    ensures
        r.deep_view() == seq!["jsr.json"@, "jsr.jsonc"@],
{
    let mut names: Vec<String> = Vec::new();
    names.push("jsr.json".to_owned());
    names.push("jsr.jsonc".to_owned());
    assert(names.deep_view() == seq!["jsr.json"@, "jsr.jsonc"@]);
    names
}

/// How the workspace of a command is looked for. `config_path_args` are the
/// directories that the command's own arguments lead to, and
/// `no_package_json` is the value of `DENO_NO_PACKAGE_JSON`.
pub fn workspace_discovery(
    flags: &Flags,
    initial_cwd: &str,
    config_path_args: Option<Vec<String>>,
    no_package_json: Option<&str>,
) -> (r: WorkspaceDiscovery)
    ensures
        match flags.config_flag {
            ConfigFlag::Discover => match config_path_args {
                Some(dirs) => r.start == WorkspaceStart::Dirs(dirs),
                None => r.start is Empty,
            },
            ConfigFlag::Path(path) => r.start is ConfigFile && r.start->ConfigFile_0@ == path_join(
                initial_cwd@,
                path@,
            ),
            ConfigFlag::Disabled => r.start is Empty,
        },
        r.include_task_comments == (flags.subcommand is Task),
        r.allow_jsr_names == (flags.subcommand is Publish),
        r.discover_pkg_json == (!(flags.config_flag is Disabled) && !flags.no_npm
            && no_package_json.deep_view() != Some("1"@)),
{
    let start: WorkspaceStart = match &flags.config_flag {
        ConfigFlag::Discover => match config_path_args {
            Some(dirs) => WorkspaceStart::Dirs(dirs),
            None => WorkspaceStart::Empty,
        },
        ConfigFlag::Path(path) => WorkspaceStart::ConfigFile(join(initial_cwd, path.as_str())),
        ConfigFlag::Disabled => WorkspaceStart::Empty,
    };
    let include_task_comments: bool = match &flags.subcommand {
        DenoSubcommand::Task => true,
        _ => false,
    };
    let allow_jsr_names: bool = match &flags.subcommand {
        DenoSubcommand::Publish => true,
        _ => false,
    };
    let is_disabled: bool = match &flags.config_flag {
        ConfigFlag::Disabled => true,
        _ => false,
    };
    let discover_pkg_json: bool = !is_disabled && !flags.no_npm && !has_flag_env_var(
        no_package_json,
    );
    WorkspaceDiscovery { start, include_task_comments, allow_jsr_names, discover_pkg_json }
}

/// The workspace without configuration files in a directory; nothing where the
/// directory has no URL.
pub fn empty_workspace(initial_cwd: &str) -> (r: Option<Workspace>)
    ensures
        match directory_url(initial_cwd@) {
            Some(url) => {
                &&& r is Some
                &&& r->0.folders().len() == 1
                &&& r->0.root_index() == 0
                &&& r->0.root().url@ == url
                &&& r->0.root().configs.deno_json is None
                &&& r->0.root().configs.pkg_json is None
                &&& r->0.start() is None
            },
            None => r is None,
        },
{
    match ModuleSpecifier::from_directory_path(initial_cwd) {
        Some(url) => Some(Workspace::empty(url)),
        None => None,
    }
}

/// The path of a configuration file that is a local file.
pub open spec fn local_path(deno_json: Option<DenoJson>) -> Option<Seq<char>> {
    match deno_json {
        Some(deno_json) => if scheme_of(deno_json.specifier@) == "file"@ {
            url_file_path(deno_json.specifier@)
        } else {
            None
        },
        None => None,
    }
}

/// The search for the `.npmrc` file of a workspace.
pub fn workspace_npmrc_search(workspace: &Workspace) -> (r: NpmrcSearch)
    ensures
        r.pending() == npmrc_candidates(
            (match workspace.root().configs.pkg_json {
                Some(pkg_json) => Some(pkg_json.path@),
                None => None,
            }),
            local_path(workspace.root().configs.deno_json),
        ),
{
    let root: &FolderConfigs = workspace.root_folder_configs();
    let deno_json_path: Option<String> = match &root.deno_json {
        Some(deno_json) => if deno_json.specifier.has_scheme("file") {
            deno_json.specifier.to_file_path()
        } else {
            None
        },
        None => None,
    };
    let deno_json_path: Option<&str> = match &deno_json_path {
        Some(path) => Some(path.as_str()),
        None => None,
    };
    let pkg_json_path: Option<&str> = match &root.pkg_json {
        Some(pkg_json) => Some(pkg_json.path.as_str()),
        None => None,
    };
    NpmrcSearch::new(pkg_json_path, deno_json_path)
}

/// The local `node_modules` folder of a command.
pub open spec fn chosen_node_modules(
    flags: Flags,
    cwd: Seq<char>,
    workspace: Workspace,
    process: ProcessState,
) -> FolderChoiceView {
    let root = workspace.root().configs;
    node_modules_choice(
        cwd,
        flags,
        root.deno_json,
        root.pkg_json,
        process.npm,
    )
}

/// The local `node_modules` folder of a command. Where it is to be made
/// canonical, the outcome goes into `CliOptions::new`.
pub fn node_modules_folder(
    flags: &Flags,
    initial_cwd: &str,
    workspace: &Workspace,
    process: &ProcessState,
) -> (r: FolderChoice)
    ensures
        r.deep_view() == chosen_node_modules(*flags, initial_cwd@, *workspace, *process),
{
    let root: &FolderConfigs = workspace.root_folder_configs();
    resolve_node_modules_folder(
        initial_cwd,
        flags,
        &root.deno_json,
        &root.pkg_json,
        &process.npm,
    )
}

/// The main module that was asked for.
#[derive(Debug)]
pub enum MainModuleRequest {
    /// A URL, or a path seen from the directory that the command was started in.
    FromInitialCwd(String),
    /// A path seen from the current directory.
    FromCurrentDir(String),
    /// An npm package.
    Npm(ModuleSpecifier),
}

/// The main module that was asked for.
pub ghost enum MainModuleView {
    FromInitialCwd(Seq<char>),
    FromCurrentDir(Seq<char>),
    Npm(Seq<char>),
}

impl DeepView for MainModuleRequest {
    type V = MainModuleView;

    open spec fn deep_view(&self) -> MainModuleView {
        match *self {
            MainModuleRequest::FromInitialCwd(text) => MainModuleView::FromInitialCwd(text@),
            MainModuleRequest::FromCurrentDir(text) => MainModuleView::FromCurrentDir(text@),
            MainModuleRequest::Npm(specifier) => MainModuleView::Npm(specifier@),
        }
    }
}

/// The main module of a subcommand. A script is taken as an npm package if it
/// reads as one and is not watched; some subcommands have no main module.
pub open spec fn main_module_of(subcommand: DenoSubcommand) -> Result<MainModuleView, Seq<char>> {
    match subcommand {
        DenoSubcommand::Bundle(flags) => Ok(MainModuleView::FromInitialCwd(flags.source_file@)),
        DenoSubcommand::Compile(flags) => Ok(MainModuleView::FromInitialCwd(flags.source_file@)),
        DenoSubcommand::Eval => Ok(MainModuleView::FromInitialCwd("./$deno$eval"@)),
        DenoSubcommand::Repl => Ok(MainModuleView::FromInitialCwd("./$deno$repl.ts"@)),
        DenoSubcommand::Run(flags) => if flags.script@ == "-"@ {
            Ok(MainModuleView::FromCurrentDir("./$deno$stdin.ts"@))
        } else if flags.watch is Some || npm_reference(flags.script@) is None {
            Ok(MainModuleView::FromInitialCwd(flags.script@))
        } else {
            match url_parsed(flags.script@) {
                Ok(href) => Ok(MainModuleView::Npm(href)),
                Err(message) => Err(message),
            }
        },
        DenoSubcommand::Serve(flags) => Ok(MainModuleView::FromInitialCwd(flags.script@)),
        _ => Err("No main module."@),
    }
}

/// Whether the script of a subcommand, if it runs one, can be read as an npm
/// specifier, if it is one.
pub open spec fn has_readable_script(subcommand: DenoSubcommand) -> bool {
    subcommand matches DenoSubcommand::Run(flags) ==> is_readable_reference(flags.script@)
}

/// The content type that a file extension stands for.
pub open spec fn content_type_of(ext: Seq<char>) -> Option<Seq<char>> {
    if ext == "ts"@ {
        Some("text/typescript"@)
    } else if ext == "tsx"@ {
        Some("text/tsx"@)
    } else if ext == "js"@ {
        Some("text/javascript"@)
    } else if ext == "jsx"@ {
        Some("text/jsx"@)
    } else {
        None
    }
}

/// The headers to use for the main module in place of its own.
pub open spec fn header_overrides(main_module: Option<Seq<char>>, ext: Option<Seq<char>>) -> Seq<
    (Seq<char>, Seq<(Seq<char>, Seq<char>)>),
> {
    let content_type = match ext {
        Some(ext) => content_type_of(ext),
        None => None,
    };
    match (main_module, content_type) {
        (Some(main_module), Some(content_type)) => seq![
            (main_module, seq![("content-type"@, content_type)]),
        ],
        _ => Seq::empty(),
    }
}

/// The operating system and the processor that npm packages are chosen for, by
/// the names that Node.js uses.
#[derive(Debug)]
pub struct NpmSystemInfo {
    pub os: String,
    pub cpu: String,
}

impl DeepView for NpmSystemInfo {
    type V = (Seq<char>, Seq<char>);

    open spec fn deep_view(&self) -> (Seq<char>, Seq<char>) {
        (self.os@, self.cpu@)
    }
}

/// The operating system and the processor of a compilation target.
pub open spec fn target_system(target: Seq<char>) -> Option<(Seq<char>, Seq<char>)> {
    if target == "aarch64-apple-darwin"@ {
        Some(("darwin"@, "arm64"@))
    } else if target == "aarch64-unknown-linux-gnu"@ {
        Some(("linux"@, "arm64"@))
    } else if target == "x86_64-apple-darwin"@ {
        Some(("darwin"@, "x64"@))
    } else if target == "x86_64-unknown-linux-gnu"@ {
        Some(("linux"@, "x64"@))
    } else if target == "x86_64-pc-windows-msvc"@ {
        Some(("win32"@, "x64"@))
    } else {
        None
    }
}

/// The target that a subcommand compiles for.
pub open spec fn compile_target(subcommand: DenoSubcommand) -> Option<Seq<char>> {
    match subcommand {
        DenoSubcommand::Compile(flags) => flags.target.deep_view(),
        _ => None,
    }
}

/// `deno_npm::NpmSystemInfo::default`: the system that the program runs on.
#[verifier::external_body]
fn current_system() -> (r: NpmSystemInfo) {
    let info = deno_npm::NpmSystemInfo::default();
    NpmSystemInfo { os: info.os, cpu: info.cpu }
}

fn system_info(os: &str, cpu: &str) -> (r: NpmSystemInfo)
    ensures
        r.deep_view() == (os@, cpu@),
{
    NpmSystemInfo { os: os.to_owned(), cpu: cpu.to_owned() }
}

/// The system that npm packages are chosen for: that of the target, if there is
/// one and it is known, else the current one.
pub fn npm_system_info_for_target(target: Option<&str>, current: NpmSystemInfo) -> (r:
    NpmSystemInfo)
    ensures
        match target {
            Some(target) => match target_system(target@) {
                Some(system) => r.deep_view() == system,
                None => r == current,
            },
            None => r == current,
        },
{
    let target: &str = match target {
        Some(target) => target,
        None => {
            return current;
        },
    };
    if same_text(target, "aarch64-apple-darwin") {
        system_info("darwin", "arm64")
    } else if same_text(target, "aarch64-unknown-linux-gnu") {
        system_info("linux", "arm64")
    } else if same_text(target, "x86_64-apple-darwin") {
        system_info("darwin", "x64")
    } else if same_text(target, "x86_64-unknown-linux-gnu") {
        system_info("linux", "x64")
    } else if same_text(target, "x86_64-pc-windows-msvc") {
        system_info("win32", "x64")
    } else {
        current
    }
}

/// The warning on a compilation target that no system is known for.
pub open spec fn unknown_target_warning(target: Seq<char>) -> Seq<char> {
    "Not implemented npm system info for target '"@ + target
        + "'. Using current system default. This may impact architecture specific dependencies."@
}

/// The import map that a workspace resolver is made with.
#[derive(Debug)]
pub enum SpecifiedImportMap {
    /// None beside those of the workspace.
    Unspecified,
    /// An empty one, seen from this URL.
    Empty(ModuleSpecifier),
    /// The one that is loaded from this URL.
    Load(ModuleSpecifier),
}

/// The import map that a workspace resolver is made with.
pub ghost enum SpecifiedImportMapView {
    Unspecified,
    Empty(Seq<char>),
    Load(Seq<char>),
}

impl DeepView for SpecifiedImportMap {
    type V = SpecifiedImportMapView;

    open spec fn deep_view(&self) -> SpecifiedImportMapView {
        match *self {
            SpecifiedImportMap::Unspecified => SpecifiedImportMapView::Unspecified,
            SpecifiedImportMap::Empty(url) => SpecifiedImportMapView::Empty(url@),
            SpecifiedImportMap::Load(url) => SpecifiedImportMapView::Load(url@),
        }
    }
}

/// How a workspace resolver is made.
#[derive(Debug)]
pub struct WorkspaceResolverPlan {
    pub pkg_json_dep_resolution: PackageJsonDepResolution,
    pub import_map: SpecifiedImportMap,
}

/// The paths of the configuration files of `folders`, in order.
pub open spec fn config_paths(folders: Seq<ConfigFolder>) -> Seq<Seq<char>>
    decreases folders.len(),
{
    if folders.len() == 0 {
        Seq::empty()
    } else {
        let configs = folders.last().configs;
        let before = config_paths(folders.drop_last());
        let with_deno_json = match local_path(configs.deno_json) {
            Some(path) => before.push(path),
            None => before,
        };
        match configs.pkg_json {
            Some(pkg_json) => with_deno_json.push(pkg_json.path@),
            None => with_deno_json,
        }
    }
}

/// `paths` seen from `base`.
pub open spec fn seen_from(base: Seq<char>, paths: Seq<Seq<char>>) -> Seq<Seq<char>> {
    Seq::new(paths.len(), |i: int| path_join(base, paths[i]))
}

/// The paths that a subcommand watches on its own account.
pub open spec fn watched_by_flags(subcommand: DenoSubcommand) -> Seq<Seq<char>> {
    match subcommand {
        DenoSubcommand::Run(flags) => match flags.watch {
            Some(watch) => watch.paths.deep_view(),
            None => Seq::empty(),
        },
        _ => Seq::empty(),
    }
}

/// Whether one of `folders` has a `package.json`.
pub open spec fn has_package_json(folders: Seq<ConfigFolder>) -> bool {
    exists|i: int| 0 <= i < folders.len() && (#[trigger] folders[i]).configs.pkg_json is Some
}

/// The local `node_modules` folder, given what making its path canonical led to.
pub open spec fn settled_folder(
    choice: FolderChoiceView,
    canonical: Result<Seq<char>, Seq<char>>,
) -> Result<Option<Seq<char>>, Seq<char>> {
    match choice {
        FolderChoiceView::Off => Ok(None),
        FolderChoiceView::At(path) => Ok(Some(path)),
        FolderChoiceView::Canonical(_) => match canonical {
            Ok(path) => Ok(Some(path)),
            Err(message) => Err(message),
        },
    }
}

/// What resolving something to text led to.
pub open spec fn path_outcome(r: Result<String, String>) -> Result<Seq<char>, Seq<char>> {
    match r {
        Ok(path) => Ok(path@),
        Err(message) => Err(message@),
    }
}

/// What the configuration of a member leads to.
pub open spec fn member_fmt(
    config: Result<FmtConfig, String>,
    flags: FmtFlags,
    cwd: Seq<char>,
) -> Result<FmtOptionsView, Seq<char>> {
    match config {
        Ok(config) => resolved_fmt(config.deep_view(), flags, Some(cwd)),
        Err(message) => Err(message@),
    }
}

/// What the configuration of a member leads to.
pub open spec fn member_lint(
    config: Result<LintConfig, String>,
    flags: LintFlags,
    cwd: Seq<char>,
) -> Result<LintOptionsView, Seq<char>> {
    match config {
        Ok(config) => resolved_lint(config, flags, Some(cwd)),
        Err(message) => Err(message@),
    }
}

/// What the configuration of a member leads to.
pub open spec fn member_test(
    config: Result<TestConfig, String>,
    flags: TestFlags,
    cwd: Seq<char>,
) -> Result<FilePatternsView, Seq<char>> {
    match config {
        Ok(config) => resolved_files(
            config.files.deep_view(),
            flags.files.includes.deep_view(),
            flags.files.ignores.deep_view(),
            Some(cwd),
        ),
        Err(message) => Err(message@),
    }
}

/// What the configuration of a member leads to.
pub open spec fn member_bench(
    config: Result<BenchConfig, String>,
    flags: BenchFlags,
    cwd: Seq<char>,
) -> Result<FilePatternsView, Seq<char>> {
    match config {
        Ok(config) => resolved_files(
            config.files.deep_view(),
            flags.files.includes.deep_view(),
            flags.files.ignores.deep_view(),
            Some(cwd),
        ),
        Err(message) => Err(message@),
    }
}

/// What the configurations of all members lead to, in order.
pub open spec fn members_fmt(
    configs: Seq<Result<FmtConfig, String>>,
    flags: FmtFlags,
    cwd: Seq<char>,
) -> Seq<Result<FmtOptionsView, Seq<char>>> {
    Seq::new(configs.len(), |i: int| member_fmt(configs[i], flags, cwd))
}

/// What the configurations of all members lead to, in order.
pub open spec fn members_lint<C>(
    members: Seq<(C, Result<LintConfig, String>)>,
    flags: LintFlags,
    cwd: Seq<char>,
) -> Seq<Result<LintOptionsView, Seq<char>>> {
    Seq::new(members.len(), |i: int| member_lint(members[i].1, flags, cwd))
}

/// What the configurations of all members lead to, in order.
pub open spec fn members_test<C>(
    members: Seq<(C, Result<TestConfig, String>)>,
    flags: TestFlags,
    cwd: Seq<char>,
) -> Seq<Result<FilePatternsView, Seq<char>>> {
    Seq::new(members.len(), |i: int| member_test(members[i].1, flags, cwd))
}

/// What the configurations of all members lead to, in order.
pub open spec fn members_bench<C>(
    members: Seq<(C, Result<BenchConfig, String>)>,
    flags: BenchFlags,
    cwd: Seq<char>,
) -> Seq<Result<FilePatternsView, Seq<char>>> {
    Seq::new(members.len(), |i: int| member_bench(members[i].1, flags, cwd))
}

/// Whether every member has been given its options: those of the model, in
/// order, each beside the member that it belongs to.
pub open spec fn gives_beside<C, K, T: DeepView>(
    r: Result<Vec<(C, T)>, CliError>,
    members: Seq<(C, K)>,
    model: Result<Seq<T::V>, Seq<char>>,
) -> bool {
    match model {
        Ok(values) => {
            &&& r is Ok
            &&& r->Ok_0.len() == members.len()
            &&& values.len() == members.len()
            &&& forall|i: int|
                0 <= i < members.len() ==> (#[trigger] r->Ok_0@[i]).0 == members[i].0
                    && r->Ok_0@[i].1.deep_view() == values[i]
        },
        Err(message) => r is Err && r->Err_0@ == (message, None::<Seq<char>>),
    }
}

impl<L> CliOptions<L> {
    /// The flags.
    pub closed spec fn flags(&self) -> Flags {
        *self.flags
    }

    /// The directory that the command was started in.
    pub closed spec fn cwd(&self) -> Seq<char> {
        self.initial_cwd@
    }

    /// The local `node_modules` folder.
    pub closed spec fn node_modules(&self) -> Option<Seq<char>> {
        self.maybe_node_modules_folder.deep_view()
    }

    /// The vendor folder.
    pub closed spec fn vendor(&self) -> Option<Seq<char>> {
        self.maybe_vendor_folder.deep_view()
    }

    /// The settings of npm.
    pub closed spec fn npm_settings(&self) -> ResolvedNpmRc {
        *self.npmrc
    }

    /// The lockfile.
    pub closed spec fn lockfile(&self) -> Option<Arc<L>> {
        self.maybe_lockfile
    }

    /// The import map that takes the place of the one that was asked for.
    pub closed spec fn import_map_override(&self) -> Option<Option<Seq<char>>> {
        self.import_map_override.deep_view()
    }

    /// The workspace.
    pub closed spec fn configs(&self) -> Workspace {
        *self.workspace
    }

    /// What the process inherited.
    pub closed spec fn inherited(&self) -> ProcessState {
        *self.process
    }

    /// Whether there are no warnings about deprecated interfaces.
    pub closed spec fn hides_deprecations(&self) -> bool {
        self.disable_deprecated_api_warning
    }

    /// Whether warnings about deprecated interfaces are verbose.
    pub closed spec fn details_deprecations(&self) -> bool {
        self.verbose_deprecated_api_warning
    }

    /// Whether this is made of the given parts.
    pub open spec fn is_made_of(
        &self,
        flags: Flags,
        cwd: Seq<char>,
        lockfile: Option<Arc<L>>,
        npmrc: ResolvedNpmRc,
        workspace: Workspace,
        force_global_cache: bool,
        environment: Environment,
        node_modules: Option<Seq<char>>,
    ) -> bool {
        &&& self.flags() == flags
        &&& self.cwd() == cwd
        &&& self.npm_settings() == npmrc
        &&& self.configs() == workspace
        &&& self.inherited() == environment.process
        &&& self.import_map_override() is None
        &&& self.node_modules() == node_modules
        &&& self.lockfile() == (if force_global_cache {
            None
        } else {
            lockfile
        })
        &&& self.vendor() == (if force_global_cache {
            None
        } else {
            vendor_folder(cwd, flags, workspace.root().configs.deno_json)
        })
        &&& self.hides_deprecations() == (flags.log_level == Some(LogLevel::Error)
            || environment.no_deprecation_warnings)
        &&& self.details_deprecations() == environment.verbose_warnings
    }

    /// Puts the options together. With the global cache forced, neither the
    /// lockfile nor a vendor folder is used. `canonical` is what making the path
    /// canonical led to, where `node_modules_folder` asks for it.
    pub fn new(
        flags: Flags,
        initial_cwd: String,
        maybe_lockfile: Option<Arc<L>>,
        npmrc: Arc<ResolvedNpmRc>,
        workspace: Arc<Workspace>,
        force_global_cache: bool,
        environment: Environment,
        canonical: Result<String, String>,
    ) -> (r: Result<CliOptions<L>, CliError>)
        ensures
            match settled_folder(
                chosen_node_modules(flags, initial_cwd@, *workspace, environment.process),
                path_outcome(canonical),
            ) {
                Ok(node_modules) => r is Ok && r->Ok_0.is_made_of(
                    flags,
                    initial_cwd@,
                    maybe_lockfile,
                    *npmrc,
                    *workspace,
                    force_global_cache,
                    environment,
                    node_modules,
                ),
                Err(message) => r is Err && r->Err_0@ == (
                    "Resolving node_modules folder."@,
                    Some(message),
                ),
            },
    {
        let maybe_lockfile: Option<Arc<L>> = if force_global_cache {
            None
        } else {
            maybe_lockfile
        };
        let choice: FolderChoice = node_modules_folder(
            &flags,
            initial_cwd.as_str(),
            &workspace,
            &environment.process,
        );
        let maybe_node_modules_folder: Option<String> = match choice {
            FolderChoice::Off => None,
            FolderChoice::At(path) => Some(path),
            FolderChoice::Canonical(_) => match canonical {
                Ok(path) => Some(path),
                Err(message) => {
                    return Err(
                        CliError::with_cause("Resolving node_modules folder.", message.as_str()),
                    );
                },
            },
        };
        let maybe_vendor_folder: Option<String> = if force_global_cache {
            None
        } else {
            resolve_vendor_folder(
                initial_cwd.as_str(),
                &flags,
                &workspace.root_folder_configs().deno_json,
            )
        };
        let is_quiet: bool = match flags.log_level {
            Some(LogLevel::Error) => true,
            _ => false,
        };
        Ok(CliOptions {
            flags: Arc::new(flags),
            initial_cwd,
            maybe_lockfile,
            npmrc,
            maybe_node_modules_folder,
            maybe_vendor_folder,
            import_map_override: None,
            workspace,
            process: Arc::new(environment.process),
            disable_deprecated_api_warning: is_quiet || environment.no_deprecation_warnings,
            verbose_deprecated_api_warning: environment.verbose_warnings,
        })
    }

    /// Puts the options of a command together from its flags and what
    /// discovery found. The global cache is not forced.
    pub fn from_flags(
        flags: Flags,
        initial_cwd: String,
        workspace: Workspace,
        npmrc: Arc<ResolvedNpmRc>,
        maybe_lock_file: Option<L>,
        environment: Environment,
        canonical: Result<String, String>,
    ) -> (r: Result<CliOptions<L>, CliError>)
        ensures
            match settled_folder(
                chosen_node_modules(flags, initial_cwd@, workspace, environment.process),
                path_outcome(canonical),
            ) {
                Ok(node_modules) => r is Ok && r->Ok_0.is_made_of(
                    flags,
                    initial_cwd@,
                    (match maybe_lock_file {
                        Some(lockfile) => Some(Arc::new(lockfile)),
                        None => None,
                    }),
                    *npmrc,
                    workspace,
                    false,
                    environment,
                    node_modules,
                ),
                Err(message) => r is Err && r->Err_0@ == (
                    "Resolving node_modules folder."@,
                    Some(message),
                ),
            },
    {
        let maybe_lockfile: Option<Arc<L>> = match maybe_lock_file {
            Some(lockfile) => Some(Arc::new(lockfile)),
            None => None,
        };
        CliOptions::new(
            flags,
            initial_cwd,
            maybe_lockfile,
            npmrc,
            Arc::new(workspace),
            false,
            environment,
            canonical,
        )
    }

    /// The directory that the command was started in.
    pub fn initial_cwd(&self) -> (r: &str)
        ensures
            r@ == self.cwd(),
    {
        self.initial_cwd.as_str()
    }

    /// The workspace.
    pub fn workspace(&self) -> (r: &Workspace)
        ensures
            *r == self.configs(),
    {
        &self.workspace
    }

    /// Whether there are no warnings about deprecated interfaces.
    pub fn disable_deprecated_api_warning(&self) -> (r: bool)
        ensures
            r == self.hides_deprecations(),
    {
        self.disable_deprecated_api_warning
    }

    /// Whether warnings about deprecated interfaces are verbose.
    pub fn verbose_deprecated_api_warning(&self) -> (r: bool)
        ensures
            r == self.details_deprecations(),
    {
        self.verbose_deprecated_api_warning
    }

    /// The subcommand.
    pub fn sub_command(&self) -> (r: &DenoSubcommand)
        ensures
            *r == self.flags().subcommand,
    {
        &self.flags.subcommand
    }

    /// How much type checking takes place.
    pub fn type_check_mode(&self) -> (r: TypeCheckMode)
        ensures
            r == self.flags().type_check_mode,
    {
        self.flags.type_check_mode
    }

    /// Which modules the module graph holds.
    pub fn graph_kind(&self) -> (r: GraphKind)
        ensures
            r == (match self.flags().subcommand {
                DenoSubcommand::Cache => GraphKind::All,
                DenoSubcommand::Check => GraphKind::TypesOnly,
                _ => if self.flags().type_check_mode == TypeCheckMode::NoCheck {
                    GraphKind::CodeOnly
                } else {
                    GraphKind::All
                },
            }),
    {
        match self.sub_command() {
            DenoSubcommand::Cache => GraphKind::All,
            DenoSubcommand::Check => GraphKind::TypesOnly,
            _ => self.type_check_mode().as_graph_kind(),
        }
    }

    /// The type library for windows.
    pub fn ts_type_lib_window(&self) -> (r: TsTypeLib)
        ensures
            r == TsTypeLib::DenoWindow,
    {
        TsTypeLib::DenoWindow
    }

    /// The type library for workers.
    pub fn ts_type_lib_worker(&self) -> (r: TsTypeLib)
        ensures
            r == TsTypeLib::DenoWorker,
    {
        TsTypeLib::DenoWorker
    }

    /// How cached source files are handled.
    pub fn cache_setting(&self) -> (r: CacheSetting)
        ensures
            ({
                let flags = self.flags();
                if flags.cached_only {
                    r is Only
                } else if flags.cache_blocklist.len() > 0 {
                    r is ReloadSome && r->ReloadSome_0.deep_view()
                        == flags.cache_blocklist.deep_view()
                } else if flags.reload {
                    r is ReloadAll
                } else {
                    r is Use
                }
            }),
    {
        if self.flags.cached_only {
            CacheSetting::Only
        } else if self.flags.cache_blocklist.len() > 0 {
            CacheSetting::ReloadSome(self.flags.cache_blocklist.clone())
        } else if self.flags.reload {
            CacheSetting::ReloadAll
        } else {
            CacheSetting::Use
        }
    }

    fn target(&self) -> (r: Option<&str>)
        ensures
            r.deep_view() == compile_target(self.flags().subcommand),
    {
        match self.sub_command() {
            DenoSubcommand::Compile(compile_flags) => match &compile_flags.target {
                Some(target) => Some(target.as_str()),
                None => None,
            },
            _ => None,
        }
    }

    /// The system that npm packages are chosen for: that of the compilation
    /// target, or else the one that the program runs on.
    pub fn npm_system_info(&self) -> (r: NpmSystemInfo)
        ensures
            match compile_target(self.flags().subcommand) {
                Some(target) => match target_system(target) {
                    Some(system) => r.deep_view() == system,
                    None => true,
                },
                None => true,
            },
    {
        npm_system_info_for_target(self.target(), current_system())
    }

    /// The warning on a compilation target that no system is known for.
    pub fn npm_system_info_warning(&self) -> (r: Option<String>)
        ensures
            r.deep_view() == (match compile_target(self.flags().subcommand) {
                Some(target) => if target_system(target) is None {
                    Some(unknown_target_warning(target))
                } else {
                    None
                },
                None => None,
            }),
    {
        let target: &str = match self.target() {
            Some(target) => target,
            None => {
                return None;
            },
        };
        if same_text(target, "aarch64-apple-darwin") || same_text(
            target,
            "aarch64-unknown-linux-gnu",
        ) || same_text(target, "x86_64-apple-darwin") || same_text(
            target,
            "x86_64-unknown-linux-gnu",
        ) || same_text(target, "x86_64-pc-windows-msvc") {
            None
        } else {
            Some(
                concat3(
                    "Not implemented npm system info for target '",
                    target,
                    "'. Using current system default. This may impact architecture specific dependencies.",
                ),
            )
        }
    }

    /// The import map that flag and configuration file ask for. The
    /// configuration file itself is not counted, even if it is an import map.
    pub open spec fn import_map_request(&self) -> ImportMapRequestView {
        requested_import_map(
            self.flags().import_map_path.deep_view(),
            self.configs().root().configs.deno_json,
        )
    }

    /// The import map that flag and configuration file ask for, unless another
    /// one takes its place.
    pub fn specified_import_map_request(&self) -> (r: Option<ImportMapRequest>)
        ensures
            r.deep_view() == (if self.import_map_override() is Some {
                None
            } else {
                Some(self.import_map_request())
            }),
    {
        match &self.import_map_override {
            Some(_) => None,
            None => {
                let path: Option<&str> = match &self.flags.import_map_path {
                    Some(path) => Some(path.as_str()),
                    None => None,
                };
                Some(
                    resolve_import_map_specifier(
                        path,
                        &self.workspace.root_folder_configs().deno_json,
                    ),
                )
            },
        }
    }

    /// The specifier of the import map that was asked for: the overriding one, if
    /// there is one, else that of the flag. `resolved` is what resolving the URL
    /// or path of the flag led to.
    pub fn resolve_specified_import_map_specifier(
        &self,
        resolved: Result<ModuleSpecifier, String>,
    ) -> (r: Result<Option<ModuleSpecifier>, CliError>)
        ensures
            match self.import_map_override() {
                Some(specifier) => r is Ok && r->Ok_0.deep_view() == specifier,
                None => match self.flags().import_map_path {
                    None => r == Ok::<Option<ModuleSpecifier>, CliError>(None),
                    Some(text) => match resolved {
                        Ok(specifier) => r == Ok::<Option<ModuleSpecifier>, CliError>(
                            Some(specifier),
                        ),
                        Err(cause) => r is Err && r->Err_0@ == (
                            bad_import_map_message(text@),
                            Some(cause@),
                        ),
                    },
                },
            },
    {
        match &self.import_map_override {
            Some(specifier) => Ok(specifier.clone()),
            None => match self.specified_import_map_request() {
                Some(request) => import_map_specifier(&request, resolved),
                None => Ok(None),
            },
        }
    }

    /// How the workspace resolver is made. `specified` is the specifier of the
    /// import map that was asked for, or what went wrong in resolving it. An
    /// override with no import map leads to an empty one.
    pub fn create_workspace_resolver(
        &self,
        specified: Result<Option<ModuleSpecifier>, CliError>,
    ) -> (r: Result<WorkspaceResolverPlan, CliError>)
        ensures
            ({
                let resolution = if self.brings_own_packages() {
                    PackageJsonDepResolution::Disabled
                } else {
                    PackageJsonDepResolution::Enabled
                };
                if self.import_map_override() == Some(None::<Seq<char>>) {
                    match url_joined(self.configs().root().url@, "import_map.json"@) {
                        Some(url) => r is Ok && r->Ok_0.pkg_json_dep_resolution == resolution
                            && r->Ok_0.import_map.deep_view() == SpecifiedImportMapView::Empty(
                            url,
                        ),
                        None => r is Err && r->Err_0@ == (
                            "The workspace has no URL for an import map."@,
                            None::<Seq<char>>,
                        ),
                    }
                } else {
                    match specified {
                        Err(error) => r == Err::<WorkspaceResolverPlan, CliError>(error),
                        Ok(specifier) => r is Ok && r->Ok_0.pkg_json_dep_resolution == resolution
                            && r->Ok_0.import_map.deep_view() == (match specifier {
                            Some(specifier) => SpecifiedImportMapView::Load(specifier@),
                            None => SpecifiedImportMapView::Unspecified,
                        }),
                    }
                }
            }),
    {
        let overrode_no_import_map: bool = match &self.import_map_override {
            Some(None) => true,
            _ => false,
        };
        let import_map: SpecifiedImportMap = if overrode_no_import_map {
            match self.workspace.root_dir().join("import_map.json") {
                Some(url) => SpecifiedImportMap::Empty(url),
                None => {
                    return Err(CliError::new("The workspace has no URL for an import map."));
                },
            }
        } else {
            match specified {
                Ok(Some(specifier)) => SpecifiedImportMap::Load(specifier),
                Ok(None) => SpecifiedImportMap::Unspecified,
                Err(error) => {
                    return Err(error);
                },
            }
        };
        let pkg_json_dep_resolution: PackageJsonDepResolution = if self.use_byonm() {
            PackageJsonDepResolution::Disabled
        } else {
            PackageJsonDepResolution::Enabled
        };
        Ok(WorkspaceResolverPlan { pkg_json_dep_resolution, import_map })
    }

    /// The file descriptor of the channel to the parent process, given the value
    /// of `DENO_CHANNEL_FD`.
    pub fn node_ipc_fd(&self, env_channel_fd: Option<&str>) -> (r: Option<i64>)
        ensures
            r == (match env_channel_fd {
                Some(text) => match written_integer(text@) {
                    Some(n) => if i64::MIN <= n <= i64::MAX {
                        Some(n as i64)
                    } else {
                        None
                    },
                    None => None,
                },
                None => None,
            }),
    {
        match env_channel_fd {
            Some(node_channel_fd) => parse_i64(node_channel_fd),
            None => None,
        }
    }

    /// The port that a server listens on.
    pub fn serve_port(&self) -> (r: Option<u16>)
        ensures
            r == (match self.flags().subcommand {
                DenoSubcommand::Serve(flags) => Some(flags.port),
                _ => None,
            }),
    {
        match self.sub_command() {
            DenoSubcommand::Serve(flags) => Some(flags.port),
            _ => None,
        }
    }

    /// The host that a server listens on.
    pub fn serve_host(&self) -> (r: Option<String>)
        ensures
            r.deep_view() == (match self.flags().subcommand {
                DenoSubcommand::Serve(flags) => Some(flags.host@),
                _ => None,
            }),
    {
        match self.sub_command() {
            DenoSubcommand::Serve(flags) => Some(flags.host.clone()),
            _ => None,
        }
    }

    /// Whether the features of the next major version are on.
    pub fn enable_future_features(&self) -> (r: bool)
        ensures
            r == self.inherited().deno_future,
    {
        self.process.deno_future
    }

    /// The main module that was asked for.
    pub fn resolve_main_module(&self) -> (r: Result<MainModuleRequest, CliError>)
        requires
            has_readable_script(self.flags().subcommand),
        ensures
            gives(r, main_module_of(self.flags().subcommand)),
    {
        match self.sub_command() {
            DenoSubcommand::Bundle(bundle_flags) => Ok(
                MainModuleRequest::FromInitialCwd(bundle_flags.source_file.clone()),
            ),
            DenoSubcommand::Compile(compile_flags) => Ok(
                MainModuleRequest::FromInitialCwd(compile_flags.source_file.clone()),
            ),
            DenoSubcommand::Eval => Ok(
                MainModuleRequest::FromInitialCwd("./$deno$eval".to_owned()),
            ),
            DenoSubcommand::Repl => Ok(
                MainModuleRequest::FromInitialCwd("./$deno$repl.ts".to_owned()),
            ),
            DenoSubcommand::Run(run_flags) => if run_flags.is_stdin() {
                Ok(MainModuleRequest::FromCurrentDir("./$deno$stdin.ts".to_owned()))
            } else if run_flags.watch.is_some() {
                Ok(MainModuleRequest::FromInitialCwd(run_flags.script.clone()))
            } else if NpmPackageReqReference::parse(run_flags.script.as_str()).is_some() {
                match ModuleSpecifier::parse(run_flags.script.as_str()) {
                    Ok(specifier) => Ok(MainModuleRequest::Npm(specifier)),
                    Err(message) => Err(CliError::new(message.as_str())),
                }
            } else {
                Ok(MainModuleRequest::FromInitialCwd(run_flags.script.clone()))
            },
            DenoSubcommand::Serve(serve_flags) => Ok(
                MainModuleRequest::FromInitialCwd(serve_flags.script.clone()),
            ),
            _ => Err(CliError::new("No main module.")),
        }
    }

    /// The headers to use for files in place of their own: the content type that
    /// the flags give, for the main module. `main_module` is what resolving the
    /// main module led to.
    pub fn resolve_file_header_overrides(&self, main_module: Option<ModuleSpecifier>) -> (r: Vec<
        (ModuleSpecifier, Vec<(String, String)>),
    >)
        ensures
            r.deep_view() == header_overrides(
                main_module.deep_view(),
                self.flags().ext.deep_view(),
            ),
    {
        let mut overrides: Vec<(ModuleSpecifier, Vec<(String, String)>)> = Vec::new();
        assert(overrides.deep_view() == Seq::<
            (Seq<char>, Seq<(Seq<char>, Seq<char>)>),
        >::empty());
        let maybe_content_type: Option<&str> = match &self.flags.ext {
            Some(ext) => if same_text(ext.as_str(), "ts") {
                Some("text/typescript")
            } else if same_text(ext.as_str(), "tsx") {
                Some("text/tsx")
            } else if same_text(ext.as_str(), "js") {
                Some("text/javascript")
            } else if same_text(ext.as_str(), "jsx") {
                Some("text/jsx")
            } else {
                None
            },
            None => None,
        };
        if let Some(main_module) = main_module {
            if let Some(content_type) = maybe_content_type {
                let mut headers: Vec<(String, String)> = Vec::new();
                headers.push(("content-type".to_owned(), content_type.to_owned()));
                assert(headers.deep_view() == seq![("content-type"@, content_type@)]);
                overrides.push((main_module, headers));
                assert(overrides.deep_view() == seq![(main_module@, headers.deep_view())]);
            }
        }
        overrides
    }

    /// The snapshot of npm packages that the process was started with. An
    /// incomplete one is an error.
    pub fn resolve_npm_resolution_snapshot(&self) -> (r: Result<
        Option<ValidSerializedNpmResolutionSnapshot>,
        CliError,
    >)
        ensures
            match self.inherited().inherited_packages() {
                Some(Some(packages)) => r is Ok && r->Ok_0 is Some && valid_snapshot_packages(
                    r->Ok_0->0,
                ) == packages,
                Some(None) => r is Ok && r->Ok_0 is None,
                None => r is Err,
            },
    {
        self.process.npm_resolution_snapshot()
    }

    /// Whether the main module counts as being in an npm package, which it does
    /// if the process was started with a state of npm.
    pub fn is_npm_main(&self) -> (r: bool)
        ensures
            r == (self.inherited().npm is Some),
    {
        self.process.npm.is_some()
    }

    /// Overrides the import map to use.
    pub fn set_import_map_specifier(&mut self, path: Option<ModuleSpecifier>)
        ensures
            final(self).import_map_override() == Some(path.deep_view()),
            final(self).flags() == old(self).flags(),
            final(self).cwd() == old(self).cwd(),
            final(self).node_modules() == old(self).node_modules(),
            final(self).vendor() == old(self).vendor(),
            final(self).npm_settings() == old(self).npm_settings(),
            final(self).lockfile() == old(self).lockfile(),
            final(self).configs() == old(self).configs(),
            final(self).inherited() == old(self).inherited(),
            final(self).hides_deprecations() == old(self).hides_deprecations(),
            final(self).details_deprecations() == old(self).details_deprecations(),
    {
        self.import_map_override = Some(path);
    }

    /// Whether there is a local `node_modules` folder.
    pub fn has_node_modules_dir(&self) -> (r: bool)
        ensures
            r == (self.node_modules() is Some),
    {
        self.maybe_node_modules_folder.is_some()
    }

    /// The local `node_modules` folder.
    pub fn node_modules_dir_path(&self) -> (r: &Option<String>)
        ensures
            r.deep_view() == self.node_modules(),
    {
        &self.maybe_node_modules_folder
    }

    /// The same options with another local `node_modules` folder.
    pub fn with_node_modules_dir_path(&self, path: String) -> (r: CliOptions<L>)
        ensures
            r.node_modules() == Some(path@),
            r.flags() == self.flags(),
            r.cwd() == self.cwd(),
            r.vendor() == self.vendor(),
            r.npm_settings() == self.npm_settings(),
            r.lockfile() == self.lockfile(),
            r.import_map_override() == self.import_map_override(),
            r.configs() == self.configs(),
            r.inherited() == self.inherited(),
            r.hides_deprecations() == self.hides_deprecations(),
            r.details_deprecations() == self.details_deprecations(),
    {
        CliOptions {
            flags: self.flags.clone(),
            initial_cwd: self.initial_cwd.clone(),
            maybe_node_modules_folder: Some(path),
            maybe_vendor_folder: self.maybe_vendor_folder.clone(),
            npmrc: self.npmrc.clone(),
            maybe_lockfile: self.maybe_lockfile(),
            import_map_override: match &self.import_map_override {
                Some(Some(specifier)) => Some(Some(specifier.clone())),
                Some(None) => Some(None),
                None => None,
            },
            workspace: self.workspace.clone(),
            process: self.process.clone(),
            disable_deprecated_api_warning: self.disable_deprecated_api_warning,
            verbose_deprecated_api_warning: self.verbose_deprecated_api_warning,
        }
    }

    /// Whether a local `node_modules` folder is asked for, by the flag or the
    /// configuration file.
    pub open spec fn asks_for_node_modules(&self) -> Option<bool> {
        overridden(self.flags().node_modules_dir, self.configs().configured_node_modules_dir())
    }

    /// Whether a local `node_modules` folder is asked for, by the flag or the
    /// configuration file.
    pub fn node_modules_dir_enablement(&self) -> (r: Option<bool>)
        ensures
            r == self.asks_for_node_modules(),
    {
        match self.flags.node_modules_dir {
            Some(wanted) => Some(wanted),
            None => self.workspace.node_modules_dir(),
        }
    }

    /// The vendor folder.
    pub fn vendor_dir_path(&self) -> (r: &Option<String>)
        ensures
            r.deep_view() == self.vendor(),
    {
        &self.maybe_vendor_folder
    }

    /// The compiler options for some purpose. For a bundle, TypeScript's own
    /// decorators are always on.
    pub fn resolve_ts_config_for_emit(&self, config_type: TsConfigType) -> (r: Result<
        TsConfigForEmit,
        CliError,
    >)
        ensures
            match self.compiler_options(config_type) {
                Ok((options, ignored)) => {
                    &&& r is Ok
                    &&& r->Ok_0.ts_config.deep_view() == options
                    &&& r->Ok_0.maybe_ignored_options.deep_view() == ignored
                    &&& self.flags().subcommand is Bundle ==> options.contains_pair(
                        EXPERIMENTAL_DECORATORS@,
                        "true"@,
                    )
                },
                Err(message) => r is Err && r->Err_0@ == (message, None::<Seq<char>>),
            },
    {
        let is_bundle: bool = match self.sub_command() {
            DenoSubcommand::Bundle(_) => true,
            _ => false,
        };
        resolve_ts_config_for_emit(
            config_type,
            &self.workspace.root_folder_configs().deno_json,
            is_bundle,
        )
    }

    /// The compiler options for some purpose.
    pub open spec fn compiler_options(&self, config_type: TsConfigType) -> Result<
        (Map<Seq<char>, Seq<char>>, Option<Seq<char>>),
        Seq<char>,
    > {
        options_for_emit(
            config_type,
            config_source(self.configs().root().configs.deno_json),
            self.flags().subcommand is Bundle,
        )
    }

    /// The address that an inspector listens on: that of the first of the
    /// inspecting flags that is given.
    pub fn resolve_inspector_server(&self) -> (r: Option<String>)
        ensures
            r.deep_view() == overridden(
                self.flags().inspect.deep_view(),
                overridden(
                    self.flags().inspect_brk.deep_view(),
                    self.flags().inspect_wait.deep_view(),
                ),
            ),
    {
        match &self.flags.inspect {
            Some(host) => Some(host.clone()),
            None => match &self.flags.inspect_brk {
                Some(host) => Some(host.clone()),
                None => self.flags.inspect_wait.clone(),
            },
        }
    }

    /// The lockfile.
    pub fn maybe_lockfile(&self) -> (r: Option<Arc<L>>)
        ensures
            r == self.lockfile(),
    {
        match &self.maybe_lockfile {
            Some(lockfile) => Some(lockfile.clone()),
            None => None,
        }
    }

    /// The imports that are brought into the module graph, by the module they
    /// belong to: the type definitions that the root's configuration file names.
    pub open spec fn graph_imports(&self) -> Result<Seq<(Seq<char>, Seq<Seq<char>>)>, Seq<char>> {
        match self.configs().root().configs.deno_json {
            Some(deno_json) => deno_json.brought_types(),
            None => Ok(Seq::empty()),
        }
    }

    /// The imports that are brought into the module graph, by the module they
    /// belong to.
    pub fn to_maybe_imports(&self) -> (r: Result<Vec<ReferrerImports>, CliError>)
        ensures
            match self.graph_imports() {
                Ok(imports) => r is Ok && r->Ok_0.deep_view() == imports,
                Err(message) => r is Err && r->Err_0@ == (message, None::<Seq<char>>),
            },
    {
        let mut result: Vec<ReferrerImports> = Vec::new();
        assert(result.deep_view() == Seq::<(Seq<char>, Seq<Seq<char>>)>::empty());
        let deno_json: &DenoJson = match &self.workspace.root_folder_configs().deno_json {
            Some(deno_json) => deno_json,
            None => {
                return Ok(result);
            },
        };
        let types: Vec<(String, Vec<String>)> = match types_of(
            &deno_json.text,
            &deno_json.specifier,
        ) {
            Ok(types) => types,
            Err(message) => {
                return Err(CliError::new(message.as_str()));
            },
        };
        assert(result.deep_view() == types.deep_view().take(0));
        for entry in it: types
            invariant
                it.seq() == types@,
                forall|i: int|
                    0 <= i < types.len() ==> (#[trigger] types@[i]).0@ == deno_json.specifier@,
                result.deep_view() == types.deep_view().take(it.index()),
        {
            let ghost before = result.deep_view();
            assert(types@[it.index()] == entry);
            assert(types.deep_view()[it.index()] == entry.deep_view());
            let referrer: ModuleSpecifier = deno_json.specifier.clone();
            result.push(ReferrerImports { referrer, imports: entry.1 });
            assert(result.deep_view() == before.push(entry.deep_view()));
        }
        assert(types.deep_view().take(types.deep_view().len() as int) == types.deep_view());
        Ok(result)
    }

    /// The settings of npm.
    pub fn npmrc(&self) -> (r: &Arc<ResolvedNpmRc>)
        ensures
            **r == self.npm_settings(),
    {
        &self.npmrc
    }

    /// The options of `lint` as a whole, given the workspace's configuration.
    pub fn resolve_workspace_lint_options(
        &self,
        lint_flags: &LintFlags,
        lint_config: Result<WorkspaceLintConfig, String>,
    ) -> (r: Result<WorkspaceLintOptions, CliError>)
        ensures
            match lint_config {
                Err(message) => r is Err && r->Err_0@ == (message@, None::<Seq<char>>),
                Ok(config) => match chosen_reporter(
                    lint_flags.json,
                    lint_flags.compact,
                    config.report.deep_view(),
                ) {
                    Some(kind) => r is Ok && r->Ok_0.reporter_kind == kind,
                    None => r is Err && r->Err_0@ == (
                        "Invalid lint report type in config file"@,
                        None::<Seq<char>>,
                    ),
                },
            },
    {
        match lint_config {
            Ok(lint_config) => WorkspaceLintOptions::resolve(&lint_config, lint_flags),
            Err(message) => Err(CliError::new(message.as_str())),
        }
    }

    /// The JSX factories that lint rules assume where a file names none.
    pub fn resolve_lint_config(&self) -> (r: Result<LinterJsxConfig, CliError>)
        ensures
            match self.compiler_options(TsConfigType::Emit) {
                Err(message) => r is Err && r->Err_0@ == (message, None::<Seq<char>>),
                Ok((options, _)) => match emit_options_of(options) {
                    Err(message) => r is Err && r->Err_0@ == (
                        "Failed to parse compilerOptions"@,
                        Some(message),
                    ),
                    Ok(options) => r is Ok && r->Ok_0.deep_view() == linter_jsx(options),
                },
            },
    {
        let ts_config_result: TsConfigForEmit = match self.resolve_ts_config_for_emit(
            TsConfigType::Emit,
        ) {
            Ok(found) => found,
            Err(error) => {
                return Err(error);
            },
        };
        match ts_config_to_transpile_and_emit_options(ts_config_result.ts_config) {
            Ok((transpile, _)) => Ok(
                if transpile.jsx_automatic {
                    LinterJsxConfig {
                        default_jsx_factory: Some(transpile.jsx_factory),
                        default_jsx_fragment_factory: Some(transpile.jsx_fragment_factory),
                    }
                } else {
                    LinterJsxConfig {
                        default_jsx_factory: None,
                        default_jsx_fragment_factory: None,
                    }
                },
            ),
            Err(error) => Err(error),
        }
    }

    /// The options of `test` as a whole.
    pub fn resolve_workspace_test_options(&self, test_flags: &TestFlags) -> (r:
        WorkspaceTestOptions)
        ensures
            r.doc == test_flags.doc,
            r.no_run == test_flags.no_run,
            r.fail_fast == test_flags.fail_fast,
            r.allow_none == test_flags.allow_none,
            r.filter == test_flags.filter,
            r.shuffle == test_flags.shuffle,
            r.concurrent_jobs.number() == (match test_flags.concurrent_jobs {
                Some(jobs) => jobs.number(),
                None => 1,
            }),
            r.trace_leaks == test_flags.trace_leaks,
            r.reporter == test_flags.reporter,
            r.junit_path == test_flags.junit_path,
    {
        WorkspaceTestOptions::resolve(test_flags)
    }

    /// The options of `bench` as a whole.
    pub fn resolve_workspace_bench_options(&self, bench_flags: &BenchFlags) -> (r:
        WorkspaceBenchOptions)
        ensures
            r.filter == bench_flags.filter,
            r.json == bench_flags.json,
            r.no_run == bench_flags.no_run,
    {
        WorkspaceBenchOptions::resolve(bench_flags)
    }

    /// The packages of the workspace, as a module graph sees them.
    pub fn resolve_deno_graph_workspace_members(&self) -> (r: Result<
        Vec<WorkspaceMember>,
        CliError,
    >)
        ensures
            match described_members(self.configs().folders()) {
                Ok(members) => r is Ok && r->Ok_0.deep_view() == members,
                Err(message) => r is Err && r->Err_0@ == (message, None::<Seq<char>>),
            },
    {
        workspace_members(&self.workspace)
    }

    /// The arguments for the user's script.
    pub fn argv(&self) -> (r: &Vec<String>)
        ensures
            *r == self.flags().argv,
    {
        &self.flags.argv
    }

    /// Certificate authority data.
    pub fn ca_data(&self) -> (r: &Option<CaData>)
        ensures
            *r == self.flags().ca_data,
    {
        &self.flags.ca_data
    }

    /// Certificate stores.
    pub fn ca_stores(&self) -> (r: &Option<Vec<String>>)
        ensures
            *r == self.flags().ca_stores,
    {
        &self.flags.ca_stores
    }

    /// Whether JavaScript is type checked.
    pub fn check_js(&self) -> (r: bool)
        ensures
            r == (match self.configs().root().configs.deno_json {
                Some(deno_json) => deno_json.asks_for_js_checks(),
                None => false,
            }),
    {
        self.workspace.check_js()
    }

    /// Where coverage data goes: where the flag of `test` says, else where
    /// `DENO_UNSTABLE_COVERAGE_DIR` says. Only tests have coverage data.
    pub fn coverage_dir(&self, env_coverage_dir: Option<&str>) -> (r: Option<String>)
        ensures
            r.deep_view() == (match self.flags().subcommand {
                DenoSubcommand::Test(flags) => overridden(
                    flags.coverage_dir.deep_view(),
                    env_coverage_dir.deep_view(),
                ),
                _ => None,
            }),
    {
        match self.sub_command() {
            DenoSubcommand::Test(test_flags) => match &test_flags.coverage_dir {
                Some(dir) => Some(dir.clone()),
                None => match env_coverage_dir {
                    Some(dir) => Some(dir.to_owned()),
                    None => None,
                },
            },
            _ => None,
        }
    }

    /// Whether a summary of operations is kept.
    pub fn enable_op_summary_metrics(&self) -> (r: bool)
        ensures
            r == (self.flags().enable_op_summary_metrics || self.flags().subcommand is Test
                || self.flags().subcommand is Repl || self.flags().subcommand is Jupyter),
    {
        self.flags.enable_op_summary_metrics || match self.sub_command() {
            DenoSubcommand::Test(_) => true,
            DenoSubcommand::Repl => true,
            DenoSubcommand::Jupyter => true,
            _ => false,
        }
    }

    /// Whether features for tests of the program itself are on.
    pub fn enable_testing_features(&self) -> (r: bool)
        ensures
            r == self.flags().enable_testing_features,
    {
        self.flags.enable_testing_features
    }

    /// The file extension to assume.
    pub fn ext_flag(&self) -> (r: &Option<String>)
        ensures
            *r == self.flags().ext,
    {
        &self.flags.ext
    }

    /// Whether modules are replaced while the program runs.
    pub fn has_hmr(&self) -> (r: bool)
        ensures
            r == (match self.flags().subcommand {
                DenoSubcommand::Run(flags) => match flags.watch {
                    Some(watch) => watch.hmr,
                    None => false,
                },
                _ => false,
            }),
    {
        match self.sub_command() {
            DenoSubcommand::Run(run_flags) => match &run_flags.watch {
                Some(watch) => watch.hmr,
                None => false,
            },
            _ => false,
        }
    }

    /// Whether the flag `--inspect` or `--inspect-brk` is used.
    pub fn is_inspecting(&self) -> (r: bool)
        ensures
            r == (self.flags().inspect is Some || self.flags().inspect_brk is Some),
    {
        self.flags.inspect.is_some() || self.flags.inspect_brk.is_some()
    }

    /// The address of an inspector that breaks at the start.
    pub fn inspect_brk(&self) -> (r: &Option<String>)
        ensures
            *r == self.flags().inspect_brk,
    {
        &self.flags.inspect_brk
    }

    /// The address of an inspector that is waited for.
    pub fn inspect_wait(&self) -> (r: &Option<String>)
        ensures
            *r == self.flags().inspect_wait,
    {
        &self.flags.inspect_wait
    }

    /// The severity of log messages to show.
    pub fn log_level(&self) -> (r: Option<LogLevel>)
        ensures
            r == self.flags().log_level,
    {
        self.flags.log_level
    }

    /// Whether only errors are shown.
    pub fn is_quiet(&self) -> (r: bool)
        ensures
            r == (self.flags().log_level == Some(LogLevel::Error)),
    {
        match self.log_level() {
            Some(LogLevel::Error) => true,
            _ => false,
        }
    }

    /// The location that the program sees.
    pub fn location_flag(&self) -> (r: &Option<ModuleSpecifier>)
        ensures
            *r == self.flags().location,
    {
        &self.flags.location
    }

    /// The root of the caches, if it is not the default.
    pub fn maybe_custom_root(&self) -> (r: &Option<String>)
        ensures
            *r == self.flags().cache_path,
    {
        &self.flags.cache_path
    }

    /// Whether remote modules are off.
    pub fn no_remote(&self) -> (r: bool)
        ensures
            r == self.flags().no_remote,
    {
        self.flags.no_remote
    }

    /// Whether npm packages are off.
    pub fn no_npm(&self) -> (r: bool)
        ensures
            r == self.flags().no_npm,
    {
        self.flags.no_npm
    }

    /// Whether configuration files are off.
    pub fn no_config(&self) -> (r: bool)
        ensures
            r == (self.flags().config_flag is Disabled),
    {
        match &self.flags.config_flag {
            ConfigFlag::Disabled => true,
            _ => false,
        }
    }

    /// The flags on permissions.
    pub fn permission_flags(&self) -> (r: &PermissionFlags)
        ensures
            *r == self.flags().permissions,
    {
        &self.flags.permissions
    }

    /// Whether everything is reloaded.
    pub fn reload_flag(&self) -> (r: bool)
        ensures
            r == self.flags().reload,
    {
        self.flags.reload
    }

    /// The seed of random numbers.
    pub fn seed(&self) -> (r: Option<u64>)
        ensures
            r == self.flags().seed,
    {
        self.flags.seed
    }

    /// The operations to trace.
    pub fn strace_ops(&self) -> (r: &Option<Vec<String>>)
        ensures
            *r == self.flags().strace_ops,
    {
        &self.flags.strace_ops
    }

    /// The command that is run from an npm package: the value of
    /// `DENO_INTERNAL_NPM_CMD_NAME`, else the command of the script if that
    /// reads as a package.
    pub fn take_binary_npm_command_name(&self, env_cmd_name: Option<&str>) -> (r: Option<String>)
        requires
            env_cmd_name is None ==> has_readable_script(self.flags().subcommand),
        ensures
            r.deep_view() == (match self.flags().subcommand {
                DenoSubcommand::Run(flags) => match env_cmd_name {
                    Some(name) => Some(name@),
                    None => match npm_reference(flags.script@) {
                        Some(reference) => Some(binary_command(reference)),
                        None => None,
                    },
                },
                _ => None,
            }),
    {
        match self.sub_command() {
            DenoSubcommand::Run(run_flags) => match env_cmd_name {
                Some(name) => Some(name.to_owned()),
                None => match NpmPackageReqReference::parse(run_flags.script.as_str()) {
                    Some(req_ref) => Some(npm_pkg_req_ref_to_binary_command(&req_ref)),
                    None => None,
                },
            },
            _ => None,
        }
    }

    /// The hosts whose certificates are not checked.
    pub fn unsafely_ignore_certificate_errors(&self) -> (r: &Option<Vec<String>>)
        ensures
            *r == self.flags().unsafely_ignore_certificate_errors,
    {
        &self.flags.unsafely_ignore_certificate_errors
    }

    /// Whether the old flag for unstable features is given.
    pub fn legacy_unstable_flag(&self) -> (r: bool)
        ensures
            r == self.flags().unstable_config.legacy_flag_enabled,
    {
        self.flags.unstable_config.legacy_flag_enabled
    }

    /// Whether built-in modules of Node.js can be imported without a prefix.
    pub fn unstable_bare_node_builtins(&self) -> (r: bool)
        ensures
            r == (self.flags().unstable_config.bare_node_builtins
                || self.configs().asks_for_unstable("bare-node-builtins"@)),
    {
        self.flags.unstable_config.bare_node_builtins || self.workspace.has_unstable(
            "bare-node-builtins",
        )
    }

    /// Whether npm packages come from the user's own `node_modules`: by default
    /// in the next major version if a folder of the workspace has a
    /// `package.json` and nothing is said on the folder, or because flags,
    /// process or configuration ask for it.
    pub open spec fn brings_own_packages(&self) -> bool {
        ||| self.inherited().deno_future && self.asks_for_node_modules() is None
            && has_package_json(self.configs().folders())
        ||| self.flags().unstable_config.byonm
        ||| self.inherited().is_byonm()
        ||| self.configs().asks_for_unstable("byonm"@)
    }

    /// Whether npm packages come from the user's own `node_modules`.
    pub fn use_byonm(&self) -> (r: bool)
        ensures
            r == self.brings_own_packages(),
    {
        if self.enable_future_features() && self.node_modules_dir_enablement().is_none()
            && any_package_json(self.workspace.config_folders()) {
            return true;
        }
        self.flags.unstable_config.byonm || self.process.uses_byonm()
            || self.workspace.has_unstable("byonm")
    }

    /// Whether imports are resolved sloppily.
    pub fn unstable_sloppy_imports(&self) -> (r: bool)
        ensures
            r == (self.flags().unstable_config.sloppy_imports
                || self.configs().asks_for_unstable("sloppy-imports"@)),
    {
        self.flags.unstable_config.sloppy_imports || self.workspace.has_unstable("sloppy-imports")
    }

    /// The unstable features in use: those of the configuration file, those of
    /// the flags that it lacks, and in the next major version those of
    /// `future_features` that both lack.
    pub open spec fn features_in_use(&self, future_features: Seq<Seq<char>>) -> Seq<Seq<char>> {
        let asked_for = with_all_missing(
            self.configs().configured_unstable(),
            self.flags().unstable_config.features.deep_view(),
        );
        if self.inherited().deno_future {
            with_all_missing(asked_for, future_features)
        } else {
            asked_for
        }
    }

    /// The unstable features in use. `future_features` are those that the next
    /// major version turns on.
    pub fn unstable_features(&self, future_features: &Vec<String>) -> (r: Vec<String>)
        ensures
            r.deep_view() == self.features_in_use(future_features.deep_view()),
    {
        let mut features: Vec<String> = self.workspace.unstable_features();
        add_all_missing(&mut features, &self.flags.unstable_config.features);
        if self.process.deno_future {
            add_all_missing(&mut features, future_features);
        }
        features
    }

    /// The flags for V8.
    pub fn v8_flags(&self) -> (r: &Vec<String>)
        ensures
            *r == self.flags().v8_flags,
    {
        &self.flags.v8_flags
    }

    /// Whether compiled code is cached.
    pub fn code_cache_enabled(&self) -> (r: bool)
        ensures
            r == self.flags().code_cache_enabled,
    {
        self.flags.code_cache_enabled
    }

    /// The paths to watch: those that the flags name, seen from the directory
    /// that the command was started in; the import map that was asked for, if
    /// it is a local file; and the configuration files. `import_map` is what
    /// resolving the import map led to.
    pub fn watch_paths(&self, import_map: Option<&ModuleSpecifier>) -> (r: Vec<String>)
        ensures
            r.deep_view() == seen_from(self.cwd(), watched_by_flags(self.flags().subcommand))
                + import_map_path(import_map) + config_paths(self.configs().folders()),
    {
        let mut full_paths: Vec<String> = Vec::new();
        assert(full_paths.deep_view() == Seq::<Seq<char>>::empty());
        if let DenoSubcommand::Run(run_flags) = self.sub_command() {
            if let Some(watch) = &run_flags.watch {
                add_seen_from(&mut full_paths, self.initial_cwd.as_str(), &watch.paths);
            }
        }
        let ghost watched = seen_from(self.cwd(), watched_by_flags(self.flags().subcommand));
        assert(full_paths.deep_view() == watched);
        if let Some(specifier) = import_map {
            if let Some(path) = specifier.to_file_path() {
                full_paths.push(path);
                assert(full_paths.deep_view() == watched.push(path@));
                assert(watched.push(path@) == watched + seq![path@]);
            }
        }
        assert(full_paths.deep_view() == watched + import_map_path(import_map));
        add_config_paths(&mut full_paths, self.workspace.config_folders());
        full_paths
    }

    /// The options of `fmt` for a member with the given configuration.
    pub fn resolve_fmt_options(
        &self,
        fmt_flags: &FmtFlags,
        fmt_config: Result<FmtConfig, String>,
    ) -> (r: Result<FmtOptions, CliError>)
        requires
            is_valid_fmt_flags(*fmt_flags),
        ensures
            gives(r, member_fmt(fmt_config, *fmt_flags, self.cwd())),
    {
        match fmt_config {
            Ok(fmt_config) => FmtOptions::resolve(
                fmt_config,
                fmt_flags,
                Some(self.initial_cwd.as_str()),
            ),
            Err(message) => Err(CliError::new(message.as_str())),
        }
    }

    /// The options of `fmt` for members with the given configurations.
    pub fn resolve_fmt_options_for_members(
        &self,
        fmt_flags: &FmtFlags,
        members: Vec<Result<FmtConfig, String>>,
    ) -> (r: Result<Vec<FmtOptions>, CliError>)
        requires
            is_valid_fmt_flags(*fmt_flags),
        ensures
            gives(r, collected(members_fmt(members@, *fmt_flags, self.cwd()))),
    {
        let ghost outcomes = members_fmt(members@, *fmt_flags, self.cwd());
        let mut result: Vec<FmtOptions> = Vec::new();
        assert(outcomes.take(0) == Seq::<Result<FmtOptionsView, Seq<char>>>::empty());
        assert(result.deep_view() == Seq::<FmtOptionsView>::empty());
        for member in it: members
            invariant
                it.seq() == members@,
                outcomes == members_fmt(members@, *fmt_flags, self.cwd()),
                is_valid_fmt_flags(*fmt_flags),
                collected(outcomes.take(it.index())) == Ok::<Seq<FmtOptionsView>, Seq<char>>(
                    result.deep_view(),
                ),
        {
            let ghost before = result.deep_view();
            let ghost i = it.index();
            assert(outcomes.take(i + 1).drop_last() == outcomes.take(i));
            assert(outcomes.take(i + 1).last() == member_fmt(member, *fmt_flags, self.cwd()));
            match self.resolve_fmt_options(fmt_flags, member) {
                Ok(options) => {
                    result.push(options);
                    assert(result.deep_view() == before.push(options.deep_view()));
                },
                Err(error) => {
                    proof {
                        lemma_first_error_stays(outcomes, i + 1);
                    }
                    return Err(error);
                },
            }
        }
        assert(outcomes.take(outcomes.len() as int) == outcomes);
        Ok(result)
    }

    /// The options of `lint` for a member with the given configuration.
    pub fn resolve_lint_options(
        &self,
        lint_flags: &LintFlags,
        lint_config: Result<LintConfig, String>,
    ) -> (r: Result<LintOptions, CliError>)
        ensures
            gives(r, member_lint(lint_config, *lint_flags, self.cwd())),
    {
        match lint_config {
            Ok(lint_config) => LintOptions::resolve(
                lint_config,
                lint_flags,
                Some(self.initial_cwd.as_str()),
            ),
            Err(message) => Err(CliError::new(message.as_str())),
        }
    }

    /// The options of `lint` for members with the given configurations.
    pub fn resolve_lint_options_for_members<C>(
        &self,
        lint_flags: &LintFlags,
        members: Vec<(C, Result<LintConfig, String>)>,
    ) -> (r: Result<Vec<(C, LintOptions)>, CliError>)
        ensures
            gives_beside(
                r,
                members@,
                collected(members_lint(members@, *lint_flags, self.cwd())),
            ),
    {
        let ghost outcomes = members_lint(members@, *lint_flags, self.cwd());
        let ghost mut values = Seq::<LintOptionsView>::empty();
        let mut result: Vec<(C, LintOptions)> = Vec::new();
        assert(outcomes.take(0) == Seq::<Result<LintOptionsView, Seq<char>>>::empty());
        for member in it: members
            invariant
                it.seq() == members@,
                outcomes == members_lint(members@, *lint_flags, self.cwd()),
                collected(outcomes.take(it.index())) == Ok::<Seq<LintOptionsView>, Seq<char>>(
                    values,
                ),
                result.len() == it.index(),
                values.len() == it.index(),
                forall|k: int|
                    0 <= k < it.index() ==> (#[trigger] result@[k]).0 == members@[k].0
                        && result@[k].1.deep_view() == values[k],
        {
            let ghost i = it.index();
            assert(outcomes.take(i + 1).drop_last() == outcomes.take(i));
            assert(outcomes.take(i + 1).last() == member_lint(
                member.1,
                *lint_flags,
                self.cwd(),
            ));
            match self.resolve_lint_options(lint_flags, member.1) {
                Ok(options) => {
                    proof {
                        values = values.push(options.deep_view());
                    }
                    result.push((member.0, options));
                },
                Err(error) => {
                    proof {
                        lemma_first_error_stays(outcomes, i + 1);
                    }
                    return Err(error);
                },
            }
        }
        assert(outcomes.take(outcomes.len() as int) == outcomes);
        Ok(result)
    }

    /// The options of `test` for a member with the given configuration.
    pub fn resolve_test_options(
        &self,
        test_flags: &TestFlags,
        test_config: Result<TestConfig, String>,
    ) -> (r: Result<TestOptions, CliError>)
        ensures
            gives(r, member_test(test_config, *test_flags, self.cwd())),
    {
        match test_config {
            Ok(test_config) => TestOptions::resolve(
                test_config,
                test_flags,
                Some(self.initial_cwd.as_str()),
            ),
            Err(message) => Err(CliError::new(message.as_str())),
        }
    }

    /// The options of `test` for members with the given configurations.
    pub fn resolve_test_options_for_members<C>(
        &self,
        test_flags: &TestFlags,
        members: Vec<(C, Result<TestConfig, String>)>,
    ) -> (r: Result<Vec<(C, TestOptions)>, CliError>)
        ensures
            gives_beside(
                r,
                members@,
                collected(members_test(members@, *test_flags, self.cwd())),
            ),
    {
        let ghost outcomes = members_test(members@, *test_flags, self.cwd());
        let ghost mut values = Seq::<FilePatternsView>::empty();
        let mut result: Vec<(C, TestOptions)> = Vec::new();
        assert(outcomes.take(0) == Seq::<Result<FilePatternsView, Seq<char>>>::empty());
        for member in it: members
            invariant
                it.seq() == members@,
                outcomes == members_test(members@, *test_flags, self.cwd()),
                collected(outcomes.take(it.index())) == Ok::<Seq<FilePatternsView>, Seq<char>>(
                    values,
                ),
                result.len() == it.index(),
                values.len() == it.index(),
                forall|k: int|
                    0 <= k < it.index() ==> (#[trigger] result@[k]).0 == members@[k].0
                        && result@[k].1.deep_view() == values[k],
        {
            let ghost i = it.index();
            assert(outcomes.take(i + 1).drop_last() == outcomes.take(i));
            assert(outcomes.take(i + 1).last() == member_test(
                member.1,
                *test_flags,
                self.cwd(),
            ));
            match self.resolve_test_options(test_flags, member.1) {
                Ok(options) => {
                    proof {
                        values = values.push(options.deep_view());
                    }
                    result.push((member.0, options));
                },
                Err(error) => {
                    proof {
                        lemma_first_error_stays(outcomes, i + 1);
                    }
                    return Err(error);
                },
            }
        }
        assert(outcomes.take(outcomes.len() as int) == outcomes);
        Ok(result)
    }

    /// The options of `bench` for a member with the given configuration.
    pub fn resolve_bench_options(
        &self,
        bench_flags: &BenchFlags,
        bench_config: Result<BenchConfig, String>,
    ) -> (r: Result<BenchOptions, CliError>)
        ensures
            gives(r, member_bench(bench_config, *bench_flags, self.cwd())),
    {
        match bench_config {
            Ok(bench_config) => BenchOptions::resolve(
                bench_config,
                bench_flags,
                Some(self.initial_cwd.as_str()),
            ),
            Err(message) => Err(CliError::new(message.as_str())),
        }
    }

    /// The options of `bench` for members with the given configurations.
    pub fn resolve_bench_options_for_members<C>(
        &self,
        bench_flags: &BenchFlags,
        members: Vec<(C, Result<BenchConfig, String>)>,
    ) -> (r: Result<Vec<(C, BenchOptions)>, CliError>)
        ensures
            gives_beside(
                r,
                members@,
                collected(members_bench(members@, *bench_flags, self.cwd())),
            ),
    {
        let ghost outcomes = members_bench(members@, *bench_flags, self.cwd());
        let ghost mut values = Seq::<FilePatternsView>::empty();
        let mut result: Vec<(C, BenchOptions)> = Vec::new();
        assert(outcomes.take(0) == Seq::<Result<FilePatternsView, Seq<char>>>::empty());
        for member in it: members
            invariant
                it.seq() == members@,
                outcomes == members_bench(members@, *bench_flags, self.cwd()),
                collected(outcomes.take(it.index())) == Ok::<Seq<FilePatternsView>, Seq<char>>(
                    values,
                ),
                result.len() == it.index(),
                values.len() == it.index(),
                forall|k: int|
                    0 <= k < it.index() ==> (#[trigger] result@[k]).0 == members@[k].0
                        && result@[k].1.deep_view() == values[k],
        {
            let ghost i = it.index();
            assert(outcomes.take(i + 1).drop_last() == outcomes.take(i));
            assert(outcomes.take(i + 1).last() == member_bench(
                member.1,
                *bench_flags,
                self.cwd(),
            ));
            match self.resolve_bench_options(bench_flags, member.1) {
                Ok(options) => {
                    proof {
                        values = values.push(options.deep_view());
                    }
                    result.push((member.0, options));
                },
                Err(error) => {
                    proof {
                        lemma_first_error_stays(outcomes, i + 1);
                    }
                    return Err(error);
                },
            }
        }
        assert(outcomes.take(outcomes.len() as int) == outcomes);
        Ok(result)
    }
}

/// Imports that a module brings into the module graph.
#[derive(Debug)]
pub struct ReferrerImports {
    pub referrer: ModuleSpecifier,
    pub imports: Vec<String>,
}

impl DeepView for ReferrerImports {
    type V = (Seq<char>, Seq<Seq<char>>);

    open spec fn deep_view(&self) -> (Seq<char>, Seq<Seq<char>>) {
        (self.referrer@, self.imports.deep_view())
    }
}

/// The path of an import map that is a local file.
pub open spec fn import_map_path(import_map: Option<&ModuleSpecifier>) -> Seq<Seq<char>> {
    match import_map {
        Some(specifier) => match url_file_path(specifier@) {
            Some(path) => seq![path],
            None => Seq::empty(),
        },
        None => Seq::empty(),
    }
}

/// The JSX factories that lint rules assume where a file names none.
#[derive(Debug)]
pub struct LinterJsxConfig {
    pub default_jsx_factory: Option<String>,
    pub default_jsx_fragment_factory: Option<String>,
}

impl DeepView for LinterJsxConfig {
    type V = (Option<Seq<char>>, Option<Seq<char>>);

    open spec fn deep_view(&self) -> (Option<Seq<char>>, Option<Seq<char>>) {
        (self.default_jsx_factory.deep_view(), self.default_jsx_fragment_factory.deep_view())
    }
}

/// The JSX factories that lint rules assume: those of the compiler options, if
/// imports for JSX are automatic.
pub open spec fn linter_jsx(options: EmitConfigView) -> (Option<Seq<char>>, Option<Seq<char>>) {
    if transpile_options(options).jsx_automatic {
        (Some(options.jsx_factory), Some(options.jsx_fragment_factory))
    } else {
        (None, None)
    }
}

fn any_package_json(folders: &Vec<ConfigFolder>) -> (r: bool)
    ensures
        r == has_package_json(folders@),
{
    let mut i: usize = 0;
    while i < folders.len()
        invariant
            i <= folders.len(),
            forall|k: int| 0 <= k < i ==> (#[trigger] folders@[k]).configs.pkg_json is None,
        decreases folders.len() - i,
    {
        if folders[i].configs.pkg_json.is_some() {
            assert(folders@[i as int].configs.pkg_json is Some);
            return true;
        }
        i = i + 1;
    }
    false
}

fn add_seen_from(full_paths: &mut Vec<String>, base: &str, paths: &Vec<String>)
    ensures
        final(full_paths).deep_view() == old(full_paths).deep_view() + seen_from(
            base@,
            paths.deep_view(),
        ),
{
    let ghost before = full_paths.deep_view();
    let ghost added = seen_from(base@, paths.deep_view());
    let mut i: usize = 0;
    assert(before + added.take(0) == before);
    while i < paths.len()
        invariant
            i <= paths.len(),
            added == seen_from(base@, paths.deep_view()),
            full_paths.deep_view() == before + added.take(i as int),
        decreases paths.len() - i,
    {
        let ghost current = full_paths.deep_view();
        let path: String = join(base, paths[i].as_str());
        assert(path@ == added[i as int]);
        full_paths.push(path);
        assert(full_paths.deep_view() == current.push(path@));
        assert(added.take(i + 1) == added.take(i as int).push(path@));
        assert(current.push(path@) == before + added.take(i + 1));
        i = i + 1;
    }
    assert(added.take(i as int) == added);
}

fn add_config_paths(full_paths: &mut Vec<String>, folders: &Vec<ConfigFolder>)
    ensures
        final(full_paths).deep_view() == old(full_paths).deep_view() + config_paths(folders@),
{
    let ghost before = full_paths.deep_view();
    let mut i: usize = 0;
    assert(folders@.take(0) == Seq::<ConfigFolder>::empty());
    assert(before + Seq::<Seq<char>>::empty() == before);
    while i < folders.len()
        invariant
            i <= folders.len(),
            full_paths.deep_view() == before + config_paths(folders@.take(i as int)),
        decreases folders.len() - i,
    {
        let ghost known = config_paths(folders@.take(i as int));
        assert(folders@.take(i + 1).drop_last() == folders@.take(i as int));
        assert(folders@.take(i + 1).last() == folders@[i as int]);
        let ghost mut grown = known;
        if let Some(deno_json) = &folders[i].configs.deno_json {
            if deno_json.specifier.has_scheme("file") {
                if let Some(path) = deno_json.specifier.to_file_path() {
                    let ghost current = full_paths.deep_view();
                    full_paths.push(path);
                    assert(full_paths.deep_view() == current.push(path@));
                    assert((before + known).push(path@) == before + known.push(path@));
                    proof {
                        grown = known.push(path@);
                    }
                }
            }
        }
        assert(full_paths.deep_view() == before + grown);
        if let Some(pkg_json) = &folders[i].configs.pkg_json {
            let ghost current = full_paths.deep_view();
            full_paths.push(pkg_json.path.clone());
            assert(full_paths.deep_view() == current.push(pkg_json.path@));
            assert((before + grown).push(pkg_json.path@) == before + grown.push(pkg_json.path@));
        }
        i = i + 1;
    }
    assert(folders@.take(i as int) == folders@);
}

/// The unstable features in use hold everything that flags and configuration
/// file ask for, those of the configuration file first; features of the next
/// major version come in only where that is on; and none is repeated unless the
/// configuration file repeats it.
pub proof fn law_unstable_features<L>(options: CliOptions<L>, future_features: Seq<Seq<char>>)
    ensures
        ({
            let features = options.features_in_use(future_features);
            let configured = options.configs().configured_unstable();
            let flagged = options.flags().unstable_config.features.deep_view();
            &&& configured.len() <= features.len()
            &&& features.take(configured.len() as int) == configured
            &&& forall|feature: Seq<char>| #[trigger]
                features.contains(feature) <==> configured.contains(feature) || flagged.contains(
                    feature,
                ) || (options.inherited().deno_future && future_features.contains(feature))
            &&& configured.no_duplicates() ==> features.no_duplicates()
        }),
{
    let configured = options.configs().configured_unstable();
    let flagged = options.flags().unstable_config.features.deep_view();
    let asked_for = with_all_missing(configured, flagged);
    law_with_all_missing(configured, flagged);
    law_with_all_missing(asked_for, future_features);
    let features = options.features_in_use(future_features);
    assert(features.take(configured.len() as int) == configured) by {
        if options.inherited().deno_future {
            assert(features.take(configured.len() as int) =~= features.take(
                asked_for.len() as int,
            ).take(configured.len() as int));
        }
    }
}

/// Where the `node_modules` setting is given explicitly and nothing asks for the
/// user's own packages, they are not used, whatever the major version.
pub proof fn law_byonm_needs_a_reason<L>(options: CliOptions<L>)
    requires
        options.asks_for_node_modules() is Some,
        !options.flags().unstable_config.byonm,
        !options.inherited().is_byonm(),
        !options.configs().asks_for_unstable("byonm"@),
    ensures
        !options.brings_own_packages(),
{
}

/// No two known compilation targets stand for the same system.
pub proof fn law_targets_are_told_apart(a: Seq<char>, b: Seq<char>)
    requires
        target_system(a) is Some,
        target_system(a) == target_system(b),
    ensures
        a == b,
{
    reveal_strlit("darwin");
    reveal_strlit("linux");
    reveal_strlit("win32");
    reveal_strlit("arm64");
    reveal_strlit("x64");
    assert("darwin"@.len() == 6 && "linux"@.len() == 5 && "win32"@.len() == 5);
    assert("linux"@[0] == 'l' && "win32"@[0] == 'w');
    assert("arm64"@.len() == 5 && "x64"@.len() == 3);
}

} // verus!
