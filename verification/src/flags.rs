//! The command line flags that option resolution reads.

use vstd::prelude::*;

use crate::specifier::ModuleSpecifier;
use crate::text::same_text;

verus! {

/// A `usize` other than zero.
#[derive(Clone, Copy, Debug)]
pub struct NonZeroUsize {
    value: usize,
}

impl NonZeroUsize {
    #[verifier::type_invariant]
    spec fn is_valid(self) -> bool {
        self.value != 0
    }

    /// The number held.
    pub closed spec fn number(self) -> usize {
        self.value
    }

    /// Holds `value`, unless it is zero.
    pub fn new(value: usize) -> (r: Option<NonZeroUsize>)
        ensures
            r is None <==> value == 0,
            r matches Some(held) ==> held.number() == value,
    {
        if value == 0 {
            None
        } else {
            Some(NonZeroUsize { value })
        }
    }

    /// The number one.
    pub fn one() -> (r: NonZeroUsize)
        ensures
            r.number() == 1,
    {
        NonZeroUsize { value: 1 }
    }

    /// The number held, which is not zero.
    pub fn get(self) -> (r: usize)
        ensures
            r == self.number(),
            r != 0,
    {
        proof {
            use_type_invariant(self);
        }
        self.value
    }
}

/// The severity of log messages to show.
#[derive(Clone, Copy, Debug, PartialEq, Eq, Structural)]
pub enum LogLevel {
    Error,
    Warn,
    Info,
    Debug,
    Trace,
}

/// How a configuration file is found.
#[derive(Debug)]
pub enum ConfigFlag {
    Discover,
    Path(String),
    Disabled,
}

/// How much type checking takes place.
#[derive(Clone, Copy, Debug, PartialEq, Eq, Structural)]
pub enum TypeCheckMode {
    NoCheck,
    Local,
    All,
}

/// Which modules a module graph holds.
#[derive(Clone, Copy, Debug, PartialEq, Eq, Structural)]
pub enum GraphKind {
    All,
    CodeOnly,
    TypesOnly,
}

impl TypeCheckMode {
    /// The graph that this mode needs: types are part of it unless nothing is
    /// checked.
    pub fn as_graph_kind(self) -> (r: GraphKind)
        ensures
            r == (if self == TypeCheckMode::NoCheck {
                GraphKind::CodeOnly
            } else {
                GraphKind::All
            }),
    {
        match self {
            TypeCheckMode::NoCheck => GraphKind::CodeOnly,
            TypeCheckMode::Local => GraphKind::All,
            TypeCheckMode::All => GraphKind::All,
        }
    }
}

/// How test results are reported.
#[derive(Clone, Copy, Debug, PartialEq, Eq, Structural)]
pub enum TestReporterConfig {
    Pretty,
    Dot,
    Junit,
    Tap,
}

/// Certificate authority data: the path of a PEM file, or the bytes of one.
#[derive(Debug)]
pub enum CaData {
    File(String),
    Bytes(Vec<u8>),
}

/// Files to take in and to ignore, as given on the command line.
#[derive(Debug)]
pub struct FileFlags {
    pub includes: Vec<String>,
    pub ignores: Vec<String>,
}

#[derive(Debug)]
pub struct BenchFlags {
    pub files: FileFlags,
    pub filter: Option<String>,
    pub json: bool,
    pub no_run: bool,
}

/// The formatting flags. The widths, where given, are not zero, and
/// `prose_wrap` is `always`, `never` or `preserve`.
#[derive(Debug)]
pub struct FmtFlags {
    pub files: FileFlags,
    pub use_tabs: Option<bool>,
    pub line_width: Option<u32>,
    pub indent_width: Option<u8>,
    pub single_quote: Option<bool>,
    pub prose_wrap: Option<String>,
    pub no_semicolons: Option<bool>,
}

#[derive(Debug)]
pub struct LintFlags {
    pub files: FileFlags,
    pub fix: bool,
    pub json: bool,
    pub compact: bool,
    pub maybe_rules_tags: Option<Vec<String>>,
    pub maybe_rules_include: Option<Vec<String>>,
    pub maybe_rules_exclude: Option<Vec<String>>,
}

#[derive(Debug)]
pub struct TestFlags {
    pub files: FileFlags,
    pub doc: bool,
    pub no_run: bool,
    pub coverage_dir: Option<String>,
    pub fail_fast: Option<NonZeroUsize>,
    pub allow_none: bool,
    pub filter: Option<String>,
    pub shuffle: Option<u64>,
    pub concurrent_jobs: Option<NonZeroUsize>,
    pub trace_leaks: bool,
    pub reporter: TestReporterConfig,
    pub junit_path: Option<String>,
}

#[derive(Debug)]
pub struct BundleFlags {
    pub source_file: String,
}

#[derive(Debug)]
pub struct CompileFlags {
    pub source_file: String,
    pub target: Option<String>,
}

/// File watching, with hot module replacement if `hmr` is set.
#[derive(Debug)]
pub struct WatchFlagsWithPaths {
    pub hmr: bool,
    pub paths: Vec<String>,
}

#[derive(Debug)]
pub struct RunFlags {
    pub script: String,
    pub watch: Option<WatchFlagsWithPaths>,
}

impl RunFlags {
    /// Whether the script comes from standard input, which `-` stands for.
    pub fn is_stdin(&self) -> (r: bool)
        ensures
            r == (self.script@ == "-"@),
    {
        same_text(self.script.as_str(), "-")
    }
}

#[derive(Debug)]
pub struct ServeFlags {
    pub script: String,
    pub port: u16,
    pub host: String,
}

/// Where an installation goes.
#[derive(Clone, Copy, Debug, PartialEq, Eq, Structural)]
pub enum InstallKind {
    Local,
    Global,
}

#[derive(Debug)]
pub struct InstallFlags {
    pub kind: InstallKind,
}

/// The subcommand that was given, with the flags of its own.
#[derive(Debug)]
pub enum DenoSubcommand {
    Add,
    Bench(BenchFlags),
    Bundle(BundleFlags),
    Cache,
    Check,
    Clean,
    Compile(CompileFlags),
    Completions,
    Coverage,
    Doc,
    Eval,
    Fmt(FmtFlags),
    Init,
    Info,
    Install(InstallFlags),
    Uninstall,
    Jupyter,
    Lsp,
    Lint(LintFlags),
    Repl,
    Run(RunFlags),
    Serve(ServeFlags),
    Task,
    Test(TestFlags),
    Types,
    Upgrade,
    Vendor,
    Publish,
}

#[derive(Debug)]
pub struct PermissionFlags {
    pub no_prompt: bool,
}

/// The unstable features that were asked for.
#[derive(Debug)]
pub struct UnstableConfig {
    pub legacy_flag_enabled: bool,
    pub bare_node_builtins: bool,
    pub byonm: bool,
    pub sloppy_imports: bool,
    pub features: Vec<String>,
}

/// The flags of a command line.
#[derive(Debug)]
pub struct Flags {
    /// The arguments for the user's script.
    pub argv: Vec<String>,
    pub subcommand: DenoSubcommand,
    pub ca_stores: Option<Vec<String>>,
    pub ca_data: Option<CaData>,
    pub cache_blocklist: Vec<String>,
    pub cache_path: Option<String>,
    pub cached_only: bool,
    pub code_cache_enabled: bool,
    pub type_check_mode: TypeCheckMode,
    pub config_flag: ConfigFlag,
    pub enable_op_summary_metrics: bool,
    pub enable_testing_features: bool,
    pub env_file: Option<String>,
    pub ext: Option<String>,
    pub frozen_lockfile: bool,
    pub import_map_path: Option<String>,
    /// The address that an inspector listens on.
    pub inspect: Option<String>,
    pub inspect_brk: Option<String>,
    pub inspect_wait: Option<String>,
    pub location: Option<ModuleSpecifier>,
    pub lock: Option<String>,
    pub lock_write: bool,
    pub log_level: Option<LogLevel>,
    pub no_lock: bool,
    pub no_npm: bool,
    pub no_remote: bool,
    pub node_modules_dir: Option<bool>,
    pub permissions: PermissionFlags,
    pub reload: bool,
    pub seed: Option<u64>,
    pub strace_ops: Option<Vec<String>>,
    pub unsafely_ignore_certificate_errors: Option<Vec<String>>,
    pub unstable_config: UnstableConfig,
    pub v8_flags: Vec<String>,
    pub vendor: Option<bool>,
}

/// Whether an environment variable with this value is a raised flag, which `1`
/// stands for.
pub fn has_flag_env_var(value: Option<&str>) -> (r: bool)
    ensures
        r == (value.deep_view() == Some("1"@)),
{
    match value {
        Some(text) => same_text(text, "1"),
        None => false,
    }
}

/// Whether permission prompts are off, by the flags or by the value of
/// `DENO_NO_PROMPT`.
pub fn resolve_no_prompt(flags: &PermissionFlags, env_value: Option<&str>) -> (r: bool)
    ensures
        r == (flags.no_prompt || env_value.deep_view() == Some("1"@)),
{
    flags.no_prompt || has_flag_env_var(env_value)
}

/// A module graph leaves types out exactly where nothing is checked, and never holds
/// types alone.
pub proof fn law_graph_kind(mode: TypeCheckMode, r: GraphKind)
    requires
        call_ensures(TypeCheckMode::as_graph_kind, (mode,), r),
    ensures
        r is CodeOnly <==> mode is NoCheck,
        r is All <==> !(mode is NoCheck),
{
}

/// A dash alone stands for standard input.
pub proof fn law_stdin(flags: &RunFlags, r: bool)
    requires
        call_ensures(RunFlags::is_stdin, (flags,), r),
    ensures
        r <==> flags.script@ == seq!['-'],
{
    reveal_strlit("-");
    assert("-"@ == seq!['-']);
}

/// Prompts are off where the flag is given, or where the environment variable is `1` and
/// nothing else.
pub proof fn law_no_prompt(flags: &PermissionFlags, value: Option<&str>, raised: bool, r: bool)
    requires
        call_ensures(has_flag_env_var, (value,), raised),
        call_ensures(resolve_no_prompt, (flags, value), r),
    ensures
        r <==> flags.no_prompt || raised,
        raised <==> value is Some && value->0@ == seq!['1'],
{
    reveal_strlit("1");
    assert("1"@ == seq!['1']);
}

/// A number is held exactly where it is not zero.
pub proof fn law_non_zero(value: usize, r: Option<NonZeroUsize>, number: usize)
    requires
        call_ensures(NonZeroUsize::new, (value,), r),
        r matches Some(held) ==> call_ensures(NonZeroUsize::get, (held,), number),
    ensures
        r is Some <==> value != 0,
        r is Some ==> number == value,
{
}

} // verus!
