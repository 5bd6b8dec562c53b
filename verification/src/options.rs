//! The options of the `bench`, `fmt`, `lint` and `test` subcommands, made of
//! command line flags and configuration files.

use vstd::prelude::*;

use crate::error::CliError;
use crate::flags::{BenchFlags, FmtFlags, LintFlags, NonZeroUsize, TestFlags, TestReporterConfig};
use crate::patterns::{
    all_files_below, are_files_of, gives, has_invalid_ignores, has_invalid_includes,
    is_error_on_files, is_flags_base, resolve_files, resolved_files, FilePatterns, FilePatternsView,
};
use crate::text::same_text;

verus! {

/// A setting that a flag overrides.
pub open spec fn overridden<T>(flag: Option<T>, config: Option<T>) -> Option<T> {
    if flag is Some {
        flag
    } else {
        config
    }
}

/// How `bench` runs as a whole.
#[derive(Debug)]
pub struct WorkspaceBenchOptions {
    pub filter: Option<String>,
    pub json: bool,
    pub no_run: bool,
}

impl WorkspaceBenchOptions {
    /// The options that the flags give.
    pub fn resolve(bench_flags: &BenchFlags) -> (r: WorkspaceBenchOptions)
        ensures
            r.filter == bench_flags.filter,
            r.json == bench_flags.json,
            r.no_run == bench_flags.no_run,
    {
        WorkspaceBenchOptions {
            filter: bench_flags.filter.clone(),
            json: bench_flags.json,
            no_run: bench_flags.no_run,
        }
    }
}

/// What a configuration file says on `bench`.
#[derive(Debug)]
pub struct BenchConfig {
    pub files: FilePatterns,
}

/// How `bench` runs on one member of the workspace.
#[derive(Debug)]
pub struct BenchOptions {
    pub files: FilePatterns,
}

impl DeepView for BenchOptions {
    type V = FilePatternsView;

    open spec fn deep_view(&self) -> FilePatternsView {
        self.files.deep_view()
    }
}

impl BenchOptions {
    /// The configured options as the flags change them.
    pub fn resolve(
        bench_config: BenchConfig,
        bench_flags: &BenchFlags,
        maybe_flags_base: Option<&str>,
    ) -> (r: Result<BenchOptions, CliError>)
        ensures
            gives(
                r,
                resolved_files(
                    bench_config.files.deep_view(),
                    bench_flags.files.includes.deep_view(),
                    bench_flags.files.ignores.deep_view(),
                    maybe_flags_base.deep_view(),
                ),
            ),
    {
        match resolve_files(bench_config.files, &bench_flags.files, maybe_flags_base) {
            Ok(files) => Ok(BenchOptions { files }),
            Err(error) => Err(error),
        }
    }
}

/// How prose is wrapped.
#[derive(Clone, Copy, Debug, PartialEq, Eq, Structural)]
pub enum ProseWrap {
    Always,
    Never,
    Preserve,
}

/// The formatting options.
#[derive(Clone, Copy, Debug)]
pub struct FmtOptionsConfig {
    pub use_tabs: Option<bool>,
    pub line_width: Option<u32>,
    pub indent_width: Option<u8>,
    pub single_quote: Option<bool>,
    pub prose_wrap: Option<ProseWrap>,
    pub semi_colons: Option<bool>,
}

/// Formatting options of which none is set.
pub open spec fn unset_fmt_options() -> FmtOptionsConfig {
    FmtOptionsConfig {
        use_tabs: None,
        line_width: None,
        indent_width: None,
        single_quote: None,
        prose_wrap: None,
        semi_colons: None,
    }
}

impl Default for FmtOptionsConfig {
    fn default() -> (r: FmtOptionsConfig)
        ensures
            r == unset_fmt_options(),
    {
        FmtOptionsConfig {
            use_tabs: None,
            line_width: None,
            indent_width: None,
            single_quote: None,
            prose_wrap: None,
            semi_colons: None,
        }
    }
}

/// The wrapping that a word stands for.
pub open spec fn prose_wrap_of(text: Seq<char>) -> Option<ProseWrap> {
    if text == "always"@ {
        Some(ProseWrap::Always)
    } else if text == "never"@ {
        Some(ProseWrap::Never)
    } else if text == "preserve"@ {
        Some(ProseWrap::Preserve)
    } else {
        None
    }
}

/// Whether the formatting flags are as the command line parser leaves them: the
/// wrapping, if given, is one of the known words.
pub open spec fn is_valid_fmt_flags(flags: FmtFlags) -> bool {
    flags.prose_wrap matches Some(text) ==> prose_wrap_of(text@) is Some
}

/// Whether the wrapping that the formatting flags give, if any, is known.
pub fn has_known_prose_wrap(flags: &FmtFlags) -> (r: bool)
    ensures
        r == is_valid_fmt_flags(*flags),
{
    match &flags.prose_wrap {
        Some(text) => {
            same_text(text.as_str(), "always") || same_text(text.as_str(), "never") || same_text(
                text.as_str(),
                "preserve",
            )
        },
        None => true,
    }
}

/// The configured formatting options as the flags change them.
pub open spec fn resolved_fmt_options(
    flags: FmtFlags,
    options: FmtOptionsConfig,
) -> FmtOptionsConfig {
    FmtOptionsConfig {
        use_tabs: overridden(flags.use_tabs, options.use_tabs),
        line_width: overridden(flags.line_width, options.line_width),
        indent_width: overridden(flags.indent_width, options.indent_width),
        single_quote: overridden(flags.single_quote, options.single_quote),
        prose_wrap: match flags.prose_wrap {
            Some(text) => prose_wrap_of(text@),
            None => options.prose_wrap,
        },
        semi_colons: match flags.no_semicolons {
            Some(no_semicolons) => Some(!no_semicolons),
            None => options.semi_colons,
        },
    }
}

/// The configured formatting options as the flags change them.
pub fn resolve_fmt_options(fmt_flags: &FmtFlags, config: FmtOptionsConfig) -> (r: FmtOptionsConfig)
    requires
        is_valid_fmt_flags(*fmt_flags),
    ensures
        r == resolved_fmt_options(*fmt_flags, config),
{
    let mut options: FmtOptionsConfig = config;
    if let Some(use_tabs) = fmt_flags.use_tabs {
        options.use_tabs = Some(use_tabs);
    }
    if let Some(line_width) = fmt_flags.line_width {
        options.line_width = Some(line_width);
    }
    if let Some(indent_width) = fmt_flags.indent_width {
        options.indent_width = Some(indent_width);
    }
    if let Some(single_quote) = fmt_flags.single_quote {
        options.single_quote = Some(single_quote);
    }
    if let Some(prose_wrap) = &fmt_flags.prose_wrap {
        let prose_wrap: ProseWrap = if same_text(prose_wrap.as_str(), "always") {
            ProseWrap::Always
        } else if same_text(prose_wrap.as_str(), "never") {
            ProseWrap::Never
        } else {
            ProseWrap::Preserve
        };
        options.prose_wrap = Some(prose_wrap);
    }
    if let Some(no_semicolons) = fmt_flags.no_semicolons {
        options.semi_colons = Some(!no_semicolons);
    }
    options
}

/// What a configuration file says on `fmt`.
#[derive(Debug)]
pub struct FmtConfig {
    pub options: FmtOptionsConfig,
    pub files: FilePatterns,
}

/// How `fmt` runs on one member of the workspace.
#[derive(Debug)]
pub struct FmtOptions {
    pub options: FmtOptionsConfig,
    pub files: FilePatterns,
}

/// How `fmt` runs on one member of the workspace.
pub ghost struct FmtOptionsView {
    pub options: FmtOptionsConfig,
    pub files: FilePatternsView,
}

impl DeepView for FmtConfig {
    type V = FmtOptionsView;

    open spec fn deep_view(&self) -> FmtOptionsView {
        FmtOptionsView { options: self.options, files: self.files.deep_view() }
    }
}

impl DeepView for FmtOptions {
    type V = FmtOptionsView;

    open spec fn deep_view(&self) -> FmtOptionsView {
        FmtOptionsView { options: self.options, files: self.files.deep_view() }
    }
}

/// The configured `fmt` options as the flags change them.
pub open spec fn resolved_fmt(
    config: FmtOptionsView,
    flags: FmtFlags,
    flags_base: Option<Seq<char>>,
) -> Result<FmtOptionsView, Seq<char>> {
    match resolved_files(
        config.files,
        flags.files.includes.deep_view(),
        flags.files.ignores.deep_view(),
        flags_base,
    ) {
        Ok(files) => Ok(
            FmtOptionsView { options: resolved_fmt_options(flags, config.options), files },
        ),
        Err(message) => Err(message),
    }
}

impl Default for FmtOptions {
    fn default() -> (r: FmtOptions)
        ensures
            r.deep_view() == (FmtOptionsView {
                options: unset_fmt_options(),
                files: all_files_below("/"@),
            }),
    {
        FmtOptions::new_with_base("/".to_owned())
    }
}

impl FmtOptions {
    /// The default options, on every file below `base`.
    pub fn new_with_base(base: String) -> (r: FmtOptions)
        ensures
            r.deep_view() == (FmtOptionsView {
                options: unset_fmt_options(),
                files: all_files_below(base@),
            }),
    {
        FmtOptions {
            options: FmtOptionsConfig::default(),
            files: FilePatterns::new_with_base(base),
        }
    }

    /// The configured options as the flags change them.
    pub fn resolve(
        fmt_config: FmtConfig,
        fmt_flags: &FmtFlags,
        maybe_flags_base: Option<&str>,
    ) -> (r: Result<FmtOptions, CliError>)
        requires
            is_valid_fmt_flags(*fmt_flags),
        ensures
            gives(
                r,
                resolved_fmt(fmt_config.deep_view(), *fmt_flags, maybe_flags_base.deep_view()),
            ),
    {
        let options: FmtOptionsConfig = resolve_fmt_options(fmt_flags, fmt_config.options);
        match resolve_files(fmt_config.files, &fmt_flags.files, maybe_flags_base) {
            Ok(files) => Ok(FmtOptions { options, files }),
            Err(error) => Err(error),
        }
    }
}

/// How `test` runs as a whole.
#[derive(Debug)]
pub struct WorkspaceTestOptions {
    pub doc: bool,
    pub no_run: bool,
    pub fail_fast: Option<NonZeroUsize>,
    pub allow_none: bool,
    pub filter: Option<String>,
    pub shuffle: Option<u64>,
    pub concurrent_jobs: NonZeroUsize,
    pub trace_leaks: bool,
    pub reporter: TestReporterConfig,
    pub junit_path: Option<String>,
}

impl WorkspaceTestOptions {
    /// The options that the flags give. Without a number of jobs there is one.
    pub fn resolve(test_flags: &TestFlags) -> (r: WorkspaceTestOptions)
        ensures
            r.doc == test_flags.doc,
            r.no_run == test_flags.no_run,
            r.fail_fast == test_flags.fail_fast,
            r.allow_none == test_flags.allow_none,
            r.filter == test_flags.filter,
            r.shuffle == test_flags.shuffle,
            r.concurrent_jobs.number() == (match test_flags.concurrent_jobs {
                Some(jobs) => jobs.number(),
                None => 1,
            }),
            r.trace_leaks == test_flags.trace_leaks,
            r.reporter == test_flags.reporter,
            r.junit_path == test_flags.junit_path,
    {
        WorkspaceTestOptions {
            allow_none: test_flags.allow_none,
            concurrent_jobs: match test_flags.concurrent_jobs {
                Some(jobs) => jobs,
                None => NonZeroUsize::one(),
            },
            doc: test_flags.doc,
            fail_fast: test_flags.fail_fast,
            filter: test_flags.filter.clone(),
            no_run: test_flags.no_run,
            shuffle: test_flags.shuffle,
            trace_leaks: test_flags.trace_leaks,
            reporter: test_flags.reporter,
            junit_path: test_flags.junit_path.clone(),
        }
    }
}

/// What a configuration file says on `test`.
#[derive(Debug)]
pub struct TestConfig {
    pub files: FilePatterns,
}

/// How `test` runs on one member of the workspace.
#[derive(Debug)]
pub struct TestOptions {
    pub files: FilePatterns,
}

impl DeepView for TestOptions {
    type V = FilePatternsView;

    open spec fn deep_view(&self) -> FilePatternsView {
        self.files.deep_view()
    }
}

impl TestOptions {
    /// The configured options as the flags change them.
    pub fn resolve(
        test_config: TestConfig,
        test_flags: &TestFlags,
        maybe_flags_base: Option<&str>,
    ) -> (r: Result<TestOptions, CliError>)
        ensures
            gives(
                r,
                resolved_files(
                    test_config.files.deep_view(),
                    test_flags.files.includes.deep_view(),
                    test_flags.files.ignores.deep_view(),
                    maybe_flags_base.deep_view(),
                ),
            ),
    {
        match resolve_files(test_config.files, &test_flags.files, maybe_flags_base) {
            Ok(files) => Ok(TestOptions { files }),
            Err(error) => Err(error),
        }
    }
}

/// How lint diagnostics are reported.
#[derive(Clone, Copy, Debug, PartialEq, Eq, Structural)]
pub enum LintReporterKind {
    Pretty,
    Json,
    Compact,
}

impl Default for LintReporterKind {
    fn default() -> (r: LintReporterKind)
        ensures
            r == LintReporterKind::Pretty,
    {
        LintReporterKind::Pretty
    }
}

/// What the workspace's configuration says on `lint` as a whole.
#[derive(Debug)]
pub struct WorkspaceLintConfig {
    pub report: Option<String>,
}

/// How `lint` runs as a whole.
#[derive(Clone, Copy, Debug)]
pub struct WorkspaceLintOptions {
    pub reporter_kind: LintReporterKind,
}

/// The reporter that a word in a configuration file stands for.
pub open spec fn reporter_of(text: Seq<char>) -> Option<LintReporterKind> {
    if text == "json"@ {
        Some(LintReporterKind::Json)
    } else if text == "compact"@ {
        Some(LintReporterKind::Compact)
    } else if text == "pretty"@ {
        Some(LintReporterKind::Pretty)
    } else {
        None
    }
}

/// The reporter in use: that of the flags, else that of the configuration, else
/// the pretty one. Nothing where the configuration decides and names none.
pub open spec fn chosen_reporter(
    json: bool,
    compact: bool,
    report: Option<Seq<char>>,
) -> Option<LintReporterKind> {
    if json {
        Some(LintReporterKind::Json)
    } else if compact {
        Some(LintReporterKind::Compact)
    } else {
        match report {
            Some(text) => reporter_of(text),
            None => Some(LintReporterKind::Pretty),
        }
    }
}

impl WorkspaceLintOptions {
    /// The options that flags and configuration give.
    pub fn resolve(lint_config: &WorkspaceLintConfig, lint_flags: &LintFlags) -> (r: Result<
        WorkspaceLintOptions,
        CliError,
    >)
        ensures
            match chosen_reporter(
                lint_flags.json,
                lint_flags.compact,
                lint_config.report.deep_view(),
            ) {
                Some(kind) => r is Ok && r->Ok_0.reporter_kind == kind,
                None => r is Err && r->Err_0@ == (
                    "Invalid lint report type in config file"@,
                    None::<Seq<char>>,
                ),
            },
    {
        let mut maybe_reporter_kind: Option<LintReporterKind> = if lint_flags.json {
            Some(LintReporterKind::Json)
        } else if lint_flags.compact {
            Some(LintReporterKind::Compact)
        } else {
            None
        };
        if maybe_reporter_kind.is_none() {
            if let Some(report) = &lint_config.report {
                if same_text(report.as_str(), "json") {
                    maybe_reporter_kind = Some(LintReporterKind::Json);
                } else if same_text(report.as_str(), "compact") {
                    maybe_reporter_kind = Some(LintReporterKind::Compact);
                } else if same_text(report.as_str(), "pretty") {
                    maybe_reporter_kind = Some(LintReporterKind::Pretty);
                } else {
                    return Err(CliError::new("Invalid lint report type in config file"));
                }
            }
        }
        let reporter_kind: LintReporterKind = match maybe_reporter_kind {
            Some(kind) => kind,
            None => LintReporterKind::default(),
        };
        Ok(WorkspaceLintOptions { reporter_kind })
    }
}

/// Which lint rules apply.
#[derive(Debug)]
pub struct LintRulesConfig {
    pub tags: Option<Vec<String>>,
    pub includes: Option<Vec<String>>,
    pub exclude: Option<Vec<String>>,
}

/// Which lint rules apply.
pub ghost struct LintRulesView {
    pub tags: Option<Seq<Seq<char>>>,
    pub includes: Option<Seq<Seq<char>>>,
    pub exclude: Option<Seq<Seq<char>>>,
}

impl DeepView for LintRulesConfig {
    type V = LintRulesView;

    open spec fn deep_view(&self) -> LintRulesView {
        LintRulesView {
            tags: self.tags.deep_view(),
            includes: self.includes.deep_view(),
            exclude: self.exclude.deep_view(),
        }
    }
}

/// The configured rules as the flags change them, each list for itself.
pub open spec fn resolved_lint_rules(config: LintRulesView, flags: LintRulesView) -> LintRulesView {
    LintRulesView {
        tags: overridden(flags.tags, config.tags),
        includes: overridden(flags.includes, config.includes),
        exclude: overridden(flags.exclude, config.exclude),
    }
}

/// The rules that the flags name.
pub open spec fn lint_rules_of_flags(flags: LintFlags) -> LintRulesView {
    LintRulesView {
        tags: flags.maybe_rules_tags.deep_view(),
        includes: flags.maybe_rules_include.deep_view(),
        exclude: flags.maybe_rules_exclude.deep_view(),
    }
}

/// Resolves the configured rules. Flags take precedence over the configuration
/// file: if both have a list of rules to leave out, only that of the flags is
/// taken into account.
pub fn resolve_lint_rules_options(
    config_rules: LintRulesConfig,
    maybe_rules_tags: Option<Vec<String>>,
    maybe_rules_include: Option<Vec<String>>,
    maybe_rules_exclude: Option<Vec<String>>,
) -> (r: LintRulesConfig)
    ensures
        r.deep_view() == resolved_lint_rules(
            config_rules.deep_view(),
            (LintRulesView {
                tags: maybe_rules_tags.deep_view(),
                includes: maybe_rules_include.deep_view(),
                exclude: maybe_rules_exclude.deep_view(),
            }),
        ),
{
    LintRulesConfig {
        tags: match maybe_rules_tags {
            Some(tags) => Some(tags),
            None => config_rules.tags,
        },
        includes: match maybe_rules_include {
            Some(rules) => Some(rules),
            None => config_rules.includes,
        },
        exclude: match maybe_rules_exclude {
            Some(rules) => Some(rules),
            None => config_rules.exclude,
        },
    }
}

/// What a configuration file says on `lint`.
#[derive(Debug)]
pub struct LintConfig {
    pub rules: LintRulesConfig,
    pub files: FilePatterns,
}

/// How `lint` runs on one member of the workspace.
#[derive(Debug)]
pub struct LintOptions {
    pub rules: LintRulesConfig,
    pub files: FilePatterns,
    pub fix: bool,
}

/// How `lint` runs on one member of the workspace.
pub ghost struct LintOptionsView {
    pub rules: LintRulesView,
    pub files: FilePatternsView,
    pub fix: bool,
}

impl DeepView for LintOptions {
    type V = LintOptionsView;

    open spec fn deep_view(&self) -> LintOptionsView {
        LintOptionsView {
            rules: self.rules.deep_view(),
            files: self.files.deep_view(),
            fix: self.fix,
        }
    }
}

/// Default `lint` options on every file below `base`.
pub open spec fn default_lint_options(base: Seq<char>) -> LintOptionsView {
    LintOptionsView {
        rules: LintRulesView { tags: None, includes: None, exclude: None },
        files: all_files_below(base),
        fix: false,
    }
}

/// The configured `lint` options as the flags change them.
pub open spec fn resolved_lint(
    config: LintConfig,
    flags: LintFlags,
    flags_base: Option<Seq<char>>,
) -> Result<LintOptionsView, Seq<char>> {
    match resolved_files(
        config.files.deep_view(),
        flags.files.includes.deep_view(),
        flags.files.ignores.deep_view(),
        flags_base,
    ) {
        Ok(files) => Ok(
            LintOptionsView {
                rules: resolved_lint_rules(config.rules.deep_view(), lint_rules_of_flags(flags)),
                files,
                fix: flags.fix,
            },
        ),
        Err(message) => Err(message),
    }
}

impl Default for LintOptions {
    fn default() -> (r: LintOptions)
        ensures
            r.deep_view() == default_lint_options("/"@),
    {
        LintOptions::new_with_base("/".to_owned())
    }
}

impl LintOptions {
    /// The default options, on every file below `base`.
    pub fn new_with_base(base: String) -> (r: LintOptions)
        ensures
            r.deep_view() == default_lint_options(base@),
    {
        LintOptions {
            rules: LintRulesConfig { tags: None, includes: None, exclude: None },
            files: FilePatterns::new_with_base(base),
            fix: false,
        }
    }

    /// The configured options as the flags change them.
    pub fn resolve(
        lint_config: LintConfig,
        lint_flags: &LintFlags,
        maybe_flags_base: Option<&str>,
    ) -> (r: Result<LintOptions, CliError>)
        ensures
            gives(r, resolved_lint(lint_config, *lint_flags, maybe_flags_base.deep_view())),
    {
        match resolve_files(lint_config.files, &lint_flags.files, maybe_flags_base) {
            Ok(files) => Ok(
                LintOptions {
                    files,
                    rules: resolve_lint_rules_options(
                        lint_config.rules,
                        lint_flags.maybe_rules_tags.clone(),
                        lint_flags.maybe_rules_include.clone(),
                        lint_flags.maybe_rules_exclude.clone(),
                    ),
                    fix: lint_flags.fix,
                },
            ),
            Err(error) => Err(error),
        }
    }
}

/// A reporter that the flags ask for is used whatever the configuration says.
pub proof fn law_reporter_flags_take_precedence(
    json: bool,
    compact: bool,
    report: Option<Seq<char>>,
    other: Option<Seq<char>>,
)
    requires
        json || compact,
    ensures
        chosen_reporter(json, compact, report) is Some,
        chosen_reporter(json, compact, report) == chosen_reporter(json, compact, other),
{
}

/// A list of rules that the flags give hides the configured list, and without
/// such flags the configured rules stand.
pub proof fn law_rule_flags_take_precedence(
    config: LintRulesView,
    other: LintRulesView,
    flags: LintRulesView,
)
    ensures
        flags.tags is Some && flags.includes is Some && flags.exclude is Some
            ==> resolved_lint_rules(config, flags) == flags,
        flags.tags is None && flags.includes is None && flags.exclude is None
            ==> resolved_lint_rules(config, flags) == config,
        flags.exclude is Some && config.tags == other.tags && config.includes == other.includes
            ==> resolved_lint_rules(config, flags) == resolved_lint_rules(other, flags),
{
}

/// Formatting flags override the configured options one by one: a second
/// resolution with the same flags changes nothing.
pub proof fn law_fmt_flags_settle(flags: FmtFlags, options: FmtOptionsConfig)
    ensures
        resolved_fmt_options(flags, resolved_fmt_options(flags, options)) == resolved_fmt_options(
            flags,
            options,
        ),
{
}

/// Whether a setting is that of a flag if it is given, and the configured one otherwise.
pub open spec fn is_setting_of<T>(setting: Option<T>, flag: Option<T>, config: Option<T>) -> bool {
    (flag is Some ==> setting == flag) && (flag is None ==> setting == config)
}

/// Whether formatting options are the configured ones as the flags change them, each by
/// itself. The flag on semicolons says the opposite of the option.
pub open spec fn are_fmt_options_of(
    options: FmtOptionsConfig,
    config: FmtOptionsConfig,
    flags: FmtFlags,
) -> bool {
    &&& is_setting_of(options.use_tabs, flags.use_tabs, config.use_tabs)
    &&& is_setting_of(options.line_width, flags.line_width, config.line_width)
    &&& is_setting_of(options.indent_width, flags.indent_width, config.indent_width)
    &&& is_setting_of(options.single_quote, flags.single_quote, config.single_quote)
    &&& flags.no_semicolons is None ==> options.semi_colons == config.semi_colons
    &&& flags.no_semicolons == Some(true) ==> options.semi_colons == Some(false)
    &&& flags.no_semicolons == Some(false) ==> options.semi_colons == Some(true)
    &&& flags.prose_wrap is None ==> options.prose_wrap == config.prose_wrap
    &&& flags.prose_wrap matches Some(word) ==> {
        &&& word@ == "always"@ ==> options.prose_wrap == Some(ProseWrap::Always)
        &&& word@ == "never"@ ==> options.prose_wrap == Some(ProseWrap::Never)
        &&& word@ == "preserve"@ ==> options.prose_wrap == Some(ProseWrap::Preserve)
    }
}

proof fn lemma_words_differ()
    ensures
        "always"@ != "never"@,
        "always"@ != "preserve"@,
        "never"@ != "preserve"@,
        "json"@ != "compact"@,
        "json"@ != "pretty"@,
        "compact"@ != "pretty"@,
{
    reveal_strlit("always");
    reveal_strlit("never");
    reveal_strlit("preserve");
    reveal_strlit("json");
    reveal_strlit("compact");
    reveal_strlit("pretty");
    assert("always"@[0] == 'a');
    assert("never"@[0] == 'n');
    assert("preserve"@[0] == 'p');
    assert("json"@[0] == 'j');
    assert("compact"@[0] == 'c');
    assert("pretty"@[0] == 'p');
}

/// Each formatting option is that of its flag if the flag is given, and the configured
/// one otherwise.
pub proof fn law_fmt_options_one_by_one(
    flags: &FmtFlags,
    config: FmtOptionsConfig,
    r: FmtOptionsConfig,
)
    requires
        call_ensures(resolve_fmt_options, (flags, config), r),
    ensures
        are_fmt_options_of(r, config, *flags),
{
    lemma_words_differ();
}

/// A wrapping of prose is known exactly where it is one of three words.
pub proof fn law_known_prose_wrap(flags: &FmtFlags, r: bool)
    requires
        call_ensures(has_known_prose_wrap, (flags,), r),
    ensures
        r <==> flags.prose_wrap is None || flags.prose_wrap->0@ == "always"@
            || flags.prose_wrap->0@ == "never"@ || flags.prose_wrap->0@ == "preserve"@,
{
}

/// Whether rules are the configured ones as the flags change them, each list by itself.
pub open spec fn are_rules_of(
    rules: LintRulesView,
    config: LintRulesView,
    flags: LintFlags,
) -> bool {
    &&& is_setting_of(rules.tags, flags.maybe_rules_tags.deep_view(), config.tags)
    &&& is_setting_of(rules.includes, flags.maybe_rules_include.deep_view(), config.includes)
    &&& is_setting_of(rules.exclude, flags.maybe_rules_exclude.deep_view(), config.exclude)
}

/// Each list of rules is that of its flag if the flag is given, and the configured one
/// otherwise.
pub proof fn law_rules_one_by_one(
    config: LintRulesConfig,
    tags: Option<Vec<String>>,
    includes: Option<Vec<String>>,
    exclude: Option<Vec<String>>,
    r: LintRulesConfig,
)
    requires
        call_ensures(resolve_lint_rules_options, (config, tags, includes, exclude), r),
    ensures
        is_setting_of(r.tags.deep_view(), tags.deep_view(), config.tags.deep_view()),
        is_setting_of(r.includes.deep_view(), includes.deep_view(), config.includes.deep_view()),
        is_setting_of(r.exclude.deep_view(), exclude.deep_view(), config.exclude.deep_view()),
{
}

/// The files to bench: those of the configuration as the command line changes them.
pub proof fn law_bench_options(
    config: BenchConfig,
    flags: &BenchFlags,
    flags_base: Option<&str>,
    base: Seq<char>,
    r: Result<BenchOptions, CliError>,
)
    requires
        call_ensures(BenchOptions::resolve, (config, flags, flags_base), r),
        is_flags_base(base, flags_base, config.files.base@),
    ensures
        r matches Ok(options) ==> are_files_of(
            options.files.deep_view(),
            config.files.deep_view(),
            flags.files,
            base,
        ),
        r is Err <==> has_invalid_includes(flags.files, base) || has_invalid_ignores(
            flags.files,
            base,
        ),
        r matches Err(error) ==> is_error_on_files(error, flags.files, base),
{
    lemma_words_differ();
}

/// The files to test: those of the configuration as the command line changes them.
pub proof fn law_test_options(
    config: TestConfig,
    flags: &TestFlags,
    flags_base: Option<&str>,
    base: Seq<char>,
    r: Result<TestOptions, CliError>,
)
    requires
        call_ensures(TestOptions::resolve, (config, flags, flags_base), r),
        is_flags_base(base, flags_base, config.files.base@),
    ensures
        r matches Ok(options) ==> are_files_of(
            options.files.deep_view(),
            config.files.deep_view(),
            flags.files,
            base,
        ),
        r is Err <==> has_invalid_includes(flags.files, base) || has_invalid_ignores(
            flags.files,
            base,
        ),
        r matches Err(error) ==> is_error_on_files(error, flags.files, base),
{
    lemma_words_differ();
}

/// The files to format, those of the configuration as the command line changes them, and
/// how they are formatted.
pub proof fn law_fmt_options(
    config: FmtConfig,
    flags: &FmtFlags,
    flags_base: Option<&str>,
    base: Seq<char>,
    r: Result<FmtOptions, CliError>,
)
    requires
        is_valid_fmt_flags(*flags),
        call_ensures(FmtOptions::resolve, (config, flags, flags_base), r),
        is_flags_base(base, flags_base, config.files.base@),
    ensures
        r matches Ok(options) ==> are_files_of(
            options.files.deep_view(),
            config.files.deep_view(),
            flags.files,
            base,
        ) && are_fmt_options_of(options.options, config.options, *flags),
        r is Err <==> has_invalid_includes(flags.files, base) || has_invalid_ignores(
            flags.files,
            base,
        ),
        r matches Err(error) ==> is_error_on_files(error, flags.files, base),
{
    lemma_words_differ();
}

/// The files to lint, those of the configuration as the command line changes them, by
/// which rules, and whether problems are fixed, which the flag alone decides.
pub proof fn law_lint_options(
    config: LintConfig,
    flags: &LintFlags,
    flags_base: Option<&str>,
    base: Seq<char>,
    r: Result<LintOptions, CliError>,
)
    requires
        call_ensures(LintOptions::resolve, (config, flags, flags_base), r),
        is_flags_base(base, flags_base, config.files.base@),
    ensures
        r matches Ok(options) ==> are_files_of(
            options.files.deep_view(),
            config.files.deep_view(),
            flags.files,
            base,
        ) && options.fix == flags.fix && are_rules_of(
            options.rules.deep_view(),
            config.rules.deep_view(),
            *flags,
        ),
        r is Err <==> has_invalid_includes(flags.files, base) || has_invalid_ignores(
            flags.files,
            base,
        ),
        r matches Err(error) ==> is_error_on_files(error, flags.files, base),
{
    lemma_words_differ();
}

/// The reporter of lint problems: JSON if that flag is given; else compact if that one
/// is; else the one that the configuration names, which is an error if it names none;
/// else the pretty one.
pub proof fn law_lint_reporter(
    config: &WorkspaceLintConfig,
    flags: &LintFlags,
    r: Result<WorkspaceLintOptions, CliError>,
)
    requires
        call_ensures(WorkspaceLintOptions::resolve, (config, flags), r),
    ensures
        flags.json ==> r is Ok && r->Ok_0.reporter_kind is Json,
        !flags.json && flags.compact ==> r is Ok && r->Ok_0.reporter_kind is Compact,
        !flags.json && !flags.compact && config.report is None ==> r is Ok
            && r->Ok_0.reporter_kind is Pretty,
        !flags.json && !flags.compact ==> (config.report matches Some(word) ==> {
            &&& word@ == "json"@ ==> r is Ok && r->Ok_0.reporter_kind is Json
            &&& word@ == "compact"@ ==> r is Ok && r->Ok_0.reporter_kind is Compact
            &&& word@ == "pretty"@ ==> r is Ok && r->Ok_0.reporter_kind is Pretty
            &&& word@ != "json"@ && word@ != "compact"@ && word@ != "pretty"@ ==> r is Err
                && r->Err_0.message@ == "Invalid lint report type in config file"@
        }),
{
    lemma_words_differ();
}

/// How tests run as a whole is what the flags say, with one job unless they give a
/// number.
pub proof fn law_workspace_test_options(flags: &TestFlags, r: WorkspaceTestOptions)
    requires
        call_ensures(WorkspaceTestOptions::resolve, (flags,), r),
    ensures
        flags.concurrent_jobs is None ==> r.concurrent_jobs.number() == 1,
        flags.concurrent_jobs matches Some(jobs) ==> r.concurrent_jobs.number() == jobs.number(),
        r.doc == flags.doc && r.no_run == flags.no_run && r.allow_none == flags.allow_none
            && r.trace_leaks == flags.trace_leaks,
        r.fail_fast == flags.fail_fast && r.shuffle == flags.shuffle && r.reporter
            == flags.reporter,
        r.filter == flags.filter && r.junit_path == flags.junit_path,
{
}

/// How benches run as a whole is what the flags say.
pub proof fn law_workspace_bench_options(flags: &BenchFlags, r: WorkspaceBenchOptions)
    requires
        call_ensures(WorkspaceBenchOptions::resolve, (flags,), r),
    ensures
        r.filter == flags.filter && r.json == flags.json && r.no_run == flags.no_run,
{
}

/// By default nothing is set, no rule is named, nothing is fixed, and all files below
/// the base are worked on.
pub proof fn law_default_options(base: String, fmt: FmtOptions, lint: LintOptions)
    requires
        call_ensures(FmtOptions::new_with_base, (base,), fmt),
        call_ensures(LintOptions::new_with_base, (base,), lint),
    ensures
        fmt.files.base@ == base@ && fmt.files.includes is None && fmt.files.deep_view().exclude
            == Seq::<Seq<char>>::empty(),
        fmt.options.use_tabs is None && fmt.options.line_width is None
            && fmt.options.indent_width is None && fmt.options.single_quote is None
            && fmt.options.prose_wrap is None && fmt.options.semi_colons is None,
        lint.files.base@ == base@ && lint.files.includes is None && lint.files.deep_view().exclude
            == Seq::<Seq<char>>::empty(),
        lint.rules.tags is None && lint.rules.includes is None && lint.rules.exclude is None,
        !lint.fix,
{
}

} // verus!
