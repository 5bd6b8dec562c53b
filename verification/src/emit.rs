//! Compiler options, and what they mean for transpiling and emitting.

use deno_config::deno_json::{
    get_ts_config_for_emit, ConfigFile as File, EmitConfigOptions as Options,
    TsConfigType as Purpose, TsTypeLib as Lib,
};
use serde_json::{from_str, from_value, Value};
use std::collections::BTreeMap;
use vstd::prelude::*;

use crate::config::DenoJson;
use crate::config_file::{config_file_error, config_file_source, parse_config_file};
use crate::error::CliError;
use crate::text::same_text;

verus! {

/// What compiler options are for.
#[derive(Clone, Copy, Debug, PartialEq, Eq, Structural)]
pub enum TsConfigType {
    /// Bundling.
    Bundle,
    /// Type checking against the library for windows or that for workers.
    Check(TsTypeLib),
    /// Emitting single modules.
    Emit,
}

/// The type library that code is checked against by default.
#[derive(Clone, Copy, Debug, PartialEq, Eq, Structural)]
pub enum TsTypeLib {
    DenoWindow,
    DenoWorker,
}

/// Compiler options: their names with their values, written as JSON.
#[derive(Debug)]
pub struct TsConfig {
    pub entries: Vec<(String, String)>,
}

/// Compiler options, with a message on those of the configuration file that
/// were ignored.
#[derive(Debug)]
pub struct TsConfigForEmit {
    pub ts_config: TsConfig,
    pub maybe_ignored_options: Option<String>,
}

/// The value of an option. Of two entries with one name the last counts.
pub open spec fn option_value(entries: Seq<(Seq<char>, Seq<char>)>, name: Seq<char>) -> Option<
    Seq<char>,
>
    decreases entries.len(),
{
    if entries.len() == 0 {
        None
    } else if entries.last().0 == name {
        Some(entries.last().1)
    } else {
        option_value(entries.drop_last(), name)
    }
}

/// Options by name.
pub open spec fn options_by_name(entries: Seq<(Seq<char>, Seq<char>)>) -> Map<
    Seq<char>,
    Seq<char>,
> {
    Map::new(
        |name: Seq<char>| option_value(entries, name) is Some,
        |name: Seq<char>| option_value(entries, name)->0,
    )
}

impl DeepView for TsConfig {
    type V = Map<Seq<char>, Seq<char>>;

    open spec fn deep_view(&self) -> Map<Seq<char>, Seq<char>> {
        options_by_name(self.entries.deep_view())
    }
}

/// The compiler options for some purpose with those of a configuration file,
/// given by its text and its URL, merged in, and the message on what was
/// ignored; or the message of an error.
pub uninterp spec fn merged_options(
    config_type: TsConfigType,
    config: Option<(Seq<char>, Seq<char>)>,
) -> Result<(Map<Seq<char>, Seq<char>>, Option<Seq<char>>), Seq<char>>;

/// What is significant for emitting among compiler options, or the message on
/// options that lack some of it or hold a value that is malformed.
pub uninterp spec fn emit_options_of(options: Map<Seq<char>, Seq<char>>) -> Result<
    EmitConfigView,
    Seq<char>,
>;

/// The option for TypeScript's own decorators.
pub const EXPERIMENTAL_DECORATORS: &'static str = "experimentalDecorators";

/// `deno_config::deno_json::get_ts_config_for_emit`: the options depend on the
/// purpose and on the configuration file alone, and the one for decorators is
/// always among them. In which order they come is left open.
#[verifier::external_body]
fn ts_config_for_emit(config_type: TsConfigType, config: Option<&File>) -> (r: Result<
    TsConfigForEmit,
    String,
>)
    ensures
        match r {
            Ok(found) => merged_options(config_type, file_source(config)) == Ok::<
                (Map<Seq<char>, Seq<char>>, Option<Seq<char>>),
                Seq<char>,
            >((found.ts_config.deep_view(), found.maybe_ignored_options.deep_view())),
            Err(message) => merged_options(config_type, file_source(config)) == Err::<
                (Map<Seq<char>, Seq<char>>, Option<Seq<char>>),
                Seq<char>,
            >(message@),
        },
        r matches Ok(found) ==> found.ts_config.deep_view().contains_key(EXPERIMENTAL_DECORATORS@),
{
    let config_type = match config_type {
        TsConfigType::Bundle => Purpose::Bundle,
        TsConfigType::Check(TsTypeLib::DenoWindow) => Purpose::Check { lib: Lib::DenoWindow },
        TsConfigType::Check(TsTypeLib::DenoWorker) => Purpose::Check { lib: Lib::DenoWorker },
        TsConfigType::Emit => Purpose::Emit,
    };
    let found = get_ts_config_for_emit(config_type, config).map_err(|error| error.to_string())?;
    let entries = found.ts_config.0.as_object().into_iter().flatten();
    let entries = entries.map(|(name, value)| (name.clone(), value.to_string())).collect();
    let ignored = found.maybe_ignored_options.map(|options| options.to_string());
    Ok(TsConfigForEmit { ts_config: TsConfig { entries }, maybe_ignored_options: ignored })
}

/// The text and the URL of a configuration file.
pub open spec fn file_source(file: Option<&File>) -> Option<(Seq<char>, Seq<char>)> {
    match file {
        Some(file) => Some(config_file_source(*file)),
        None => None,
    }
}

/// The text and the URL of a configuration file.
pub open spec fn config_source(config: Option<DenoJson>) -> Option<(Seq<char>, Seq<char>)> {
    match config {
        Some(config) => Some((config.text@, config.specifier@)),
        None => None,
    }
}

/// What is significant for emitting among compiler options.
#[derive(Debug)]
pub struct EmitConfigOptions {
    pub experimental_decorators: bool,
    pub emit_decorator_metadata: bool,
    pub imports_not_used_as_values: String,
    pub inline_source_map: bool,
    pub inline_sources: bool,
    pub source_map: bool,
    pub jsx: String,
    pub jsx_factory: String,
    pub jsx_fragment_factory: String,
    pub jsx_import_source: Option<String>,
    pub jsx_precompile_skip_elements: Option<Vec<String>>,
}

/// What is significant for emitting among compiler options.
pub ghost struct EmitConfigView {
    pub experimental_decorators: bool,
    pub emit_decorator_metadata: bool,
    pub imports_not_used_as_values: Seq<char>,
    pub inline_source_map: bool,
    pub inline_sources: bool,
    pub source_map: bool,
    pub jsx: Seq<char>,
    pub jsx_factory: Seq<char>,
    pub jsx_fragment_factory: Seq<char>,
    pub jsx_import_source: Option<Seq<char>>,
    pub jsx_precompile_skip_elements: Option<Seq<Seq<char>>>,
}

impl DeepView for EmitConfigOptions {
    type V = EmitConfigView;

    open spec fn deep_view(&self) -> EmitConfigView {
        EmitConfigView {
            experimental_decorators: self.experimental_decorators,
            emit_decorator_metadata: self.emit_decorator_metadata,
            imports_not_used_as_values: self.imports_not_used_as_values@,
            inline_source_map: self.inline_source_map,
            inline_sources: self.inline_sources,
            source_map: self.source_map,
            jsx: self.jsx@,
            jsx_factory: self.jsx_factory@,
            jsx_fragment_factory: self.jsx_fragment_factory@,
            jsx_import_source: self.jsx_import_source.deep_view(),
            jsx_precompile_skip_elements: self.jsx_precompile_skip_elements.deep_view(),
        }
    }
}

/// `serde_json::from_value` into `deno_config::deno_json::EmitConfigOptions`, on
/// an object made of the options in the order of their names: what is
/// significant, and the message of the error, depend on the options alone, and
/// the option for decorators is taken as it stands.
#[verifier::external_body]
fn parse_emit_options(entries: &Vec<(String, String)>) -> (r: Result<EmitConfigOptions, String>)
    ensures
        match r {
            Ok(options) => emit_options_of(options_by_name(entries.deep_view())) == Ok::<
                EmitConfigView,
                Seq<char>,
            >(options.deep_view()),
            Err(message) => emit_options_of(options_by_name(entries.deep_view())) == Err::<
                EmitConfigView,
                Seq<char>,
            >(message@),
        },
        r is Ok && options_by_name(entries.deep_view()).contains_pair(
            EXPERIMENTAL_DECORATORS@,
            "true"@,
        ) ==> r->Ok_0.experimental_decorators,
{
    let entries: BTreeMap<String, String> = entries.iter().cloned().collect();
    let values = entries.into_iter().map(|(name, value)| Ok((name, from_str::<Value>(&value)?)));
    let object: Result<Value, serde_json::Error> = values.collect();
    let options = object.and_then(from_value::<Options>).map_err(|error| error.to_string())?;
    Ok(EmitConfigOptions {
        experimental_decorators: options.experimental_decorators,
        emit_decorator_metadata: options.emit_decorator_metadata,
        imports_not_used_as_values: options.imports_not_used_as_values,
        inline_source_map: options.inline_source_map, inline_sources: options.inline_sources,
        source_map: options.source_map, jsx: options.jsx,
        jsx_factory: options.jsx_factory, jsx_fragment_factory: options.jsx_fragment_factory,
        jsx_import_source: options.jsx_import_source,
        jsx_precompile_skip_elements: options.jsx_precompile_skip_elements,
    })
}

/// What to do with imports that only types are taken from.
#[derive(Clone, Copy, Debug, PartialEq, Eq, Structural)]
pub enum ImportsNotUsedAsValues {
    Remove,
    Preserve,
    Error,
}

/// Where a source map goes.
#[derive(Clone, Copy, Debug, PartialEq, Eq, Structural)]
pub enum SourceMapOption {
    Inline,
    Separate,
    NoMap,
}

/// How modules are transpiled.
#[derive(Debug)]
pub struct TranspileOptions {
    pub use_ts_decorators: bool,
    pub use_decorators_proposal: bool,
    pub emit_metadata: bool,
    pub imports_not_used_as_values: ImportsNotUsedAsValues,
    pub jsx_automatic: bool,
    pub jsx_development: bool,
    pub jsx_factory: String,
    pub jsx_fragment_factory: String,
    pub jsx_import_source: Option<String>,
    pub precompile_jsx: bool,
    pub precompile_jsx_skip_elements: Option<Vec<String>>,
    pub transform_jsx: bool,
    pub var_decl_imports: bool,
}

/// How modules are transpiled.
pub ghost struct TranspileView {
    pub use_ts_decorators: bool,
    pub use_decorators_proposal: bool,
    pub emit_metadata: bool,
    pub imports_not_used_as_values: ImportsNotUsedAsValues,
    pub jsx_automatic: bool,
    pub jsx_development: bool,
    pub jsx_factory: Seq<char>,
    pub jsx_fragment_factory: Seq<char>,
    pub jsx_import_source: Option<Seq<char>>,
    pub precompile_jsx: bool,
    pub precompile_jsx_skip_elements: Option<Seq<Seq<char>>>,
    pub transform_jsx: bool,
    pub var_decl_imports: bool,
}

impl DeepView for TranspileOptions {
    type V = TranspileView;

    open spec fn deep_view(&self) -> TranspileView {
        TranspileView {
            use_ts_decorators: self.use_ts_decorators,
            use_decorators_proposal: self.use_decorators_proposal,
            emit_metadata: self.emit_metadata,
            imports_not_used_as_values: self.imports_not_used_as_values,
            jsx_automatic: self.jsx_automatic,
            jsx_development: self.jsx_development,
            jsx_factory: self.jsx_factory@,
            jsx_fragment_factory: self.jsx_fragment_factory@,
            jsx_import_source: self.jsx_import_source.deep_view(),
            precompile_jsx: self.precompile_jsx,
            precompile_jsx_skip_elements: self.precompile_jsx_skip_elements.deep_view(),
            transform_jsx: self.transform_jsx,
            var_decl_imports: self.var_decl_imports,
        }
    }
}

/// How modules are emitted.
#[derive(Debug)]
pub struct EmitOptions {
    pub inline_sources: bool,
    pub remove_comments: bool,
    pub source_map: SourceMapOption,
    pub source_map_file: Option<String>,
}

/// What to do with imports that only types are taken from, by the word for it.
pub open spec fn unused_imports_of(text: Seq<char>) -> ImportsNotUsedAsValues {
    if text == "preserve"@ {
        ImportsNotUsedAsValues::Preserve
    } else if text == "error"@ {
        ImportsNotUsedAsValues::Error
    } else {
        ImportsNotUsedAsValues::Remove
    }
}

/// How JSX is handled, by the word for it: whether it is transformed, with
/// automatic imports, for development, or precompiled.
pub open spec fn jsx_mode(jsx: Seq<char>) -> (bool, bool, bool, bool) {
    if jsx == "react"@ {
        (true, false, false, false)
    } else if jsx == "react-jsx"@ {
        (true, true, false, false)
    } else if jsx == "react-jsxdev"@ {
        (true, true, true, false)
    } else if jsx == "precompile"@ {
        (false, false, false, true)
    } else {
        (false, false, false, false)
    }
}

/// How modules are transpiled under compiler options.
pub open spec fn transpile_options(options: EmitConfigView) -> TranspileView {
    let mode = jsx_mode(options.jsx);
    TranspileView {
        use_ts_decorators: options.experimental_decorators,
        use_decorators_proposal: !options.experimental_decorators,
        emit_metadata: options.emit_decorator_metadata,
        imports_not_used_as_values: unused_imports_of(options.imports_not_used_as_values),
        jsx_automatic: mode.1,
        jsx_development: mode.2,
        jsx_factory: options.jsx_factory,
        jsx_fragment_factory: options.jsx_fragment_factory,
        jsx_import_source: options.jsx_import_source,
        precompile_jsx: mode.3,
        precompile_jsx_skip_elements: options.jsx_precompile_skip_elements,
        transform_jsx: mode.0,
        var_decl_imports: false,
    }
}

/// How modules are emitted under compiler options.
pub open spec fn emit_options(options: EmitConfigView) -> EmitOptions {
    EmitOptions {
        inline_sources: options.inline_sources,
        remove_comments: false,
        source_map: if options.inline_source_map {
            SourceMapOption::Inline
        } else if options.source_map {
            SourceMapOption::Separate
        } else {
            SourceMapOption::NoMap
        },
        source_map_file: None,
    }
}

/// How modules are transpiled and emitted, given what is significant among
/// compiler options.
pub fn to_transpile_and_emit_options(options: EmitConfigOptions) -> (r: (
    TranspileOptions,
    EmitOptions,
))
    ensures
        r.0.deep_view() == transpile_options(options.deep_view()),
        r.1 == emit_options(options.deep_view()),
{
    let unused_imports: &str = options.imports_not_used_as_values.as_str();
    let imports_not_used_as_values: ImportsNotUsedAsValues = if same_text(
        unused_imports,
        "preserve",
    ) {
        ImportsNotUsedAsValues::Preserve
    } else if same_text(unused_imports, "error") {
        ImportsNotUsedAsValues::Error
    } else {
        ImportsNotUsedAsValues::Remove
    };
    let jsx: &str = options.jsx.as_str();
    let (transform_jsx, jsx_automatic, jsx_development, precompile_jsx): (bool, bool, bool, bool) =
        if same_text(jsx, "react") {
        (true, false, false, false)
    } else if same_text(jsx, "react-jsx") {
        (true, true, false, false)
    } else if same_text(jsx, "react-jsxdev") {
        (true, true, true, false)
    } else if same_text(jsx, "precompile") {
        (false, false, false, true)
    } else {
        (false, false, false, false)
    };
    let source_map: SourceMapOption = if options.inline_source_map {
        SourceMapOption::Inline
    } else if options.source_map {
        SourceMapOption::Separate
    } else {
        SourceMapOption::NoMap
    };
    (
        TranspileOptions {
            use_ts_decorators: options.experimental_decorators,
            use_decorators_proposal: !options.experimental_decorators,
            emit_metadata: options.emit_decorator_metadata,
            imports_not_used_as_values,
            jsx_automatic,
            jsx_development,
            jsx_factory: options.jsx_factory,
            jsx_fragment_factory: options.jsx_fragment_factory,
            jsx_import_source: options.jsx_import_source,
            precompile_jsx,
            precompile_jsx_skip_elements: options.jsx_precompile_skip_elements,
            transform_jsx,
            var_decl_imports: false,
        },
        EmitOptions {
            inline_sources: options.inline_sources,
            remove_comments: false,
            source_map,
            source_map_file: None,
        },
    )
}

/// How modules are transpiled and emitted under compiler options.
pub fn ts_config_to_transpile_and_emit_options(config: TsConfig) -> (r: Result<
    (TranspileOptions, EmitOptions),
    CliError,
>)
    ensures
        match emit_options_of(config.deep_view()) {
            Ok(options) => {
                &&& r is Ok
                &&& r->Ok_0.0.deep_view() == transpile_options(options)
                &&& r->Ok_0.1 == emit_options(options)
                &&& config.deep_view().contains_pair(EXPERIMENTAL_DECORATORS@, "true"@)
                    ==> options.experimental_decorators
            },
            Err(message) => r is Err && r->Err_0@ == (
                "Failed to parse compilerOptions"@,
                Some(message),
            ),
        },
{
    match parse_emit_options(&config.entries) {
        Ok(options) => Ok(to_transpile_and_emit_options(options)),
        Err(message) => Err(
            CliError::with_cause("Failed to parse compilerOptions", message.as_str()),
        ),
    }
}

/// Sets an option that is there.
fn set_option(config: TsConfig, name: &str, value: &str) -> (r: TsConfig)
    requires
        config.deep_view().contains_key(name@),
    ensures
        r.deep_view() == config.deep_view().insert(name@, value@),
{
    let mut entries: Vec<(String, String)> = Vec::new();
    let mut i: usize = 0;
    let ghost given = config.entries.deep_view();
    assert(given.take(0) == Seq::<(Seq<char>, Seq<char>)>::empty());
    while i < config.entries.len()
        invariant
            i <= config.entries.len(),
            given == config.entries.deep_view(),
            forall|n: Seq<char>| #[trigger]
                option_value(entries.deep_view(), n) == (if n == name@ && option_value(
                    given.take(i as int),
                    n,
                ) is Some {
                    Some(value@)
                } else {
                    option_value(given.take(i as int), n)
                }),
        decreases config.entries.len() - i,
    {
        let ghost before = entries.deep_view();
        let entry: &(String, String) = &config.entries[i];
        assert(given[i as int] == (entry.0@, entry.1@));
        let new_entry: (String, String) = if same_text(entry.0.as_str(), name) {
            (name.to_owned(), value.to_owned())
        } else {
            (entry.0.clone(), entry.1.clone())
        };
        entries.push(new_entry);
        assert(entries.deep_view() == before.push((new_entry.0@, new_entry.1@)));
        assert(entries.deep_view().drop_last() == before);
        assert(given.take(i + 1).drop_last() == given.take(i as int));
        assert(given.take(i + 1).last() == given[i as int]);
        proof {
            reveal_with_fuel(option_value, 2);
            assert forall|n: Seq<char>| #[trigger]
                option_value(entries.deep_view(), n) == (if n == name@ && option_value(
                    given.take(i + 1),
                    n,
                ) is Some {
                    Some(value@)
                } else {
                    option_value(given.take(i + 1), n)
                }) by {
                assert(option_value(before, n) == option_value(before, n));
            }
        }
        i = i + 1;
    }
    assert(given.take(i as int) == given);
    let r = TsConfig { entries };
    assert(option_value(given, name@) is Some);
    assert(r.deep_view() =~= config.deep_view().insert(name@, value@));
    r
}

/// The compiler options for some purpose with those of a configuration file
/// merged in. For a bundle, TypeScript's own decorators are always on.
pub open spec fn options_for_emit(
    config_type: TsConfigType,
    config: Option<(Seq<char>, Seq<char>)>,
    is_bundle: bool,
) -> Result<(Map<Seq<char>, Seq<char>>, Option<Seq<char>>), Seq<char>> {
    let malformed = match config {
        Some((text, specifier)) => config_file_error(text, specifier),
        None => None,
    };
    match malformed {
        Some(message) => Err(message),
        None => match merged_options(config_type, config) {
            Ok((options, ignored)) => Ok(
                if is_bundle {
                    (options.insert(EXPERIMENTAL_DECORATORS@, "true"@), ignored)
                } else {
                    (options, ignored)
                },
            ),
            Err(message) => Err(message),
        },
    }
}

/// The compiler options for some purpose with those of a configuration file
/// merged in. `is_bundle` says whether modules are bundled, for which
/// TypeScript's own decorators are always on.
pub fn resolve_ts_config_for_emit(
    config_type: TsConfigType,
    config: &Option<DenoJson>,
    is_bundle: bool,
) -> (r: Result<TsConfigForEmit, CliError>)
    ensures
        match options_for_emit(config_type, config_source(*config), is_bundle) {
            Ok((options, ignored)) => {
                &&& r is Ok
                &&& r->Ok_0.ts_config.deep_view() == options
                &&& r->Ok_0.maybe_ignored_options.deep_view() == ignored
                &&& options.contains_key(EXPERIMENTAL_DECORATORS@)
                &&& is_bundle ==> options.contains_pair(EXPERIMENTAL_DECORATORS@, "true"@)
            },
            Err(message) => r is Err && r->Err_0@ == (message, None::<Seq<char>>),
        },
{
    let result: Result<TsConfigForEmit, String> = match config {
        Some(config) => match parse_config_file(&config.text, &config.specifier) {
            Ok(file) => ts_config_for_emit(config_type, Some(&file)),
            Err(message) => Err(message),
        },
        None => ts_config_for_emit(config_type, None),
    };
    match result {
        Ok(found) => {
            if is_bundle {
                let ts_config: TsConfig = set_option(
                    found.ts_config,
                    EXPERIMENTAL_DECORATORS,
                    "true",
                );
                Ok(TsConfigForEmit {
                    ts_config,
                    maybe_ignored_options: found.maybe_ignored_options,
                })
            } else {
                Ok(found)
            }
        },
        Err(message) => Err(CliError::new(message.as_str())),
    }
}

/// JSX is either transformed or precompiled, never both, and automatic imports
/// and development mode only come with the transformation.
pub proof fn law_jsx_modes(options: EmitConfigView)
    ensures
        ({
            let transpile = transpile_options(options);
            &&& !(transpile.transform_jsx && transpile.precompile_jsx)
            &&& transpile.jsx_automatic ==> transpile.transform_jsx
            &&& transpile.jsx_development ==> transpile.jsx_automatic
        }),
{
}

/// Exactly one kind of decorators is in use.
pub proof fn law_one_kind_of_decorators(options: EmitConfigView)
    ensures
        transpile_options(options).use_ts_decorators != transpile_options(
            options,
        ).use_decorators_proposal,
{
}

proof fn lemma_jsx_words_differ()
    ensures
        "react"@ != "react-jsx"@,
        "react"@ != "react-jsxdev"@,
        "react"@ != "precompile"@,
        "react-jsx"@ != "react-jsxdev"@,
        "react-jsx"@ != "precompile"@,
        "react-jsxdev"@ != "precompile"@,
        "preserve"@ != "error"@,
{
    reveal_strlit("react");
    reveal_strlit("react-jsx");
    reveal_strlit("react-jsxdev");
    reveal_strlit("precompile");
    reveal_strlit("preserve");
    reveal_strlit("error");
    assert("react"@.len() == 5 && "react-jsx"@.len() == 9 && "react-jsxdev"@.len() == 12);
    assert("precompile"@.len() == 10);
    assert("preserve"@.len() == 8 && "error"@.len() == 5);
}

/// How modules are transpiled and emitted follows from compiler options one by one.
/// JSX is transformed under the words `react`, `react-jsx` and `react-jsxdev`, with
/// automatic imports under the latter two and for development under the last, and
/// precompiled under the word `precompile`. A source map goes into the module if that is
/// asked for, else beside it if one is asked for, else there is none. Comments stay, and
/// source maps have no file of their own.
pub proof fn law_transpile_and_emit_options(
    options: EmitConfigOptions,
    r: (TranspileOptions, EmitOptions),
)
    requires
        call_ensures(to_transpile_and_emit_options, (options,), r),
    ensures
        r.0.use_ts_decorators == options.experimental_decorators,
        r.0.use_decorators_proposal == !options.experimental_decorators,
        r.0.emit_metadata == options.emit_decorator_metadata,
        options.imports_not_used_as_values@ == "preserve"@
            <==> r.0.imports_not_used_as_values is Preserve,
        options.imports_not_used_as_values@ == "error"@
            <==> r.0.imports_not_used_as_values is Error,
        r.0.transform_jsx <==> options.jsx@ == "react"@ || options.jsx@ == "react-jsx"@
            || options.jsx@ == "react-jsxdev"@,
        r.0.jsx_automatic <==> options.jsx@ == "react-jsx"@ || options.jsx@ == "react-jsxdev"@,
        r.0.jsx_development <==> options.jsx@ == "react-jsxdev"@,
        r.0.precompile_jsx <==> options.jsx@ == "precompile"@,
        r.0.jsx_factory@ == options.jsx_factory@,
        r.0.jsx_fragment_factory@ == options.jsx_fragment_factory@,
        r.0.jsx_import_source.deep_view() == options.jsx_import_source.deep_view(),
        r.0.precompile_jsx_skip_elements.deep_view()
            == options.jsx_precompile_skip_elements.deep_view(),
        !r.0.var_decl_imports,
        r.1.inline_sources == options.inline_sources,
        !r.1.remove_comments,
        r.1.source_map_file is None,
        r.1.source_map is Inline <==> options.inline_source_map,
        r.1.source_map is Separate <==> !options.inline_source_map && options.source_map,
{
    lemma_jsx_words_differ();
}

/// Compiler options that cannot be read are an error with the reason; otherwise modules
/// are transpiled and emitted as what is significant among them says.
pub proof fn law_options_of_ts_config(
    config: TsConfig,
    given: EmitConfigOptions,
    expected: (TranspileOptions, EmitOptions),
    r: Result<(TranspileOptions, EmitOptions), CliError>,
)
    requires
        call_ensures(ts_config_to_transpile_and_emit_options, (config,), r),
        call_ensures(to_transpile_and_emit_options, (given,), expected),
    ensures
        emit_options_of(config.deep_view()) matches Err(message) ==> r is Err
            && r->Err_0.message@ == "Failed to parse compilerOptions"@
            && r->Err_0.cause.deep_view() == Some(message),
        emit_options_of(config.deep_view()) == Ok::<EmitConfigView, Seq<char>>(given.deep_view())
            ==> r is Ok && r->Ok_0.0.deep_view() == expected.0.deep_view() && r->Ok_0.1
            == expected.1,
{
}

/// The compiler options for some purpose: those merged with the configuration file's,
/// all of which stay as they are, but that a bundle always has TypeScript's own
/// decorators on. It fails exactly where the file or its options are malformed.
pub proof fn law_ts_config(
    config_type: TsConfigType,
    config: &Option<DenoJson>,
    is_bundle: bool,
    r: Result<TsConfigForEmit, CliError>,
)
    requires
        call_ensures(resolve_ts_config_for_emit, (config_type, config, is_bundle), r),
    ensures
        ({
            let source = if *config is Some {
                Some(((*config)->0.text@, (*config)->0.specifier@))
            } else {
                None
            };
            let is_malformed = *config is Some && config_file_error(
                (*config)->0.text@,
                (*config)->0.specifier@,
            ) is Some;
            let merged = merged_options(config_type, source);
            &&& is_malformed ==> r is Err && Some(r->Err_0.message@) == config_file_error(
                (*config)->0.text@,
                (*config)->0.specifier@,
            )
            &&& !is_malformed && merged is Err ==> r is Err && r->Err_0.message@ == merged->Err_0
            &&& !is_malformed && merged is Ok ==> {
                &&& r is Ok
                &&& r->Ok_0.maybe_ignored_options.deep_view() == merged->Ok_0.1
                &&& !is_bundle ==> r->Ok_0.ts_config.deep_view() == merged->Ok_0.0
                &&& is_bundle ==> r->Ok_0.ts_config.deep_view().contains_pair(
                    "experimentalDecorators"@,
                    "true"@,
                )
                &&& is_bundle ==> forall|name: Seq<char>|
                    name != "experimentalDecorators"@ ==> (#[trigger] merged->Ok_0.0.contains_key(
                        name,
                    ) <==> r->Ok_0.ts_config.deep_view().contains_key(name))
                &&& is_bundle ==> forall|name: Seq<char>|
                    name != "experimentalDecorators"@ && merged->Ok_0.0.contains_key(name)
                        ==> #[trigger] r->Ok_0.ts_config.deep_view()[name] == merged->Ok_0.0[name]
            }
        }),
{
}

/// The value of an option is that of the last entry with its name.
pub proof fn law_last_option_counts(
    entries: Seq<(Seq<char>, Seq<char>)>,
    name: Seq<char>,
    at: int,
)
    requires
        0 <= at < entries.len(),
        entries[at].0 == name,
        forall|k: int| at < k < entries.len() ==> (#[trigger] entries[k]).0 != name,
    ensures
        options_by_name(entries).contains_pair(name, entries[at].1),
    decreases entries.len(),
{
    if at < entries.len() - 1 {
        let front = entries.drop_last();
        assert(entries[entries.len() - 1].0 != name);
        assert forall|k: int| at < k < front.len() implies (#[trigger] front[k]).0 != name by {
            assert(entries[k].0 != name);
        }
        law_last_option_counts(front, name, at);
    }
}

} // verus!
