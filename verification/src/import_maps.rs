//! Which import map is in use.

use vstd::prelude::*;

use crate::config::DenoJson;
use crate::error::CliError;
use crate::specifier::ModuleSpecifier;
use crate::text::concat3;

verus! {

/// The import map that was asked for: the URL or path to resolve, if there is
/// one, and a warning about what is ignored on that account.
#[derive(Debug)]
pub struct ImportMapRequest {
    pub url_or_path: Option<String>,
    pub warning: Option<String>,
}

/// The import map that was asked for.
pub ghost struct ImportMapRequestView {
    pub url_or_path: Option<Seq<char>>,
    pub warning: Option<Seq<char>>,
}

impl DeepView for ImportMapRequest {
    type V = ImportMapRequestView;

    open spec fn deep_view(&self) -> ImportMapRequestView {
        ImportMapRequestView {
            url_or_path: self.url_or_path.deep_view(),
            warning: self.warning.deep_view(),
        }
    }
}

/// The warning on an import map of the configuration file that a flag hides.
pub open spec fn hidden_import_map_warning(specifier: Seq<char>) -> Seq<char> {
    "the configuration file \""@ + specifier
        + "\" contains an entry for \"importMap\" that is being ignored."@
}

/// The warning on an import map entry in a file that is an import map itself.
pub const IGNORED_IMPORT_MAP_WARNING: &'static str =
    "\"importMap\" setting is ignored when \"imports\" or \"scopes\" are specified in the config file.";

/// The import map that flag and configuration file ask for: that of the flag.
/// The configuration file itself is not counted, even if it is an import map.
pub open spec fn requested_import_map(
    import_map_path: Option<Seq<char>>,
    config_file: Option<DenoJson>,
) -> ImportMapRequestView {
    match import_map_path {
        Some(path) => ImportMapRequestView {
            url_or_path: Some(path),
            warning: match config_file {
                Some(config_file) => if config_file.json.import_map is Some {
                    Some(hidden_import_map_warning(config_file.specifier@))
                } else {
                    None
                },
                None => None,
            },
        },
        None => ImportMapRequestView {
            url_or_path: None,
            warning: match config_file {
                Some(config_file) => if config_file.serves_as_import_map()
                    && config_file.json.import_map is Some {
                    Some(IGNORED_IMPORT_MAP_WARNING@)
                } else {
                    None
                },
                None => None,
            },
        },
    }
}

/// The import map that flag and configuration file ask for.
pub fn resolve_import_map_specifier(
    maybe_import_map_path: Option<&str>,
    maybe_config_file: &Option<DenoJson>,
) -> (r: ImportMapRequest)
    ensures
        r.deep_view() == requested_import_map(
            maybe_import_map_path.deep_view(),
            *maybe_config_file,
        ),
{
    if let Some(import_map_path) = maybe_import_map_path {
        let mut warning: Option<String> = None;
        if let Some(config_file) = maybe_config_file {
            if config_file.json.import_map.is_some() {
                warning = Some(
                    concat3(
                        "the configuration file \"",
                        config_file.specifier.as_str(),
                        "\" contains an entry for \"importMap\" that is being ignored.",
                    ),
                );
            }
        }
        ImportMapRequest { url_or_path: Some(import_map_path.to_owned()), warning }
    } else if let Some(config_file) = maybe_config_file {
        // a configuration file that is an import map is preferred to its own
        // `importMap` entry
        let warning: Option<String> = if config_file.is_an_import_map()
            && config_file.json.import_map.is_some() {
            Some(IGNORED_IMPORT_MAP_WARNING.to_owned())
        } else {
            None
        };
        ImportMapRequest { url_or_path: None, warning }
    } else {
        ImportMapRequest { url_or_path: None, warning: None }
    }
}

/// The message on an import map whose URL or path cannot be resolved.
pub open spec fn bad_import_map_message(text: Seq<char>) -> Seq<char> {
    "Bad URL (\""@ + text + "\") for import map."@
}

/// The specifier of the import map that was asked for, given what resolving its
/// URL or path led to.
pub fn import_map_specifier(
    request: &ImportMapRequest,
    resolved: Result<ModuleSpecifier, String>,
) -> (r: Result<Option<ModuleSpecifier>, CliError>)
    ensures
        match request.url_or_path {
            None => r == Ok::<Option<ModuleSpecifier>, CliError>(None),
            Some(text) => match resolved {
                Ok(specifier) => r == Ok::<Option<ModuleSpecifier>, CliError>(Some(specifier)),
                Err(cause) => r is Err && r->Err_0@ == (
                    bad_import_map_message(text@),
                    Some(cause@),
                ),
            },
        },
{
    match &request.url_or_path {
        None => Ok(None),
        Some(text) => match resolved {
            Ok(specifier) => Ok(Some(specifier)),
            Err(cause) => {
                let message: String = concat3("Bad URL (\"", text.as_str(), "\") for import map.");
                Err(CliError::with_cause(message.as_str(), cause.as_str()))
            },
        },
    }
}

/// The error on an import map that cannot be loaded.
pub fn import_map_load_error(specifier: &ModuleSpecifier, cause: &str) -> (r: CliError)
    ensures
        r@ == ("Unable to load '"@ + specifier@ + "' import map"@, Some(cause@)),
{
    let message: String = concat3("Unable to load '", specifier.as_str(), "' import map");
    CliError::with_cause(message.as_str(), cause)
}

/// An import map that a flag names is used whatever the configuration file
/// holds, and without the flag the configuration file never supplies one here.
pub proof fn law_import_map_flag_takes_precedence(
    path: Seq<char>,
    config_file: Option<DenoJson>,
)
    ensures
        requested_import_map(Some(path), config_file).url_or_path == Some(path),
        requested_import_map(None, config_file).url_or_path is None,
        config_file is None ==> requested_import_map(Some(path), config_file).warning is None,
{
}

/// The import map that is asked for is that of the flag. An `importMap` entry of the
/// configuration file is only warned about: where a flag hides it, in a message that
/// names the file, and without the flag where the file has imports or scopes itself.
pub proof fn law_import_map_request(
    path: Option<&str>,
    config_file: &Option<DenoJson>,
    r: ImportMapRequest,
)
    requires
        call_ensures(resolve_import_map_specifier, (path, config_file), r),
    ensures
        r.url_or_path.deep_view() == path.deep_view(),
        ({
            let has_entry = *config_file is Some && (*config_file)->0.json.import_map is Some;
            let is_map = *config_file is Some && ((*config_file)->0.json.imports is Some
                || (*config_file)->0.json.scopes is Some);
            &&& r.warning is Some <==> has_entry && (path is Some || is_map)
            &&& r.warning matches Some(warning) ==> {
                &&& path is Some ==> warning@ == "the configuration file \""@
                    + (*config_file)->0.specifier@
                    + "\" contains an entry for \"importMap\" that is being ignored."@
                &&& path is None ==> warning@
                    == "\"importMap\" setting is ignored when \"imports\" or \"scopes\" are specified in the config file."@
            }
        }),
{
}

/// An import map that is not asked for has no specifier; one that is has the one that
/// its URL or path resolves to, and where that fails an error quotes it.
pub proof fn law_import_map_specifier(
    request: &ImportMapRequest,
    resolved: Result<ModuleSpecifier, String>,
    r: Result<Option<ModuleSpecifier>, CliError>,
)
    requires
        call_ensures(import_map_specifier, (request, resolved), r),
    ensures
        request.url_or_path is None ==> r is Ok && r->Ok_0 is None,
        request.url_or_path is Some && resolved is Ok ==> r is Ok && r->Ok_0 is Some && r->Ok_0->0@
            == resolved->Ok_0@,
        request.url_or_path is Some && resolved is Err ==> r is Err && r->Err_0.message@
            == "Bad URL (\""@ + request.url_or_path->0@ + "\") for import map."@
            && r->Err_0.cause.deep_view() == Some(resolved->Err_0@),
{
}

/// An import map that cannot be loaded is an error that quotes its URL and names the cause.
pub proof fn law_import_map_load_error(specifier: &ModuleSpecifier, cause: &str, r: CliError)
    requires
        call_ensures(import_map_load_error, (specifier, cause), r),
    ensures
        r.message@ == "Unable to load '"@ + specifier@ + "' import map"@,
        r.cause.deep_view() == Some(cause@),
{
}

} // verus!
