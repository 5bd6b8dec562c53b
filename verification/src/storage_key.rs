//! Under which key a program's storage is kept.

use vstd::prelude::*;

use crate::cli_options::CliOptions;
use crate::specifier::{url_tuple_origin, ModuleSpecifier};

verus! {

/// Resolves the key that a program's storage is kept under: a stored one, which
/// may be none at all, or else the URL of the main module.
#[derive(Debug)]
pub struct StorageKeyResolver(pub Option<Option<String>>);

/// The key that the options give: the origin of the location, if there is one,
/// and no key if that origin is opaque, because it cannot be reproduced; else
/// the URL of the configuration file, if there is one.
pub open spec fn stored_key(location: Option<Seq<char>>, config_file: Option<Seq<char>>) -> Option<
    Option<Seq<char>>,
> {
    match location {
        Some(location) => Some(url_tuple_origin(location)),
        None => match config_file {
            Some(specifier) => Some(Some(specifier)),
            None => None,
        },
    }
}

/// The key for a main module: the stored one, or else the module's URL.
pub open spec fn storage_key(stored: Option<Option<Seq<char>>>, main_module: Seq<char>) -> Option<
    Seq<char>,
> {
    match stored {
        Some(key) => key,
        None => Some(main_module),
    }
}

impl StorageKeyResolver {
    /// A resolver for the given options.
    pub fn from_options<L>(options: &CliOptions<L>) -> (r: StorageKeyResolver)
        ensures
            r.0.deep_view() == stored_key(
                options.flags().location.deep_view(),
                options.configs().start(),
            ),
    {
        if let Some(location) = options.location_flag() {
            // an opaque origin cannot be expected to be reproducible
            StorageKeyResolver(Some(location.tuple_origin()))
        } else {
            // without a configuration file, the main module's path decides
            match options.workspace().start_deno_json() {
                Some(specifier) => StorageKeyResolver(Some(Some(specifier.as_str().to_owned()))),
                None => StorageKeyResolver(None),
            }
        }
    }

    /// A resolver that never finds a key.
    pub fn empty() -> (r: StorageKeyResolver)
        ensures
            r.0 == Some(None::<String>),
    {
        StorageKeyResolver(Some(None))
    }

    /// The key for the given main module.
    pub fn resolve_storage_key(&self, main_module: &ModuleSpecifier) -> (r: Option<String>)
        ensures
            r.deep_view() == storage_key(self.0.deep_view(), main_module@),
    {
        match &self.0 {
            Some(maybe_value) => maybe_value.clone(),
            None => Some(main_module.as_str().to_owned()),
        }
    }
}

/// A stored key is the same for every main module, while without one two main
/// modules never share a key.
pub proof fn law_storage_key(stored: Option<Option<Seq<char>>>, a: Seq<char>, b: Seq<char>)
    ensures
        stored is Some ==> storage_key(stored, a) == storage_key(stored, b),
        stored is None && a != b ==> storage_key(stored, a) != storage_key(stored, b),
{
}

/// The key of a program's storage: the origin of a location that is given, and none if
/// that origin is opaque; else the URL of the configuration file; else that of the main
/// module.
pub proof fn law_key_of_options<L>(
    options: &CliOptions<L>,
    resolver: StorageKeyResolver,
    main_module: &ModuleSpecifier,
    r: Option<String>,
)
    requires
        call_ensures(StorageKeyResolver::from_options::<L>, (options,), resolver),
        call_ensures(StorageKeyResolver::resolve_storage_key, (&resolver, main_module), r),
    ensures
        options.flags().location matches Some(location) ==> r.deep_view() == url_tuple_origin(
            location@,
        ),
        options.flags().location is None ==> (options.configs().start() matches Some(url) ==> r is Some
            && r->0@ == url),
        options.flags().location is None && options.configs().start() is None ==> r is Some && r->0@
            == main_module@,
{
}

/// A resolver that never finds a key finds none for any main module.
pub proof fn law_empty_resolver(
    resolver: StorageKeyResolver,
    main_module: &ModuleSpecifier,
    r: Option<String>,
)
    requires
        call_ensures(StorageKeyResolver::empty, (), resolver),
        call_ensures(StorageKeyResolver::resolve_storage_key, (&resolver, main_module), r),
    ensures
        r is None,
{
}

} // verus!
