//! The `.npmrc` file: where it is looked for and what it says on registries.

use std::sync::Arc;

use deno_npm::npm_rc::{NpmRc, ResolvedNpmRc};
use url::Url;
use vstd::prelude::*;

use crate::error::CliError;
use crate::lockfile::FileRead;
use crate::path::{
    is_plain_name, join, law_parent_undoes_join, parent, path_join, path_parent, without_trailing,
};
use crate::specifier::{
    directory_text, npm_registry_url, registry_url, url_parsed, url_text, ModuleSpecifier,
    NPM_REGISTRY_DEFAULT_URL,
};
use crate::text::{chars_of, concat2, concat3, contains_part, has_part, same_text};

verus! {

/// The settings of a `.npmrc` file.
#[verifier::external_type_specification]
#[verifier::external_body]
pub struct ExNpmRc(deno_npm::npm_rc::NpmRc);

/// The settings of a `.npmrc` file with its registries resolved.
#[verifier::external_type_specification]
#[verifier::external_body]
pub struct ExResolvedNpmRc(deno_npm::npm_rc::ResolvedNpmRc);

/// How requests to a registry are authenticated.
pub ghost struct RegistryConfigView {
    pub auth: Option<Seq<char>>,
    pub auth_token: Option<Seq<char>>,
    pub username: Option<Seq<char>>,
    pub password: Option<Seq<char>>,
    pub email: Option<Seq<char>>,
    pub certfile: Option<Seq<char>>,
    pub keyfile: Option<Seq<char>>,
}

/// Requests without authentication.
pub open spec fn no_credentials() -> RegistryConfigView {
    RegistryConfigView {
        auth: None,
        auth_token: None,
        username: None,
        password: None,
        email: None,
        certfile: None,
        keyfile: None,
    }
}

/// What a `.npmrc` file says.
pub ghost struct NpmRcView {
    /// The registry for packages of no particular scope.
    pub registry: Option<Seq<char>>,
    /// The registries by scope.
    pub scopes: Map<Seq<char>, Seq<char>>,
    /// The credentials by host and path.
    pub credentials: Map<Seq<char>, RegistryConfigView>,
}

/// The registries in use, with the credentials for them.
pub ghost struct ResolvedNpmRcView {
    /// The registry for packages of no particular scope.
    pub default_url: Seq<char>,
    /// The credentials for that registry.
    pub default_config: RegistryConfigView,
    /// The registries by scope.
    pub scopes: Map<Seq<char>, Seq<char>>,
    /// The credentials for the registries, by scope.
    pub scope_configs: Map<Seq<char>, RegistryConfigView>,
    /// The credentials by host and path.
    pub credentials: Map<Seq<char>, RegistryConfigView>,
}

/// What a `.npmrc` file says.
pub uninterp spec fn npmrc_contents(npmrc: NpmRc) -> NpmRcView;

/// The registries in use, with the credentials for them.
pub uninterp spec fn resolved_npmrc(npmrc: ResolvedNpmRc) -> ResolvedNpmRcView;

/// What the text of a `.npmrc` file says, given the environment variables, or
/// the message on a text that is malformed.
pub uninterp spec fn npmrc_parsed(
    source: Seq<char>,
    env: Seq<(Seq<char>, Seq<char>)>,
) -> Result<NpmRcView, Seq<char>>;

/// The registries in use with a `.npmrc` file, given the registry to fall back
/// on; nothing where a registry is invalid.
pub uninterp spec fn npmrc_resolution(npmrc: NpmRcView, registry_url: Seq<char>) -> Option<
    ResolvedNpmRcView,
>;

/// The value of an environment variable. Of two entries with one name the first
/// counts.
pub open spec fn env_value(env: Seq<(Seq<char>, Seq<char>)>, name: Seq<char>) -> Option<Seq<char>>
    decreases env.len(),
{
    if env.len() == 0 {
        None
    } else {
        let before = env_value(env.drop_last(), name);
        if before is Some {
            before
        } else if env.last().0 == name {
            Some(env.last().1)
        } else {
            None
        }
    }
}

proof fn lemma_first_value_stays(
    env: Seq<(Seq<char>, Seq<char>)>,
    name: Seq<char>,
    count: int,
)
    requires
        0 <= count <= env.len(),
        env_value(env.take(count), name) is Some,
    ensures
        env_value(env, name) == env_value(env.take(count), name),
    decreases env.len() - count,
{
    if count == env.len() {
        assert(env.take(count) == env);
    } else {
        assert(env.take(count + 1).drop_last() == env.take(count));
        lemma_first_value_stays(env, name, count + 1);
    }
}

/// The value of an environment variable.
pub fn env_lookup(env: &Vec<(String, String)>, name: &str) -> (r: Option<String>)
    ensures
        r.deep_view() == env_value(env.deep_view(), name@),
{
    let mut i: usize = 0;
    assert(env.deep_view().take(0) == Seq::<(Seq<char>, Seq<char>)>::empty());
    while i < env.len()
        invariant
            i <= env.len(),
            env_value(env.deep_view().take(i as int), name@) is None,
        decreases env.len() - i,
    {
        assert(env.deep_view().take(i + 1).drop_last() == env.deep_view().take(i as int));
        assert(env.deep_view().take(i + 1).last() == env@[i as int].deep_view());
        if same_text(env[i].0.as_str(), name) {
            proof {
                lemma_first_value_stays(env.deep_view(), name@, i + 1);
            }
            return Some(env[i].1.clone());
        }
        i = i + 1;
    }
    assert(env.deep_view().take(i as int) == env.deep_view());
    None
}

/// `deno_npm::npm_rc::NpmRc::parse`: what the file says, and the message of the
/// error, depend on the text and the environment variables alone.
#[verifier::external_body]
fn parse_npmrc(source: &str, env: &Vec<(String, String)>) -> (r: Result<NpmRc, String>)
    ensures
        match r {
            Ok(npmrc) => npmrc_parsed(source@, env.deep_view()) == Ok::<NpmRcView, Seq<char>>(
                npmrc_contents(npmrc),
            ),
            Err(message) => npmrc_parsed(source@, env.deep_view()) == Err::<NpmRcView, Seq<char>>(
                message@,
            ),
        },
{
    NpmRc::parse(source, &|name: &str| env_lookup(env, name)).map_err(|error| error.to_string())
}

/// The fields `registry` and `scope_registries` of `deno_npm::npm_rc::NpmRc`:
/// every registry that the file names, in no particular order.
#[verifier::external_body]
fn named_registries(npmrc: &NpmRc) -> (r: Vec<String>)
    ensures
        forall|text: Seq<char>|
            r.deep_view().contains(text) <==> names_registry(npmrc_contents(*npmrc), text),
{
    npmrc.scope_registries.values().chain(npmrc.registry.iter()).cloned().collect()
}

/// The field `registry` of `deno_npm::npm_rc::NpmRc`: the registry for packages
/// of no particular scope.
#[verifier::external_body]
fn unscoped_registry(npmrc: &NpmRc) -> (r: Option<String>)
    ensures
        r.deep_view() == npmrc_contents(*npmrc).registry,
{
    npmrc.registry.clone()
}

/// Whether a `.npmrc` file names a registry.
pub open spec fn names_registry(npmrc: NpmRcView, text: Seq<char>) -> bool {
    npmrc.registry == Some(text) || npmrc.scopes.contains_value(text)
}

/// Whether something stands behind the slashes of a registry's text: it does
/// not end with its first pair of slashes.
pub open spec fn has_host(text: Seq<char>) -> bool {
    !(text.len() >= 2 && text[text.len() - 1] == '/' && text[text.len() - 2] == '/' && !has_part(
        text.drop_last(),
        "//"@,
    ))
}

/// Whether every registry that is in use with a `.npmrc` file has something
/// behind its slashes: those that the file names, and the one to fall back on
/// where the file names none for packages of no particular scope.
pub open spec fn has_hosts(npmrc: NpmRcView, fallback: Seq<char>) -> bool {
    &&& forall|text: Seq<char>| #[trigger] names_registry(npmrc, text) ==> has_host(text)
    &&& npmrc.registry is None ==> has_host(fallback)
}

/// `deno_npm::npm_rc::NpmRc::as_resolved`: whether the registries resolve, to
/// which URLs and with which credentials, depends on the registries, the
/// credentials and the registry to fall back on. Which of several invalid
/// registries the message speaks of is left open. The crate panics on a registry
/// in use that ends with the slashes in front of its host.
#[verifier::external_body]
fn resolve_npmrc(npmrc: &NpmRc, registry_url: &Url) -> (r: Result<ResolvedNpmRc, String>)
    requires
        has_hosts(npmrc_contents(*npmrc), url_text(*registry_url)),
    ensures
        match r {
            Ok(resolved) => npmrc_resolution(npmrc_contents(*npmrc), url_text(*registry_url)) == Some(
                resolved_npmrc(resolved),
            ),
            Err(_) => npmrc_resolution(npmrc_contents(*npmrc), url_text(*registry_url)) is None,
        },
{
    npmrc.as_resolved(registry_url).map_err(|error| error.to_string())
}

/// A literal of `deno_npm::npm_rc::ResolvedNpmRc`: one registry for all scopes,
/// without credentials.
#[verifier::external_body]
fn npmrc_with_registry(registry_url: &Url) -> (r: ResolvedNpmRc)
    ensures
        resolved_npmrc(r) == single_registry(url_text(*registry_url)),
{
    ResolvedNpmRc {
        default_config: deno_npm::npm_rc::RegistryConfigWithUrl {
            registry_url: registry_url.clone(),
            config: Default::default(),
        },
        scopes: Default::default(),
        registry_configs: Default::default(),
    }
}

/// `deno_npm::npm_rc::ResolvedNpmRc::get_all_known_registries_urls`: the registry
/// for packages of no particular scope, and those of the scopes, in any order.
#[verifier::external_body]
pub(crate) fn known_registries(npmrc: &ResolvedNpmRc) -> (r: Vec<String>)
    ensures
        r.len() > 0 && r@[0]@ == resolved_npmrc(*npmrc).default_url,
        forall|url: Seq<char>|
            r.deep_view().contains(url) <==> is_known_registry(resolved_npmrc(*npmrc), url),
{
    npmrc.get_all_known_registries_urls().into_iter().map(String::from).collect()
}

/// Whether a registry is in use.
pub open spec fn is_known_registry(npmrc: ResolvedNpmRcView, url: Seq<char>) -> bool {
    url == npmrc.default_url || npmrc.scopes.contains_value(url)
}

/// One registry for all scopes, without credentials.
pub open spec fn single_registry(url: Seq<char>) -> ResolvedNpmRcView {
    ResolvedNpmRcView {
        default_url: url,
        default_config: no_credentials(),
        scopes: Map::empty(),
        scope_configs: Map::empty(),
        credentials: Map::empty(),
    }
}

/// The settings without a `.npmrc` file: the given registry for all scopes.
pub fn create_npmrc_for_registry(registry_url: &ModuleSpecifier) -> (r: Arc<ResolvedNpmRc>)
    ensures
        resolved_npmrc(*r) == single_registry(registry_url@),
{
    Arc::new(npmrc_with_registry(registry_url.as_url()))
}

/// The settings without a `.npmrc` file: the registry in use, given the value of
/// `NPM_CONFIG_REGISTRY`, for all scopes.
pub fn create_default_npmrc(env_registry: Option<&str>) -> (r: Arc<ResolvedNpmRc>)
    ensures
        resolved_npmrc(*r) == single_registry(
            registry_url(env_registry.deep_view(), NPM_REGISTRY_DEFAULT_URL@),
        ),
{
    create_npmrc_for_registry(&npm_registry_url(env_registry))
}

/// Whether something stands behind the slashes of a registry's text.
fn check_host(text: &str) -> (r: bool)
    ensures
        r == has_host(text@),
{
    let chars: Vec<char> = chars_of(text);
    let length: usize = chars.len();
    if length >= 2 && chars[length - 1] == '/' && chars[length - 2] == '/' {
        assert(text@.subrange(0, length - 1) == text@.drop_last());
        contains_part(text.substring_char(0, length - 1), "//")
    } else {
        true
    }
}

/// A registry in use with a `.npmrc` file that ends with the slashes in front of
/// its host, if there is one.
fn registry_without_host(npmrc: &NpmRc, fallback: &str) -> (r: Option<String>)
    ensures
        r is None <==> has_hosts(npmrc_contents(*npmrc), fallback@),
{
    let registries: Vec<String> = named_registries(npmrc);
    let mut i: usize = 0;
    while i < registries.len()
        invariant
            i <= registries.len(),
            forall|k: int| 0 <= k < i ==> has_host(#[trigger] registries.deep_view()[k]),
            forall|text: Seq<char>|
                registries.deep_view().contains(text) <==> names_registry(
                    npmrc_contents(*npmrc),
                    text,
                ),
        decreases registries.len() - i,
    {
        assert(registries.deep_view()[i as int] == registries@[i as int]@);
        assert(registries.deep_view().contains(registries.deep_view()[i as int]));
        if !check_host(registries[i].as_str()) {
            return Some(registries[i].clone());
        }
        i = i + 1;
    }
    assert forall|text: Seq<char>| #[trigger]
        names_registry(npmrc_contents(*npmrc), text) implies has_host(text) by {
        assert(registries.deep_view().contains(text));
        let k = choose|k: int|
            0 <= k < registries.deep_view().len() && registries.deep_view()[k] == text;
        assert(has_host(registries.deep_view()[k]));
    }
    if unscoped_registry(npmrc).is_none() && !check_host(fallback) {
        return Some(fallback.to_owned());
    }
    None
}

/// The message on a `.npmrc` file that cannot be parsed.
pub open spec fn npmrc_parse_message(path: Seq<char>) -> Seq<char> {
    "Failed to parse .npmrc at "@ + path
}

/// The message on a `.npmrc` file that cannot be read.
pub open spec fn npmrc_read_message(path: Seq<char>, cause: Seq<char>) -> Seq<char> {
    "Error loading .npmrc at "@ + path + ". "@ + cause
}

/// The registries in use with the `.npmrc` file at `path`, given its text, the
/// environment variables and the registry to fall back on.
pub fn try_to_parse_npmrc(
    source: &str,
    path: &str,
    env: &Vec<(String, String)>,
    registry_url: &ModuleSpecifier,
) -> (r: Result<Arc<ResolvedNpmRc>, CliError>)
    ensures
        match npmrc_parsed(source@, env.deep_view()) {
            Err(message) => r is Err && r->Err_0@ == (npmrc_parse_message(path@), Some(message)),
            Ok(npmrc) => if !has_hosts(npmrc, registry_url@) {
                r is Err && r->Err_0@.0 == "Failed to resolve .npmrc options"@
                    && r->Err_0@.1 is Some
            } else {
                match npmrc_resolution(npmrc, registry_url@) {
                    Some(view) => r is Ok && resolved_npmrc(*r->Ok_0) == view,
                    None => r is Err && r->Err_0@.0 == "Failed to resolve .npmrc options"@
                        && r->Err_0@.1 is Some,
                }
            },
        },
{
    let npmrc: NpmRc = match parse_npmrc(source, env) {
        Ok(npmrc) => npmrc,
        Err(message) => {
            let context: String = concat2("Failed to parse .npmrc at ", path);
            return Err(CliError::with_cause(context.as_str(), message.as_str()));
        },
    };
    if let Some(registry) = registry_without_host(&npmrc, registry_url.as_str()) {
        let cause: String = concat3("registry '", registry.as_str(), "' has no host");
        return Err(CliError::with_cause("Failed to resolve .npmrc options", cause.as_str()));
    }
    match resolve_npmrc(&npmrc, registry_url.as_url()) {
        Ok(resolved) => Ok(Arc::new(resolved)),
        Err(message) => Err(
            CliError::with_cause("Failed to resolve .npmrc options", message.as_str()),
        ),
    }
}

/// The name of the file.
pub const NPMRC_NAME: &'static str = ".npmrc";

/// The `.npmrc` file next to a file.
pub open spec fn npmrc_beside(path: Option<Seq<char>>) -> Seq<Seq<char>> {
    match path {
        Some(path) => match path_parent(path) {
            Some(dir) => seq![path_join(dir, NPMRC_NAME@)],
            None => Seq::empty(),
        },
        None => Seq::empty(),
    }
}

/// Where a `.npmrc` file is looked for, in order: next to the `package.json`,
/// next to the configuration file.
pub open spec fn npmrc_candidates(
    package_json_path: Option<Seq<char>>,
    deno_json_path: Option<Seq<char>>,
) -> Seq<Seq<char>> {
    npmrc_beside(package_json_path) + npmrc_beside(deno_json_path)
}

/// The search for a `.npmrc` file.
#[derive(Debug)]
pub struct NpmrcSearch {
    candidates: Vec<String>,
    next: usize,
}

/// What a step of the search led to.
#[derive(Debug)]
pub enum NpmrcStep {
    /// The next candidate is to be read.
    Continue,
    /// The settings, with the file that they come from.
    Done(Arc<ResolvedNpmRc>, Option<String>),
}

fn add_beside(candidates: &mut Vec<String>, path: Option<&str>)
    ensures
        final(candidates).deep_view() == old(candidates).deep_view() + npmrc_beside(
            path.deep_view(),
        ),
{
    let ghost before = candidates.deep_view();
    assert(before + Seq::<Seq<char>>::empty() == before);
    if let Some(path) = path {
        if let Some(dir) = parent(path) {
            let candidate: String = join(dir.as_str(), NPMRC_NAME);
            candidates.push(candidate);
            assert(candidates.deep_view() == before.push(candidate@));
            assert(before.push(candidate@) == before + seq![candidate@]);
        }
    }
}

impl NpmrcSearch {
    #[verifier::type_invariant]
    spec fn is_valid(self) -> bool {
        self.next <= self.candidates.len()
    }

    /// The candidates that have not been read, in order.
    pub closed spec fn pending(&self) -> Seq<Seq<char>> {
        self.candidates.deep_view().skip(self.next as int)
    }

    /// A search next to a `package.json` and next to a configuration file.
    pub fn new(
        maybe_package_json_path: Option<&str>,
        maybe_deno_json_path: Option<&str>,
    ) -> (r: NpmrcSearch)
        ensures
            r.pending() == npmrc_candidates(
                maybe_package_json_path.deep_view(),
                maybe_deno_json_path.deep_view(),
            ),
    {
        let mut candidates: Vec<String> = Vec::new();
        assert(candidates.deep_view() == Seq::<Seq<char>>::empty());
        add_beside(&mut candidates, maybe_package_json_path);
        add_beside(&mut candidates, maybe_deno_json_path);
        assert(candidates.deep_view() == npmrc_beside(maybe_package_json_path.deep_view())
            + npmrc_beside(maybe_deno_json_path.deep_view()));
        assert(candidates.deep_view().skip(0) == candidates.deep_view());
        NpmrcSearch { candidates, next: 0 }
    }

    /// The candidate to read next.
    pub fn candidate(&self) -> (r: Option<&str>)
        ensures
            r.deep_view() == (if self.pending().len() > 0 {
                Some(self.pending()[0])
            } else {
                None
            }),
    {
        proof {
            use_type_invariant(self);
        }
        if self.next < self.candidates.len() {
            assert(self.pending()[0] == self.candidates@[self.next as int]@);
            Some(self.candidates[self.next].as_str())
        } else {
            None
        }
    }
}

/// Looks for a `.npmrc` file one step further. `read` is what reading the
/// search's current candidate gave. A missing file moves on to the next
/// candidate; the settings without a file are used behind the last.
pub fn discover_npmrc(
    search: NpmrcSearch,
    read: FileRead,
    env: &Vec<(String, String)>,
    env_registry: Option<&str>,
) -> (r: (NpmrcSearch, Result<NpmrcStep, CliError>))
    ensures
        step_of_search(
            search.pending(),
            read,
            env.deep_view(),
            registry_url(env_registry.deep_view(), NPM_REGISTRY_DEFAULT_URL@),
            r.0.pending(),
            r.1,
        ),
{
    proof {
        use_type_invariant(&search);
    }
    let registry: ModuleSpecifier = npm_registry_url(env_registry);
    if search.next == search.candidates.len() {
        assert(search.pending().len() == 0);
        return (search, Ok(NpmrcStep::Done(create_npmrc_for_registry(&registry), None)));
    }
    let path: String = search.candidates[search.next].clone();
    assert(search.pending()[0] == path@);
    match read {
        FileRead::Text(source) => {
            let outcome: Result<NpmrcStep, CliError> = match try_to_parse_npmrc(
                source.as_str(),
                path.as_str(),
                env,
                &registry,
            ) {
                Ok(npmrc) => Ok(NpmrcStep::Done(npmrc, Some(path))),
                Err(error) => Err(error),
            };
            (search, outcome)
        },
        FileRead::Failed(cause) => {
            let start: String = concat3("Error loading .npmrc at ", path.as_str(), ". ");
            let message: String = concat2(start.as_str(), cause.as_str());
            (search, Err(CliError::new(message.as_str())))
        },
        FileRead::NotFound => {
            let later = NpmrcSearch { candidates: search.candidates, next: search.next + 1 };
            assert(later.pending() == search.pending().skip(1));
            if later.next == later.candidates.len() {
                let npmrc: Arc<ResolvedNpmRc> = create_npmrc_for_registry(&registry);
                (later, Ok(NpmrcStep::Done(npmrc, None)))
            } else {
                (later, Ok(NpmrcStep::Continue))
            }
        },
    }
}

/// What a step of the search leads to.
pub open spec fn step_of_search(
    pending: Seq<Seq<char>>,
    read: FileRead,
    env: Seq<(Seq<char>, Seq<char>)>,
    registry: Seq<char>,
    later: Seq<Seq<char>>,
    outcome: Result<NpmrcStep, CliError>,
) -> bool {
    if pending.len() == 0 {
        later == pending && is_default_step(outcome, registry)
    } else {
        match read {
            FileRead::NotFound => later == pending.skip(1) && (if later.len() == 0 {
                is_default_step(outcome, registry)
            } else {
                outcome == Ok::<NpmrcStep, CliError>(NpmrcStep::Continue)
            }),
            FileRead::Failed(cause) => later == pending && outcome is Err && outcome->Err_0@ == (
                npmrc_read_message(pending[0], cause@),
                None::<Seq<char>>,
            ),
            FileRead::Text(source) => later == pending && match npmrc_parsed(source@, env) {
                Err(message) => outcome is Err && outcome->Err_0@ == (
                    npmrc_parse_message(pending[0]),
                    Some(message),
                ),
                Ok(npmrc) => if has_hosts(npmrc, registry) && npmrc_resolution(
                    npmrc,
                    registry,
                ) is Some {
                    &&& outcome is Ok
                    &&& outcome->Ok_0 is Done
                    &&& resolved_npmrc(*outcome->Ok_0->Done_0) == npmrc_resolution(
                        npmrc,
                        registry,
                    )->0
                    &&& outcome->Ok_0->Done_1.deep_view() == Some(pending[0])
                } else {
                    outcome is Err && outcome->Err_0@.0 == "Failed to resolve .npmrc options"@
                },
            },
        }
    }
}

/// Whether a search ends with the settings that stand without a file.
pub open spec fn is_default_step(
    outcome: Result<NpmrcStep, CliError>,
    registry: Seq<char>,
) -> bool {
    &&& outcome is Ok
    &&& outcome->Ok_0 is Done
    &&& resolved_npmrc(*outcome->Ok_0->Done_0) == single_registry(registry)
    &&& outcome->Ok_0->Done_1 is None
}

/// A search has at most two candidates.
pub proof fn law_npmrc_candidates_are_few(
    package_json_path: Option<Seq<char>>,
    deno_json_path: Option<Seq<char>>,
)
    ensures
        npmrc_candidates(package_json_path, deno_json_path).len() <= 2,
{
}

/// A search ends: a step after which it goes on leaves fewer candidates, and at
/// least one.
pub proof fn law_npmrc_search_ends(
    pending: Seq<Seq<char>>,
    read: FileRead,
    env: Seq<(Seq<char>, Seq<char>)>,
    registry: Seq<char>,
    later: Seq<Seq<char>>,
    outcome: Result<NpmrcStep, CliError>,
)
    requires
        step_of_search(pending, read, env, registry, later, outcome),
    ensures
        outcome == Ok::<NpmrcStep, CliError>(NpmrcStep::Continue) ==> 0 < later.len()
            < pending.len(),
{
}

/// A `.npmrc` file next to the `package.json` is looked for before one next to
/// the configuration file, and nowhere else.
pub proof fn law_npmrc_order(package_json_dir: Seq<char>, deno_json_dir: Seq<char>)
    requires
        package_json_dir.len() > 0,
        deno_json_dir.len() > 0,
    ensures
        npmrc_candidates(
            Some(path_join(package_json_dir, "package.json"@)),
            Some(path_join(deno_json_dir, "deno.json"@)),
        ) == seq![
            path_join(without_trailing(package_json_dir), NPMRC_NAME@),
            path_join(without_trailing(deno_json_dir), NPMRC_NAME@),
        ],
{
    reveal_strlit("package.json");
    reveal_strlit("deno.json");
    assert(is_plain_name("package.json"@)) by {
        assert("package.json"@.len() != seq!['.'].len());
    }
    assert(is_plain_name("deno.json"@)) by {
        assert("deno.json"@.len() != seq!['.'].len());
    }
    law_parent_undoes_join(package_json_dir, "package.json"@);
    law_parent_undoes_join(deno_json_dir, "deno.json"@);
}

/// Each of the two files contributes the `.npmrc` in its own directory, whether or not
/// the other is there, and nothing else is looked at. That of the `package.json` comes
/// first.
pub proof fn law_npmrc_candidates(
    package_json_path: Option<&str>,
    deno_json_path: Option<&str>,
    r: NpmrcSearch,
)
    requires
        call_ensures(NpmrcSearch::new, (package_json_path, deno_json_path), r),
    ensures
        ({
            let first = package_json_path is Some && path_parent(package_json_path->0@) is Some;
            let second = deno_json_path is Some && path_parent(deno_json_path->0@) is Some;
            let pending = r.pending();
            &&& pending.len() == (if first {
                1int
            } else {
                0
            }) + (if second {
                1int
            } else {
                0
            })
            &&& first ==> pending.first() == path_join(
                path_parent(package_json_path->0@)->0,
                ".npmrc"@,
            )
            &&& second ==> pending.last() == path_join(
                path_parent(deno_json_path->0@)->0,
                ".npmrc"@,
            )
        }),
{
}

/// The candidate is the first of those that have not been read.
pub proof fn law_npmrc_candidate(search: &NpmrcSearch, r: Option<&str>)
    requires
        call_ensures(NpmrcSearch::candidate, (search,), r),
    ensures
        r is None <==> search.pending().len() == 0,
        r matches Some(path) ==> path@ == search.pending().first(),
{
}

/// A search reads its candidates in order. It goes on behind a missing file as long as
/// there are others, uses the registry of the environment alone once there are none,
/// stops with an error at a file that cannot be read, and otherwise ends with what the
/// file says: its settings together with its path, or what is wrong with it.
pub proof fn law_npmrc_search(
    search: NpmrcSearch,
    read: FileRead,
    env: &Vec<(String, String)>,
    env_registry: Option<&str>,
    r: (NpmrcSearch, Result<NpmrcStep, CliError>),
)
    requires
        call_ensures(discover_npmrc, (search, read, env, env_registry), r),
    ensures
        ({
            let pending = search.pending();
            let registry = registry_url(env_registry.deep_view(), "https://registry.npmjs.org/"@);
            let ends = pending.len() == 0 || (read is NotFound && pending.len() == 1);
            &&& ends ==> (r.1 matches Ok(NpmrcStep::Done(npmrc, path)) && path is None
                && resolved_npmrc(*npmrc).default_url == registry && resolved_npmrc(
                *npmrc,
            ).scopes == Map::<Seq<char>, Seq<char>>::empty() && resolved_npmrc(*npmrc).credentials
                == Map::<Seq<char>, RegistryConfigView>::empty())
            &&& read is NotFound && pending.len() > 1 ==> (r.1 matches Ok(NpmrcStep::Continue)
                && r.0.pending() == pending.skip(1))
            &&& pending.len() > 0 ==> (read matches FileRead::Failed(cause) ==> (r.1 matches Err(
                error,
            ) && error.message@ == "Error loading .npmrc at "@ + pending[0] + ". "@ + cause@))
            &&& pending.len() > 0 ==> (read matches FileRead::Text(text) ==> {
                let parsed = npmrc_parsed(text@, env.deep_view());
                &&& parsed is Err ==> (r.1 matches Err(error) && error.message@
                    == "Failed to parse .npmrc at "@ + pending[0] && error.cause.deep_view()
                    == Some(parsed->Err_0))
                &&& parsed is Ok && has_hosts(parsed->Ok_0, registry) && npmrc_resolution(
                    parsed->Ok_0,
                    registry,
                ) is Some ==> (r.1 matches Ok(NpmrcStep::Done(npmrc, path)) && path.deep_view()
                    == Some(pending[0]) && Some(resolved_npmrc(*npmrc)) == npmrc_resolution(
                    parsed->Ok_0,
                    registry,
                ))
                &&& parsed is Ok && npmrc_resolution(parsed->Ok_0, registry) is None ==> r.1 is Err
            })
            &&& !(read is NotFound) ==> r.0.pending() == pending
        }),
{
}

/// Without a `.npmrc` file there are no scopes and no credentials, and the registry is
/// the one that is given.
pub proof fn law_npmrc_of_registry(registry: &ModuleSpecifier, r: Arc<ResolvedNpmRc>)
    requires
        call_ensures(create_npmrc_for_registry, (registry,), r),
    ensures
        resolved_npmrc(*r).default_url == registry@,
        resolved_npmrc(*r).default_config == no_credentials(),
        resolved_npmrc(*r).scopes == Map::<Seq<char>, Seq<char>>::empty(),
        resolved_npmrc(*r).scope_configs == Map::<Seq<char>, RegistryConfigView>::empty(),
        resolved_npmrc(*r).credentials == Map::<Seq<char>, RegistryConfigView>::empty(),
{
}

/// By default the registry is the one that the environment names, or that of npm.
pub proof fn law_default_npmrc(env_registry: Option<&str>, r: Arc<ResolvedNpmRc>)
    requires
        call_ensures(create_default_npmrc, (env_registry,), r),
    ensures
        env_registry is None ==> resolved_npmrc(*r).default_url
            == "https://registry.npmjs.org/"@,
        env_registry matches Some(value) ==> (url_parsed(directory_text(value@)) matches Ok(url)
            ==> resolved_npmrc(*r).default_url == url),
        env_registry matches Some(value) ==> (url_parsed(directory_text(value@)) is Err
            ==> resolved_npmrc(*r).default_url == "https://registry.npmjs.org/"@),
        resolved_npmrc(*r).scopes == Map::<Seq<char>, Seq<char>>::empty(),
        resolved_npmrc(*r).credentials == Map::<Seq<char>, RegistryConfigView>::empty(),
{
}

/// The settings of a `.npmrc` file: those that its text resolves to. It fails exactly
/// where the text is malformed, which names the file, or a registry does not resolve.
pub proof fn law_parsed_npmrc(
    source: &str,
    path: &str,
    env: &Vec<(String, String)>,
    registry: &ModuleSpecifier,
    r: Result<Arc<ResolvedNpmRc>, CliError>,
)
    requires
        call_ensures(try_to_parse_npmrc, (source, path, env, registry), r),
    ensures
        ({
            let parsed = npmrc_parsed(source@, env.deep_view());
            &&& r matches Ok(npmrc) ==> parsed is Ok && npmrc_resolution(parsed->Ok_0, registry@)
                == Some(resolved_npmrc(*npmrc))
            &&& parsed is Ok && has_hosts(parsed->Ok_0, registry@) && npmrc_resolution(
                parsed->Ok_0,
                registry@,
            ) is Some ==> r is Ok
            &&& parsed matches Err(message) ==> (r matches Err(error) && error.message@
                == "Failed to parse .npmrc at "@ + path@ && error.cause.deep_view() == Some(
                message,
            ))
            &&& parsed is Ok ==> (r matches Err(error) ==> error.message@
                == "Failed to resolve .npmrc options"@ && error.cause is Some)
        }),
{
}

/// The value of an environment variable is that of its first entry, and there is none
/// exactly where there is no entry.
pub proof fn law_env_lookup(env: &Vec<(String, String)>, name: &str, r: Option<String>)
    requires
        call_ensures(env_lookup, (env, name), r),
    ensures
        r is None <==> forall|i: int| 0 <= i < env.len() ==> (#[trigger] env@[i]).0@ != name@,
        r matches Some(value) ==> exists|i: int|
            0 <= i < env.len() && (#[trigger] env@[i]).0@ == name@ && env@[i].1@ == value@
                && forall|k: int| 0 <= k < i ==> (#[trigger] env@[k]).0@ != name@,
{
    lemma_env_value(env.deep_view(), name@);
    let view = env.deep_view();
    assert forall|i: int| 0 <= i < env.len() implies #[trigger] view[i] == (
        env@[i].0@,
        env@[i].1@,
    ) by {}
    if r is None {
        assert forall|i: int| 0 <= i < env.len() implies (#[trigger] env@[i]).0@ != name@ by {
            assert(view[i].0 != name@);
        }
    } else {
        let at = choose|at: int| #[trigger] is_first_entry(view, name@, at);
        assert(env@[at].0@ == name@ && env@[at].1@ == r->0@);
        assert forall|k: int| 0 <= k < at implies (#[trigger] env@[k]).0@ != name@ by {
            assert(view[k].0 != name@);
        }
    }
}

spec fn is_first_entry(env: Seq<(Seq<char>, Seq<char>)>, name: Seq<char>, at: int) -> bool {
    0 <= at < env.len() && env[at].0 == name && forall|k: int|
        0 <= k < at ==> (#[trigger] env[k]).0 != name
}

proof fn lemma_env_value(env: Seq<(Seq<char>, Seq<char>)>, name: Seq<char>)
    ensures
        env_value(env, name) is None <==> forall|i: int|
            0 <= i < env.len() ==> (#[trigger] env[i]).0 != name,
        env_value(env, name) matches Some(value) ==> exists|at: int| #[trigger]
            is_first_entry(env, name, at) && env[at].1 == value,
        forall|at: int| #[trigger] is_first_entry(env, name, at) ==> env_value(env, name) == Some(
            env[at].1,
        ),
    decreases env.len(),
{
    if env.len() > 0 {
        let front = env.drop_last();
        lemma_env_value(front, name);
        assert(forall|i: int| 0 <= i < front.len() ==> (#[trigger] front[i]) == env[i]);
        assert(forall|i: int| 0 <= i < front.len() ==> (#[trigger] env[i]) == front[i]);
        assert forall|at: int| #[trigger] is_first_entry(env, name, at) implies env_value(env, name)
            == Some(env[at].1) by {
            if at < front.len() {
                assert(is_first_entry(front, name, at));
            }
        }
        if env_value(front, name) is Some {
            let at = choose|at: int| #[trigger] is_first_entry(front, name, at);
            assert(is_first_entry(env, name, at));
        } else if env.last().0 == name {
            assert(is_first_entry(env, name, env.len() - 1));
        }
    }
}

} // verus!
