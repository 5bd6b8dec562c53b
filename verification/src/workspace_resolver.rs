//! The resolver of a workspace: what import maps and `package.json` files map a
//! specifier to.

use std::sync::Arc;

use deno_config::workspace::MappedResolution as Outer;
use deno_config::workspace::MappedResolutionError;
use deno_config::workspace::PackageJsonDepResolution as OuterMode;
use deno_config::workspace::WorkspaceResolver;
use deno_package_json::PackageJson;
use deno_package_json::PackageJsonDepValue;
use deno_semver::package::PackageReq;
use deno_semver::VersionReq;
use import_map::ImportMap;
use url::Url;
use vstd::prelude::*;

use crate::managed::req_identity;
use crate::package_json::{has_widenable_deps, package_json_contents, PackageJsonView};
use crate::packages::{
    asks_beyond_largest, check_asks_beyond_largest, check_segments, has_segment_beyond_largest,
    last_at, law_last_at, lemma_reference_requirement_is_part, reference_requirement,
    segment_asks_beyond,
};
use crate::path::{is_absolute, path_parent};
use crate::specifier::{
    lemma_split_not_empty, scheme_of, text_outcome, url_joined, url_parsed, url_text,
    ModuleSpecifier,
};
use crate::text::{
    chars_of, concat2, has_prefix, is_digit, lemma_part_of_part, lemma_split_part_is_part,
    same_text, split_parts, split_text, starts_with_text,
};
use crate::versions::{holds_largest, lemma_part_behind, lemma_plain_requirement};

verus! {

/// A parsed import map.
#[verifier::external_type_specification]
#[verifier::external_body]
pub struct ExImportMap(import_map::ImportMap);

/// The resolver of a workspace.
#[verifier::external_type_specification]
#[verifier::external_body]
pub struct ExWorkspaceResolver(deno_config::workspace::WorkspaceResolver);

/// A dependency of a `package.json` that could be read.
#[verifier::external_type_specification]
#[verifier::external_body]
pub struct ExPackageJsonDepValue(deno_package_json::PackageJsonDepValue);

/// Why a specifier is not mapped.
#[verifier::external_type_specification]
#[verifier::external_body]
pub struct ExMappedResolutionError(deno_config::workspace::MappedResolutionError);

/// A requirement on a version.
#[verifier::external_type_specification]
#[verifier::external_body]
pub struct ExVersionReq(deno_semver::VersionReq);

/// Whether the dependencies of `package.json` files are resolved by their
/// entries.
#[derive(Clone, Copy, Debug, PartialEq, Eq, Structural)]
pub enum PackageJsonDepResolution {
    Enabled,
    Disabled,
}

/// What a resolver is made of: the root of the workspace, the import map by its
/// URL and its text, the names of the JSR packages, and the `package.json` files.
pub ghost struct ResolverContents {
    pub root: Seq<char>,
    pub import_map: Option<(Seq<char>, Seq<char>)>,
    pub jsr_packages: Seq<Seq<char>>,
    pub package_jsons: Seq<PackageJsonView>,
    pub dep_resolution: PackageJsonDepResolution,
}

/// A dependency of a `package.json` that could be read.
#[derive(Debug)]
pub enum MappedDep {
    /// A requirement on an npm package.
    Req(PackageReq),
    /// A requirement on the version of a package of the workspace.
    Workspace(VersionReq),
}

/// A dependency of a `package.json` that could be read.
pub ghost enum MappedDepView {
    Req(Seq<char>),
    Workspace(Seq<char>),
}

impl DeepView for MappedDep {
    type V = MappedDepView;

    open spec fn deep_view(&self) -> MappedDepView {
        match *self {
            MappedDep::Req(req) => MappedDepView::Req(req_identity(req)),
            MappedDep::Workspace(req) => MappedDepView::Workspace(version_req_identity(req)),
        }
    }
}

/// What a resolver maps a specifier to.
#[derive(Debug)]
pub enum MappedResolution {
    /// A URL: of the specifier itself, by the import map, or of a module of a JSR
    /// package of the workspace.
    Url(Url),
    /// The folder of an npm package of the workspace, and the path below it.
    WorkspaceNpmPackage(String, Option<String>),
    /// A dependency of a `package.json`, or the message where it could not be
    /// read; the name that stands for it; and the path below it.
    PackageJson(Result<PackageJsonDepValue, String>, String, Option<String>),
}

/// What a resolver maps a specifier to.
pub ghost enum MappedResolutionView {
    Url(Seq<char>),
    WorkspaceNpmPackage(Seq<char>, Option<Seq<char>>),
    PackageJson(Result<MappedDepView, Seq<char>>, Seq<char>, Option<Seq<char>>),
}

impl DeepView for MappedResolution {
    type V = MappedResolutionView;

    open spec fn deep_view(&self) -> MappedResolutionView {
        match *self {
            MappedResolution::Url(url) => MappedResolutionView::Url(url_text(url)),
            MappedResolution::WorkspaceNpmPackage(folder, sub_path) =>
                MappedResolutionView::WorkspaceNpmPackage(folder@, sub_path.deep_view()),
            MappedResolution::PackageJson(dep, alias, sub_path) =>
                MappedResolutionView::PackageJson(
                (match dep {
                    Ok(value) => Ok(dependency(value)),
                    Err(message) => Err(message@),
                }),
                alias@,
                sub_path.deep_view(),
            ),
        }
    }
}

/// Why a specifier is not mapped.
#[derive(Debug)]
pub struct MappingError {
    /// Whether the specifier is a bare name that nothing maps.
    pub is_unmapped_bare_specifier: bool,
    pub message: String,
}

/// What mapping a specifier led to.
pub open spec fn mapping_outcome(
    outcome: Result<MappedResolution, MappingError>,
) -> Result<MappedResolutionView, (bool, Seq<char>)> {
    match outcome {
        Ok(mapped) => Ok(mapped.deep_view()),
        Err(error) => Err((error.is_unmapped_bare_specifier, error.message@)),
    }
}

/// What an import map was parsed from: its URL and its text.
pub uninterp spec fn import_map_source(map: ImportMap) -> (Seq<char>, Seq<char>);

/// The message on a text that is no import map, seen from its URL; nothing on
/// one that is.
pub uninterp spec fn import_map_error(base: Seq<char>, json: Seq<char>) -> Option<Seq<char>>;

/// What a resolver is made of.
pub uninterp spec fn resolver_contents(resolver: WorkspaceResolver) -> ResolverContents;

/// A text that tells a version requirement apart from those that differ from it.
pub uninterp spec fn version_req_identity(req: VersionReq) -> Seq<char>;

/// Whether a specifier that is not mapped is a bare name that nothing maps, and
/// the message.
pub uninterp spec fn mapping_failure(error: MappedResolutionError) -> (bool, Seq<char>);

/// What a dependency asks for.
pub uninterp spec fn dependency(value: PackageJsonDepValue) -> MappedDepView;

/// What a resolver maps a specifier to, seen from a referrer; or whether the
/// specifier is a bare name that nothing maps, and the message.
pub uninterp spec fn mapped_resolution(
    contents: ResolverContents,
    specifier: Seq<char>,
    referrer: Seq<char>,
) -> Result<MappedResolutionView, (bool, Seq<char>)>;

/// The folder of the package of the workspace with a name and a version that
/// meets a requirement, or the message where there is none.
pub uninterp spec fn workspace_package_folder(
    contents: ResolverContents,
    name: Seq<char>,
    version_req: Seq<char>,
) -> Result<Seq<char>, Seq<char>>;

/// `import_map::parse_from_json_with_options`, with `npm:` and `jsr:` imports
/// expanded to what is below them: whether the text is an import map, and the
/// message where it is none, depend on the URL and the text alone.
#[verifier::external_body]
pub(crate) fn parse_import_map(base: &Url, json: &str) -> (r: Result<ImportMap, String>)
    ensures
        match r {
            Ok(map) => import_map_error(url_text(*base), json@) is None && import_map_source(map)
                == (url_text(*base), json@),
            Err(message) => import_map_error(url_text(*base), json@) == Some(message@),
        },
{
    let options = import_map::ImportMapOptions { address_hook: None, expand_imports: true };
    match import_map::parse_from_json_with_options(base.clone(), json, options) {
        Ok(parsed) => Ok(parsed.import_map),
        Err(error) => Err(error.to_string()),
    }
}

/// Whether the resolver can take in a `package.json`: it is a file below a
/// directory, and its version requirements can be widened.
pub open spec fn is_resolvable(file: PackageJsonView) -> bool {
    is_absolute(file.path) && path_parent(file.path) is Some && has_widenable_deps(file)
}

/// What loaded `package.json` files say.
pub open spec fn all_contents(files: Seq<Arc<PackageJson>>) -> Seq<PackageJsonView> {
    files.map_values(|file: Arc<PackageJson>| package_json_contents(*file))
}

/// `deno_config::workspace::WorkspaceResolver::new_raw`: a resolver that is made
/// of an import map and `package.json` files, without JSR packages. A file needs
/// a directory above it, whose URL the resolver works with, and no version
/// requirement that is widened beyond the largest number.
#[verifier::external_body]
fn new_resolver(
    root: &Url,
    import_map: Option<ImportMap>,
    package_jsons: Vec<Arc<PackageJson>>,
    dep_resolution: PackageJsonDepResolution,
) -> (r: WorkspaceResolver)
    requires
        forall|i: int|
            0 <= i < package_jsons.len() ==> is_resolvable(
                package_json_contents(*(#[trigger] package_jsons@[i])),
            ),
    ensures
        resolver_contents(r) == (ResolverContents {
            root: url_text(*root),
            import_map: (match import_map {
                Some(map) => Some(import_map_source(map)),
                None => None,
            }),
            jsr_packages: Seq::empty(),
            package_jsons: all_contents(package_jsons@),
            dep_resolution,
        }),
{
    let mode = match dep_resolution {
        PackageJsonDepResolution::Enabled => OuterMode::Enabled,
        PackageJsonDepResolution::Disabled => OuterMode::Disabled,
    };
    let root = Arc::new(root.clone());
    WorkspaceResolver::new_raw(root, import_map, Vec::new(), package_jsons, mode)
}

/// The resolver of a compiled program, which knows no JSR packages.
#[derive(Debug)]
pub struct StandaloneResolver {
    resolver: WorkspaceResolver,
}

impl StandaloneResolver {
    #[verifier::type_invariant]
    spec fn has_no_jsr_packages(self) -> bool {
        resolver_contents(self.resolver).jsr_packages.len() == 0
    }

    /// What the resolver is made of.
    pub closed spec fn contents(&self) -> ResolverContents {
        resolver_contents(self.resolver)
    }

    /// A resolver that is made of an import map and `package.json` files.
    pub(crate) fn new(
        root: &ModuleSpecifier,
        import_map: Option<ImportMap>,
        package_jsons: Vec<Arc<PackageJson>>,
        dep_resolution: PackageJsonDepResolution,
    ) -> (r: StandaloneResolver)
        requires
            forall|i: int|
                0 <= i < package_jsons.len() ==> is_resolvable(
                    package_json_contents(*(#[trigger] package_jsons@[i])),
                ),
        ensures
            r.contents() == (ResolverContents {
                root: root@,
                import_map: (match import_map {
                    Some(map) => Some(import_map_source(map)),
                    None => None,
                }),
                jsr_packages: Seq::empty(),
                package_jsons: all_contents(package_jsons@),
                dep_resolution,
            }),
    {
        let resolver: WorkspaceResolver = new_resolver(
            root.as_url(),
            import_map,
            package_jsons,
            dep_resolution,
        );
        StandaloneResolver { resolver }
    }

    /// The resolver itself.
    pub fn inner(&self) -> (r: &WorkspaceResolver)
        ensures
            resolver_contents(*r) == self.contents(),
    {
        &self.resolver
    }

    /// Whether the resolver can map a specifier, seen from a referrer. An import
    /// map may map a prefix with a slash at its end to a URL without one, and the
    /// parser of JSR references cannot go beyond the largest version number.
    pub fn can_map(&self, specifier: &str, referrer: &ModuleSpecifier) -> (r: bool)
        ensures
            r == is_mappable(map_entries(self.contents(), referrer@), specifier@, referrer@),
    {
        let entries: Vec<(String, Option<String>)> = read_map_entries(
            &self.resolver,
            referrer.as_url(),
        );
        check_mappable(&entries, specifier, referrer)
    }

    /// What the resolver maps a specifier to, seen from a referrer.
    pub(crate) fn map(&self, specifier: &str, referrer: &ModuleSpecifier) -> (r: Result<
        MappedResolution,
        MappingError,
    >)
        requires
            is_mappable(map_entries(self.contents(), referrer@), specifier@, referrer@),
        ensures
            mapping_outcome(r) == mapped_resolution(self.contents(), specifier@, referrer@),
    {
        proof {
            use_type_invariant(self);
        }
        match map_specifier(&self.resolver, specifier, referrer.as_url()) {
            Ok(mapped) => Ok(mapped),
            Err(error) => Err(read_mapping_error(error)),
        }
    }

    /// The folder of the package of the workspace with a name and a version that
    /// meets a requirement.
    pub(crate) fn find_folder(&self, name: &str, version_req: &VersionReq) -> (r: Result<
        String,
        String,
    >)
        ensures
            text_outcome(r) == workspace_package_folder(
                self.contents(),
                name@,
                version_req_identity(*version_req),
            ),
    {
        find_workspace_folder(&self.resolver, name, version_req)
    }
}

/// The entries of the import map of a resolver that apply to a referrer, in the
/// order in which they are looked at: the name or the prefix of a name, and the
/// URL that it is mapped to, unless it is blocked.
pub uninterp spec fn map_entries(contents: ResolverContents, referrer: Seq<char>) -> Seq<
    (Seq<char>, Option<Seq<char>>),
>;

/// `import_map::ImportMap::entries_for_referrer` on the import map of
/// `deno_config::workspace::WorkspaceResolver::maybe_import_map`: the entries
/// depend on what the resolver is made of and on the referrer alone. There are
/// none without an import map.
#[verifier::external_body]
fn read_map_entries(resolver: &WorkspaceResolver, referrer: &Url) -> (r: Vec<
    (String, Option<String>),
>)
    ensures
        r.deep_view() == map_entries(resolver_contents(*resolver), url_text(*referrer)),
{
    let maps = resolver.maybe_import_map().into_iter();
    let entries = maps.flat_map(|map| map.entries_for_referrer(referrer));
    entries.map(|entry| (entry.key.into(), entry.value.map(|url| url.to_string()))).collect()
}

/// Whether a specifier is relative to its referrer.
pub open spec fn is_relative(specifier: Seq<char>) -> bool {
    has_prefix(specifier, "/"@) || has_prefix(specifier, "./"@) || has_prefix(specifier, "../"@)
}

/// The URL that a specifier is, seen from its referrer, if it is one.
pub open spec fn specifier_url(specifier: Seq<char>, referrer: Seq<char>) -> Option<Seq<char>> {
    if is_relative(specifier) && url_joined(referrer, specifier) is Some {
        url_joined(referrer, specifier)
    } else {
        match url_parsed(specifier) {
            Ok(href) => Some(href),
            Err(_) => None,
        }
    }
}

/// Whether the names below a URL can be mapped: its scheme is one of a URL with a
/// hierarchy.
pub open spec fn is_special(href: Seq<char>) -> bool {
    let scheme = scheme_of(href);
    scheme == "ftp"@ || scheme == "file"@ || scheme == "http"@ || scheme == "https"@ || scheme
        == "ws"@ || scheme == "wss"@
}

/// Whether an entry of an import map applies to a name: it maps the name itself,
/// or, with a slash at its end, the names below it.
pub open spec fn entry_applies(key: Seq<char>, name: Seq<char>, maps_below: bool) -> bool {
    key == name || (maps_below && key.len() > 0 && key.last() == '/' && has_prefix(name, key))
}

/// The entry of an import map that a name is mapped by: the first that applies.
pub open spec fn used_entry(
    entries: Seq<(Seq<char>, Option<Seq<char>>)>,
    name: Seq<char>,
    maps_below: bool,
) -> Option<(Seq<char>, Option<Seq<char>>)>
    decreases entries.len(),
{
    if entries.len() == 0 {
        None
    } else {
        let before = used_entry(entries.drop_last(), name, maps_below);
        if before is Some {
            before
        } else if entry_applies(entries.last().0, name, maps_below) {
            Some(entries.last())
        } else {
            None
        }
    }
}

proof fn lemma_used_entry_stays(
    entries: Seq<(Seq<char>, Option<Seq<char>>)>,
    name: Seq<char>,
    maps_below: bool,
    count: int,
)
    requires
        0 <= count <= entries.len(),
        used_entry(entries.take(count), name, maps_below) is Some,
    ensures
        used_entry(entries, name, maps_below) == used_entry(entries.take(count), name, maps_below),
    decreases entries.len() - count,
{
    if count == entries.len() {
        assert(entries.take(count) == entries);
    } else {
        assert(entries.take(count + 1).drop_last() == entries.take(count));
        lemma_used_entry_stays(entries, name, maps_below, count + 1);
    }
}

proof fn lemma_used_entry_applies(
    entries: Seq<(Seq<char>, Option<Seq<char>>)>,
    name: Seq<char>,
    maps_below: bool,
)
    ensures
        used_entry(entries, name, maps_below) matches Some((key, _)) ==> entry_applies(
            key,
            name,
            maps_below,
        ),
    decreases entries.len(),
{
    if entries.len() > 0 {
        lemma_used_entry_applies(entries.drop_last(), name, maps_below);
    }
}

/// What a percent sign with two characters behind it stands for, as far as it
/// matters for a version: a digit, a character with a meaning there, or nothing
/// where it is a break, which a URL leaves out.
pub open spec fn unescaped(high: char, low: char) -> Seq<char> {
    if high == '3' && is_digit(low) {
        seq![low]
    } else if high == '4' && low == '0' {
        seq!['@']
    } else if high == '2' && (low == 'f' || low == 'F') {
        seq!['/']
    } else if high == '2' && (low == 'e' || low == 'E') {
        seq!['.']
    } else if high == '2' && (low == 'a' || low == 'A') {
        seq!['*']
    } else if high == '5' && low == '8' {
        seq!['X']
    } else if high == '7' && low == '8' {
        seq!['x']
    } else if high == '5' && (low == 'e' || low == 'E') {
        seq!['^']
    } else if high == '7' && (low == 'e' || low == 'E') {
        seq!['~']
    } else if high == '0' && (low == '9' || low == 'a' || low == 'A' || low == 'd' || low == 'D') {
        Seq::empty()
    } else {
        seq!['%']
    }
}

/// Whether a character is a hexadecimal digit.
pub open spec fn is_hex(c: char) -> bool {
    is_digit(c) || 'a' <= c <= 'f' || 'A' <= c <= 'F'
}

/// Whether a character is a tab or a line break, which a URL leaves out.
pub open spec fn is_break(c: char) -> bool {
    c == '\t' || c == '\n' || c == '\r'
}

/// A name with what is escaped in it written out, and without breaks, from an
/// index on.
pub open spec fn written_out(name: Seq<char>, from: int) -> Seq<char>
    decreases name.len() - from,
{
    if from >= name.len() {
        Seq::empty()
    } else if name[from] == '%' && from + 2 < name.len() && is_hex(name[from + 1]) && is_hex(
        name[from + 2],
    ) {
        unescaped(name[from + 1], name[from + 2]) + written_out(name, from + 3)
    } else if is_break(name[from]) {
        written_out(name, from + 1)
    } else {
        seq![name[from]] + written_out(name, from + 1)
    }
}

/// Whether a URL refers to a JSR package in more than the largest version number.
pub open spec fn is_unreadable_jsr(href: Seq<char>) -> bool {
    scheme_of(href) == "jsr"@ && asks_beyond_largest(href)
}

/// Whether a path can be put behind a URL as it is: it does not start over, holds no
/// escapes, and none of its segments leads elsewhere.
pub open spec fn goes_behind_url(path: Seq<char>) -> bool {
    let segments = split_parts(path, '/');
    &&& !has_prefix(path, "/"@)
    &&& forall|i: int| 0 <= i < path.len() ==> #[trigger] path[i] != '%'
    &&& forall|i: int|
        0 <= i < segments.len() ==> #[trigger] segments[i] != "."@ && segments[i] != ".."@
}

/// Whether a path below a JSR URL asks for a package in more than the largest version
/// number. Each of its segments may do so if it cannot be put behind the URL as it is.
pub open spec fn path_asks_beyond(address: Seq<char>, path: Seq<char>) -> bool {
    if goes_behind_url(path) {
        asks_beyond_largest(address + path)
    } else {
        has_segment_beyond_largest(path)
    }
}

/// Whether an entry of an import map can map a name: a prefix with a slash at its
/// end leads to a URL with one, and no JSR package is asked for in more than the
/// largest version number.
pub open spec fn can_be_used(key: Seq<char>, address: Seq<char>, name: Seq<char>) -> bool {
    &&& !is_unreadable_jsr(address)
    &&& key != name ==> address.len() > 0 && address.last() == '/' && !(scheme_of(address)
        == "jsr"@ && path_asks_beyond(address, written_out(name.skip(key.len() as int), 0)))
}

/// Whether the resolver can map a specifier, seen from a referrer, given the
/// entries of the import map that apply to the referrer.
pub open spec fn is_mappable(
    entries: Seq<(Seq<char>, Option<Seq<char>>)>,
    specifier: Seq<char>,
    referrer: Seq<char>,
) -> bool {
    let url = specifier_url(specifier, referrer);
    let name = match url {
        Some(href) => href,
        None => specifier,
    };
    match used_entry(entries, name, url is None || is_special(name)) {
        Some((key, Some(address))) => can_be_used(key, address, name),
        Some((_, None)) => true,
        None => url is Some ==> !is_unreadable_jsr(name),
    }
}

fn find_specifier_url(specifier: &str, referrer: &ModuleSpecifier) -> (r: Option<ModuleSpecifier>)
    ensures
        r.deep_view() == specifier_url(specifier@, referrer@),
{
    let relative: bool = starts_with_text(specifier, "/") || starts_with_text(specifier, "./")
        || starts_with_text(specifier, "../");
    if relative {
        if let Some(url) = referrer.join(specifier) {
            return Some(url);
        }
    }
    match ModuleSpecifier::parse(specifier) {
        Ok(url) => Some(url),
        Err(_) => None,
    }
}

fn check_special(url: &ModuleSpecifier) -> (r: bool)
    ensures
        r == is_special(url@),
{
    url.has_scheme("ftp") || url.has_scheme("file") || url.has_scheme("http") || url.has_scheme(
        "https",
    ) || url.has_scheme("ws") || url.has_scheme("wss")
}

fn find_used_entry(
    entries: &Vec<(String, Option<String>)>,
    name: &str,
    maps_below: bool,
) -> (r: Option<usize>)
    ensures
        match r {
            Some(i) => i < entries.len() && used_entry(entries.deep_view(), name@, maps_below)
                == Some(entries.deep_view()[i as int]),
            None => used_entry(entries.deep_view(), name@, maps_below) is None,
        },
{
    let mut i: usize = 0;
    assert(entries.deep_view().take(0) == Seq::<(Seq<char>, Option<Seq<char>>)>::empty());
    while i < entries.len()
        invariant
            i <= entries.len(),
            used_entry(entries.deep_view().take(i as int), name@, maps_below) is None,
        decreases entries.len() - i,
    {
        assert(entries.deep_view().take(i + 1).drop_last() == entries.deep_view().take(i as int));
        assert(entries.deep_view().take(i + 1).last() == entries@[i as int].deep_view());
        let key: &str = entries[i].0.as_str();
        if same_text(key, name) || (maps_below && ends_with_slash(key) && starts_with_text(
            name,
            key,
        )) {
            proof {
                lemma_used_entry_stays(entries.deep_view(), name@, maps_below, i + 1);
            }
            return Some(i);
        }
        i = i + 1;
    }
    assert(entries.deep_view().take(i as int) == entries.deep_view());
    None
}

fn ends_with_slash(text: &str) -> (r: bool)
    ensures
        r == (text@.len() > 0 && text@.last() == '/'),
{
    let chars: Vec<char> = chars_of(text);
    chars.len() > 0 && chars[chars.len() - 1] == '/'
}

fn check_hex(c: char) -> (r: bool)
    ensures
        r == is_hex(c),
{
    ('0' <= c && c <= '9') || ('a' <= c && c <= 'f') || ('A' <= c && c <= 'F')
}

proof fn lemma_written_characters()
    ensures
        "@"@ == seq!['@'],
        "/"@ == seq!['/'],
        "."@ == seq!['.'],
        "*"@ == seq!['*'],
        "X"@ == seq!['X'],
        "x"@ == seq!['x'],
        "^"@ == seq!['^'],
        "~"@ == seq!['~'],
        "%"@ == seq!['%'],
        ""@ == Seq::<char>::empty(),
{
    reveal_strlit("@");
    reveal_strlit("/");
    reveal_strlit(".");
    reveal_strlit("*");
    reveal_strlit("X");
    reveal_strlit("x");
    reveal_strlit("^");
    reveal_strlit("~");
    reveal_strlit("%");
    reveal_strlit("");
}

fn write_out(name: &str) -> (r: String)
    ensures
        r@ == written_out(name@, 0),
{
    let chars: Vec<char> = chars_of(name);
    let mut r: String = String::new();
    let mut i: usize = 0;
    assert(r@ + written_out(name@, 0) == written_out(name@, 0));
    while i < chars.len()
        invariant
            i <= chars.len(),
            chars@ == name@,
            r@ + written_out(name@, i as int) == written_out(name@, 0),
        decreases chars.len() - i,
    {
        let ghost before = r@;
        let c: char = chars[i];
        if c == '%' && chars.len() - i > 2 && check_hex(chars[i + 1]) && check_hex(chars[i + 2]) {
            let high: char = chars[i + 1];
            let low: char = chars[i + 2];
            let part: &str = if high == '3' && '0' <= low && low <= '9' {
                name.substring_char(i + 2, i + 3)
            } else if high == '4' && low == '0' {
                "@"
            } else if high == '2' && (low == 'f' || low == 'F') {
                "/"
            } else if high == '2' && (low == 'e' || low == 'E') {
                "."
            } else if high == '2' && (low == 'a' || low == 'A') {
                "*"
            } else if high == '5' && low == '8' {
                "X"
            } else if high == '7' && low == '8' {
                "x"
            } else if high == '5' && (low == 'e' || low == 'E') {
                "^"
            } else if high == '7' && (low == 'e' || low == 'E') {
                "~"
            } else if high == '0' && (low == '9' || low == 'a' || low == 'A' || low == 'd' || low
                == 'D') {
                ""
            } else {
                "%"
            };
            assert(part@ == unescaped(high, low)) by {
                lemma_written_characters();
            }
            r.append(part);
            assert(r@ + written_out(name@, i + 3) == before + written_out(name@, i as int));
            i = i + 3;
        } else if c == '\t' || c == '\n' || c == '\r' {
            i = i + 1;
        } else {
            let part: &str = name.substring_char(i, i + 1);
            assert(part@ == seq![c]);
            r.append(part);
            assert(r@ + written_out(name@, i + 1) == before + written_out(name@, i as int));
            i = i + 1;
        }
    }
    assert(r@ + written_out(name@, i as int) == r@);
    r
}

fn check_behind_url(path: &str) -> (r: bool)
    ensures
        r == goes_behind_url(path@),
{
    if starts_with_text(path, "/") {
        return false;
    }
    let chars: Vec<char> = chars_of(path);
    let mut i: usize = 0;
    while i < chars.len()
        invariant
            i <= chars.len(),
            chars@ == path@,
            forall|k: int| 0 <= k < i ==> #[trigger] path@[k] != '%',
        decreases chars.len() - i,
    {
        if chars[i] == '%' {
            return false;
        }
        i = i + 1;
    }
    let segments: Vec<String> = split_text(path, '/');
    let ghost view = split_parts(path@, '/');
    let mut k: usize = 0;
    while k < segments.len()
        invariant
            k <= segments.len(),
            segments.deep_view() == view,
            view == split_parts(path@, '/'),
            forall|n: int| 0 <= n < k ==> #[trigger] view[n] != "."@ && view[n] != ".."@,
        decreases segments.len() - k,
    {
        assert(view[k as int] == segments@[k as int]@);
        let segment: &str = segments[k].as_str();
        if same_text(segment, ".") || same_text(segment, "..") {
            return false;
        }
        k = k + 1;
    }
    true
}

fn check_path(address: &str, path: &str) -> (r: bool)
    ensures
        r == path_asks_beyond(address@, path@),
{
    if check_behind_url(path) {
        check_asks_beyond_largest(concat2(address, path).as_str())
    } else {
        check_segments(path)
    }
}

fn check_mappable(
    entries: &Vec<(String, Option<String>)>,
    specifier: &str,
    referrer: &ModuleSpecifier,
) -> (r: bool)
    ensures
        r == is_mappable(entries.deep_view(), specifier@, referrer@),
{
    let url: Option<ModuleSpecifier> = find_specifier_url(specifier, referrer);
    let (name, maps_below): (&str, bool) = match &url {
        Some(url) => (url.as_str(), check_special(url)),
        None => (specifier, true),
    };
    match find_used_entry(entries, name, maps_below) {
        Some(i) => {
            assert(entries.deep_view()[i as int] == entries@[i as int].deep_view());
            match &entries[i].1 {
                Some(address) => {
                    let is_jsr: bool = has_jsr_scheme(address.as_str());
                    if is_jsr && check_asks_beyond_largest(address.as_str()) {
                        return false;
                    }
                    let key: &str = entries[i].0.as_str();
                    if same_text(key, name) {
                        return true;
                    }
                    if !ends_with_slash(address.as_str()) {
                        return false;
                    }
                    proof {
                        lemma_used_entry_applies(entries.deep_view(), name@, maps_below);
                    }
                    let rest: &str = name.substring_char(key.unicode_len(), name.unicode_len());
                    assert(rest@ == name@.skip(key@.len() as int));
                    !(is_jsr && check_path(address.as_str(), write_out(rest).as_str()))
                },
                None => true,
            }
        },
        None => match &url {
            Some(url) => !(url.has_scheme("jsr") && check_asks_beyond_largest(url.as_str())),
            None => true,
        },
    }
}

fn has_jsr_scheme(href: &str) -> (r: bool)
    ensures
        r == (scheme_of(href@) == "jsr"@),
{
    proof {
        lemma_split_not_empty(href@, ':');
    }
    let parts: Vec<String> = split_text(href, ':');
    assert(parts.deep_view()[0] == parts@[0]@);
    same_text(parts[0].as_str(), "jsr")
}

/// `deno_config::workspace::WorkspaceResolver::resolve`: what the specifier is
/// mapped to depends on what the resolver is made of, the specifier and the
/// referrer. The crate panics where a prefix with a slash at its end is mapped to
/// a URL without one, on a JSR package whose version it widens beyond the largest
/// number, and on one with a tag in place of a version that is among the resolver's
/// JSR packages.
#[verifier::external_body]
fn map_specifier(resolver: &WorkspaceResolver, specifier: &str, referrer: &Url) -> (r: Result<
    MappedResolution,
    MappedResolutionError,
>)
    requires
        resolver_contents(*resolver).jsr_packages.len() == 0,
        is_mappable(
            map_entries(resolver_contents(*resolver), url_text(*referrer)),
            specifier@,
            url_text(*referrer),
        ),
    ensures
        mapped_resolution(resolver_contents(*resolver), specifier@, url_text(*referrer)) == (
        match r {
            Ok(mapped) => Ok::<MappedResolutionView, (bool, Seq<char>)>(mapped.deep_view()),
            Err(error) => Err(mapping_failure(error)),
        }),
{
    resolver.resolve(specifier, referrer).map(|mapped| match mapped {
        Outer::Normal { specifier: url, .. }
        | Outer::ImportMap { specifier: url, .. }
        | Outer::WorkspaceJsrPackage { specifier: url, .. } => MappedResolution::Url(url),
        Outer::WorkspaceNpmPackage { target_pkg_json: file, sub_path, .. } => {
            let folder = file.dir_path().display().to_string();
            MappedResolution::WorkspaceNpmPackage(folder, sub_path)
        },
        Outer::PackageJson { dep_result, alias, sub_path, .. } => {
            let dep = dep_result.clone().map_err(|error| error.to_string());
            MappedResolution::PackageJson(dep, alias.into(), sub_path)
        },
    })
}

/// `deno_config::workspace::MappedResolutionError::is_unmapped_bare_specifier`,
/// and the text of the error.
#[verifier::external_body]
fn read_mapping_error(error: MappedResolutionError) -> (r: MappingError)
    ensures
        (r.is_unmapped_bare_specifier, r.message@) == mapping_failure(error),
{
    MappingError {
        is_unmapped_bare_specifier: error.is_unmapped_bare_specifier(),
        message: error.to_string(),
    }
}

/// Tells the variants of `deno_package_json::PackageJsonDepValue` apart.
#[verifier::external_body]
pub(crate) fn read_dependency(value: PackageJsonDepValue) -> (r: MappedDep)
    ensures
        r.deep_view() == dependency(value),
{
    match value {
        PackageJsonDepValue::Req(req) => MappedDep::Req(req),
        PackageJsonDepValue::Workspace(req) => MappedDep::Workspace(req),
    }
}

/// `WorkspaceResolver::resolve_workspace_pkg_json_folder_for_pkg_json_dep` of
/// `deno_config::workspace`: the folder, and the message where there is none,
/// depend on what the resolver is made of, the name and the requirement.
#[verifier::external_body]
fn find_workspace_folder(
    resolver: &WorkspaceResolver,
    name: &str,
    version_req: &VersionReq,
) -> (r: Result<String, String>)
    ensures
        text_outcome(r) == workspace_package_folder(
            resolver_contents(*resolver),
            name@,
            version_req_identity(*version_req),
        ),
{
    let found = resolver.resolve_workspace_pkg_json_folder_for_pkg_json_dep(name, version_req);
    found.map(|path| path.display().to_string()).map_err(|error| error.to_string())
}

/// Without an import map, a specifier can be mapped unless it is a JSR URL that asks for
/// more than the largest version number.
pub proof fn law_mapping_without_import_map(
    resolver: &StandaloneResolver,
    specifier: &str,
    referrer: &ModuleSpecifier,
    r: bool,
)
    requires
        call_ensures(StandaloneResolver::can_map, (resolver, specifier, referrer), r),
        map_entries(resolver.contents(), referrer@).len() == 0,
    ensures
        specifier_url(specifier@, referrer@) is None ==> r,
        specifier_url(specifier@, referrer@) matches Some(url) ==> (r <==> !(scheme_of(url)
            == "jsr"@ && asks_beyond_largest(url))),
{
}

/// A specifier that an entry of the import map stands for can be mapped unless the entry
/// leads to a JSR package in more than the largest version number; an entry that blocks
/// it can always be used.
pub proof fn law_mapping_by_entry(
    resolver: &StandaloneResolver,
    specifier: &str,
    referrer: &ModuleSpecifier,
    r: bool,
)
    requires
        call_ensures(StandaloneResolver::can_map, (resolver, specifier, referrer), r),
        map_entries(resolver.contents(), referrer@).len() == 1,
        specifier_url(specifier@, referrer@) is None,
        map_entries(resolver.contents(), referrer@)[0].0 == specifier@,
    ensures
        ({
            let address = map_entries(resolver.contents(), referrer@)[0].1;
            &&& address is None ==> r
            &&& address matches Some(url) ==> (r <==> !(scheme_of(url) == "jsr"@
                && asks_beyond_largest(url)))
        }),
{
    let entries = map_entries(resolver.contents(), referrer@);
    reveal_with_fuel(used_entry, 2);
    assert(entries.last() == entries[0]);
    assert(entries.drop_last().len() == 0);
}

/// The URL of a specifier: a relative one is joined to its referrer, and any other has to
/// be a URL by itself.
pub proof fn law_specifier_url(specifier: Seq<char>, referrer: Seq<char>)
    ensures
        !has_prefix(specifier, "/"@) && !has_prefix(specifier, "./"@) && !has_prefix(
            specifier,
            "../"@,
        ) ==> {
            &&& url_parsed(specifier) matches Ok(url) ==> specifier_url(specifier, referrer)
                == Some(url)
            &&& url_parsed(specifier) is Err ==> specifier_url(specifier, referrer) is None
        },
        has_prefix(specifier, "/"@) || has_prefix(specifier, "./"@) || has_prefix(
            specifier,
            "../"@,
        ) ==> (url_joined(referrer, specifier) is Some ==> specifier_url(specifier, referrer)
            == url_joined(referrer, specifier)),
{
}

proof fn lemma_written_out_plain(name: Seq<char>, from: int)
    requires
        0 <= from <= name.len(),
        forall|i: int| 0 <= i < name.len() ==> #[trigger] name[i] != '%' && !is_break(name[i]),
    ensures
        written_out(name, from) == name.skip(from),
    decreases name.len() - from,
{
    if from < name.len() {
        assert(name[from] != '%' && !is_break(name[from]));
        lemma_written_out_plain(name, from + 1);
        assert(seq![name[from]] + name.skip(from + 1) == name.skip(from));
    } else {
        assert(name.skip(from) == Seq::<char>::empty());
    }
}

proof fn lemma_largest_across(before: Seq<char>, behind: Seq<char>)
    requires
        before.len() > 0 && before.last() == '/',
        !holds_largest(before),
        !holds_largest(behind),
    ensures
        !holds_largest(before + behind),
{
    reveal_strlit("18446744073709551615");
    let part = "18446744073709551615"@;
    let whole = before + behind;
    if holds_largest(whole) {
        let i = choose|i: int|
            0 <= i && i + part.len() <= whole.len() && #[trigger] whole.subrange(i, i + part.len())
                == part;
        let slash = before.len() - 1;
        if i <= slash < i + part.len() {
            assert(whole[slash] == '/');
            assert(whole.subrange(i, i + part.len())[slash - i] == part[slash - i]);
            assert(part[slash - i] != '/');
        } else if i + part.len() <= slash {
            assert(before.subrange(i, i + part.len()) == part);
        } else {
            let k = i - before.len();
            assert(behind.subrange(k, k + part.len()) == part);
        }
    }
}

proof fn lemma_plain_jsr(text: Seq<char>)
    requires
        !holds_largest(text),
    ensures
        !asks_beyond_largest(text),
        !has_segment_beyond_largest(text),
{
    if text.len() >= 4 {
        let reference = text.skip(4);
        if let Some(version) = reference_requirement(reference) {
            lemma_reference_requirement_is_part(reference);
            if holds_largest(version) {
                lemma_part_of_part(reference, version, "18446744073709551615"@);
                lemma_part_behind(text, 4, "18446744073709551615"@);
            }
            lemma_plain_requirement(version);
        }
    }
    let parts = split_parts(text, '/');
    assert forall|i: int| 0 <= i < parts.len() implies !segment_asks_beyond(#[trigger] parts[i]) by {
        lemma_split_part_is_part(text, '/', i);
        law_last_at(parts[i]);
        if let Some(at) = last_at(parts[i]) {
            let version = parts[i].skip(at + 1);
            if holds_largest(version) {
                lemma_part_behind(parts[i], at + 1, "18446744073709551615"@);
                lemma_part_of_part(text, parts[i], "18446744073709551615"@);
            }
            lemma_plain_requirement(version);
        }
    }
}

/// Specifiers and import maps that do not hold the largest version number: a specifier can
/// be mapped unless the entry that is used for it is a prefix whose address has no slash
/// at its end.
pub proof fn law_ordinary_mappings(
    resolver: &StandaloneResolver,
    specifier: &str,
    referrer: &ModuleSpecifier,
    name: Seq<char>,
    r: bool,
)
    requires
        call_ensures(StandaloneResolver::can_map, (resolver, specifier, referrer), r),
        specifier_url(specifier@, referrer@) is None ==> name == specifier@,
        specifier_url(specifier@, referrer@) is Some ==> Some(name) == specifier_url(
            specifier@,
            referrer@,
        ),
        !holds_largest(name),
        forall|i: int| 0 <= i < name.len() ==> #[trigger] name[i] != '%' && !is_break(name[i]),
        forall|i: int|
            0 <= i < map_entries(resolver.contents(), referrer@).len() ==> (
            #[trigger] map_entries(resolver.contents(), referrer@)[i].1 matches Some(address)
                ==> !holds_largest(address)),
    ensures
        ({
            let entries = map_entries(resolver.contents(), referrer@);
            let maps_below = specifier_url(specifier@, referrer@) is None || is_special(name);
            let used = used_entry(entries, name, maps_below);
            &&& used is None ==> r
            &&& used matches Some((_, None)) ==> r
            &&& used matches Some((key, Some(address))) ==> (r <==> key == name || (address.len() > 0
                && address.last() == '/'))
        }),
{
    let entries = map_entries(resolver.contents(), referrer@);
    let maps_below = specifier_url(specifier@, referrer@) is None || is_special(name);
    lemma_plain_jsr(name);
    lemma_used_entry_applies(entries, name, maps_below);
    lemma_used_entry_is_there(entries, name, maps_below);
    if let Some((key, Some(address))) = used_entry(entries, name, maps_below) {
        let at = choose|i: int| 0 <= i < entries.len() && entries[i] == (key, Some(address));
        assert(entries[at].1 == Some(address));
        lemma_plain_jsr(address);
        if key != name && address.len() > 0 && address.last() == '/' {
            let rest = name.skip(key.len() as int);
            assert forall|i: int| 0 <= i < rest.len() implies #[trigger] rest[i] != '%'
                && !is_break(rest[i]) by {
                assert(rest[i] == name[key.len() + i]);
            }
            lemma_written_out_plain(rest, 0);
            assert(rest.skip(0) == rest);
            if holds_largest(rest) {
                lemma_part_behind(name, key.len() as int, "18446744073709551615"@);
            }
            lemma_plain_jsr(rest);
            lemma_largest_across(address, rest);
            lemma_plain_jsr(address + rest);
        }
    }
}

proof fn lemma_used_entry_is_there(
    entries: Seq<(Seq<char>, Option<Seq<char>>)>,
    name: Seq<char>,
    maps_below: bool,
)
    ensures
        used_entry(entries, name, maps_below) matches Some(used) ==> entries.contains(used),
    decreases entries.len(),
{
    if entries.len() > 0 {
        let front = entries.drop_last();
        lemma_used_entry_is_there(front, name, maps_below);
        if let Some(used) = used_entry(front, name, maps_below) {
            let i = choose|i: int| 0 <= i < front.len() && front[i] == used;
            assert(entries[i] == used);
        } else {
            assert(entries.contains(entries[entries.len() - 1]));
        }
    }
}

/// The entry of an import map that is used for a name is the first that is the name itself
/// or, with a slash at its end, what the name begins with.
pub proof fn law_used_entry(
    entries: Seq<(Seq<char>, Option<Seq<char>>)>,
    name: Seq<char>,
    maps_below: bool,
    at: int,
)
    requires
        0 <= at < entries.len(),
        entries[at].0 == name || (maps_below && entries[at].0.len() > 0 && entries[at].0.last()
            == '/' && has_prefix(name, entries[at].0)),
        forall|i: int|
            0 <= i < at ==> (#[trigger] entries[i]).0 != name && !(entries[i].0.len() > 0
                && entries[i].0.last() == '/' && has_prefix(name, entries[i].0)),
    ensures
        used_entry(entries, name, maps_below) == Some(entries[at]),
    decreases entries.len(),
{
    lemma_no_entry_before(entries.take(at), name, maps_below);
    assert(entries.take(at + 1).drop_last() == entries.take(at));
    assert(entries.take(at + 1).last() == entries[at]);
    lemma_used_entry_stays(entries, name, maps_below, at + 1);
}

proof fn lemma_no_entry_before(
    entries: Seq<(Seq<char>, Option<Seq<char>>)>,
    name: Seq<char>,
    maps_below: bool,
)
    requires
        forall|i: int|
            0 <= i < entries.len() ==> (#[trigger] entries[i]).0 != name && !(entries[i].0.len() > 0
                && entries[i].0.last() == '/' && has_prefix(name, entries[i].0)),
    ensures
        used_entry(entries, name, maps_below) is None,
    decreases entries.len(),
{
    if entries.len() > 0 {
        let front = entries.drop_last();
        assert forall|i: int| 0 <= i < front.len() implies (#[trigger] front[i]).0 != name && !(
        front[i].0.len() > 0 && front[i].0.last() == '/' && has_prefix(name, front[i].0)) by {
            assert(front[i] == entries[i]);
        }
        lemma_no_entry_before(front, name, maps_below);
        assert(entries[entries.len() - 1] == entries.last());
    }
}

} // verus!
