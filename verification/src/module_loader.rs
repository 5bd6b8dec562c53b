//! How the modules of a compiled program are resolved and loaded.

use deno_npm::resolution::ValidSerializedNpmResolutionSnapshot;
use deno_semver::package::PackageReq;
use eszip::EszipV2;
use url::Url;
use vstd::prelude::*;
use vstd::utf8::*;

use crate::managed::req_identity;
use crate::packages::{
    can_read_reference, is_readable_reference, npm_reference, NpmPackageReqReference,
};
use crate::process_state::{valid_snapshot_packages, SnapshotView};
use crate::specifier::{
    scheme_of, text_of_url, text_outcome, url_joined, url_parsed, url_relative, url_text, ModuleSpecifier,
};
use crate::text::{concat2, concat3, has_prefix, same_text};
use crate::workspace_resolver::{
    dependency, is_mappable, map_entries, mapped_resolution, mapping_outcome, read_dependency,
    workspace_package_folder, MappedDep, MappedDepView, MappedResolution, MappedResolutionView,
    MappingError, ResolverContents, StandaloneResolver,
};

verus! {

/// An archive of modules.
#[verifier::external_type_specification]
#[verifier::external_body]
pub struct ExEszipV2(eszip::EszipV2);

/// A module in an archive.
#[verifier::external_type_specification]
#[verifier::external_body]
pub struct ExModule(eszip::Module);

/// What a module in an archive holds.
#[derive(Clone, Copy, Debug, PartialEq, Eq, Structural)]
pub enum ModuleKind {
    JavaScript,
    Json,
    Jsonc,
    OpaqueData,
}

/// The modules of an archive by the keys that lead to them, redirects included:
/// their own keys, and what they hold.
pub uninterp spec fn archived_modules(archive: EszipV2) -> Map<Seq<char>, (Seq<char>, ModuleKind)>;

/// The key of a module in its archive.
pub uninterp spec fn module_key(module: eszip::Module) -> Seq<char>;

/// The npm packages that an archive comes with, if any.
pub uninterp spec fn archived_snapshot(archive: EszipV2) -> Option<SnapshotView>;

/// The text that a `data:` URL holds, or the message on one that cannot be
/// decoded.
pub uninterp spec fn data_url_text(href: Seq<char>) -> Result<Seq<char>, Seq<char>>;

/// The key of a module in an archive: modules below the base of the archive are
/// found by the relative reference, all others by their URLs.
pub open spec fn archive_key(base: Seq<char>, target: Seq<char>) -> Seq<char> {
    if scheme_of(target) != "file"@ {
        target
    } else {
        match url_relative(base, target) {
            Some(relative) => if has_prefix(relative, "../"@) {
                target
            } else {
                relative
            },
            None => target,
        }
    }
}

/// `eszip::EszipRelativeFileBaseUrl::specifier_key`: the key of a module below a
/// base, which is a file URL.
#[verifier::external_body]
fn specifier_key(base: &Url, target: &Url) -> (r: String)
    requires
        scheme_of(url_text(*base)) == "file"@,
    ensures
        r@ == archive_key(url_text(*base), url_text(*target)),
{
    eszip::EszipRelativeFileBaseUrl::new(base).specifier_key(target).into_owned()
}

/// `eszip::EszipV2::get_module`: the module that a key leads to, with its own
/// key, which is also that of the handed out module, and what it holds. JSON with
/// comments is not handed out.
#[verifier::external_body]
fn find_module(archive: &EszipV2, key: &str) -> (r: Option<(String, ModuleKind, eszip::Module)>)
    ensures
        match r {
            Some((specifier, kind, module)) => archived_modules(*archive).contains_key(key@)
                && archived_modules(*archive)[key@] == (specifier@, kind) && kind
                != ModuleKind::Jsonc && module_key(module) == specifier@,
            None => !archived_modules(*archive).contains_key(key@) || archived_modules(
                *archive,
            )[key@].1 == ModuleKind::Jsonc,
        },
{
    let module = archive.get_module(key)?;
    let kind = match module.kind {
        eszip::ModuleKind::JavaScript => ModuleKind::JavaScript,
        eszip::ModuleKind::Json => ModuleKind::Json,
        eszip::ModuleKind::Jsonc => ModuleKind::Jsonc,
        eszip::ModuleKind::OpaqueData => ModuleKind::OpaqueData,
    };
    Some((module.specifier.clone(), kind, module))
}

/// `eszip::EszipV2::take_npm_snapshot`: takes out the npm packages, and leaves the
/// modules as they are.
#[verifier::external_body]
pub(crate) fn take_snapshot(archive: &mut EszipV2) -> (r: Option<
    ValidSerializedNpmResolutionSnapshot,
>)
    ensures
        archived_snapshot(*old(archive)) == (match r {
            Some(snapshot) => Some(valid_snapshot_packages(snapshot)),
            None => None,
        }),
        archived_snapshot(*final(archive)) is None,
        archived_modules(*final(archive)) == archived_modules(*old(archive)),
{
    archive.take_npm_snapshot()
}

/// `parse` and `decode` of `deno_graph::source::RawDataUrl`: the text, and the
/// message of the error, depend on the URL alone.
#[verifier::external_body]
fn decode_data_url(url: &Url) -> (r: Result<String, String>)
    ensures
        text_outcome(r) == data_url_text(url_text(*url)),
{
    let data = deno_graph::source::RawDataUrl::parse(url).and_then(|data| data.decode());
    data.map_err(|error| error.to_string())
}

/// `String::from_utf8`: the text that bytes encode, if they are UTF-8.
#[verifier::external_body]
fn utf8_text(bytes: Vec<u8>) -> (r: Option<String>)
    ensures
        r is Some <==> valid_utf8(bytes@),
        r matches Some(text) ==> text@ == decode_utf8(bytes@),
{
    String::from_utf8(bytes).ok()
}

/// An archive of modules, with the base that its file modules are seen from.
pub struct WorkspaceEszip {
    eszip: EszipV2,
    root_dir_url: ModuleSpecifier,
}

/// A module of an archive, with its URL.
pub struct WorkspaceEszipModule {
    pub specifier: ModuleSpecifier,
    pub kind: ModuleKind,
    pub inner: eszip::Module,
}

/// The key that a URL is looked up by in an archive.
pub open spec fn lookup_key(root: Seq<char>, specifier: Seq<char>) -> Seq<char> {
    if scheme_of(specifier) == "file"@ {
        archive_key(root, specifier)
    } else {
        specifier
    }
}

/// The module of an archive that a URL leads to: its URL and what it holds.
/// Nothing where there is no such module, or its key makes no URL.
pub open spec fn module_at(
    modules: Map<Seq<char>, (Seq<char>, ModuleKind)>,
    root: Seq<char>,
    specifier: Seq<char>,
) -> Option<(Seq<char>, ModuleKind)> {
    let key = lookup_key(root, specifier);
    if !modules.contains_key(key) || modules[key].1 == ModuleKind::Jsonc {
        None
    } else if scheme_of(specifier) == "file"@ {
        match url_joined(root, modules[key].0) {
            Some(url) => Some((url, modules[key].1)),
            None => None,
        }
    } else {
        match url_parsed(modules[key].0) {
            Ok(url) => Some((url, modules[key].1)),
            Err(_) => None,
        }
    }
}

impl WorkspaceEszip {
    #[verifier::type_invariant]
    spec fn has_file_root(self) -> bool {
        scheme_of(self.root_dir_url@) == "file"@
    }

    /// The modules of the archive.
    pub closed spec fn modules(&self) -> Map<Seq<char>, (Seq<char>, ModuleKind)> {
        archived_modules(self.eszip)
    }

    /// The base that file modules are seen from.
    pub closed spec fn root(&self) -> Seq<char> {
        self.root_dir_url@
    }

    /// An archive whose file modules are seen from `root_dir_url`, unless that is
    /// no file URL.
    pub fn new(eszip: EszipV2, root_dir_url: ModuleSpecifier) -> (r: Option<WorkspaceEszip>)
        ensures
            r is Some <==> scheme_of(root_dir_url@) == "file"@,
            r matches Some(archive) ==> archive.modules() == archived_modules(eszip)
                && archive.root() == root_dir_url@,
    {
        if root_dir_url.has_scheme("file") {
            Some(WorkspaceEszip { eszip, root_dir_url })
        } else {
            None
        }
    }

    /// The module that a URL leads to.
    pub fn get_module(&self, specifier: &ModuleSpecifier) -> (r: Option<WorkspaceEszipModule>)
        ensures
            match module_at(self.modules(), self.root(), specifier@) {
                Some((url, kind)) => r is Some && r->0.specifier@ == url && r->0.kind == kind
                    && module_key(r->0.inner) == self.modules()[lookup_key(
                    self.root(),
                    specifier@,
                )].0,
                None => r is None,
            },
    {
        proof {
            use_type_invariant(self);
        }
        if specifier.has_scheme("file") {
            let key: String = specifier_key(self.root_dir_url.as_url(), specifier.as_url());
            match find_module(&self.eszip, key.as_str()) {
                Some((own_key, kind, inner)) => match self.root_dir_url.join(own_key.as_str()) {
                    Some(specifier) => Some(WorkspaceEszipModule { specifier, kind, inner }),
                    None => None,
                },
                None => None,
            }
        } else {
            match find_module(&self.eszip, specifier.as_str()) {
                Some((own_key, kind, inner)) => match ModuleSpecifier::parse(own_key.as_str()) {
                    Ok(specifier) => Some(WorkspaceEszipModule { specifier, kind, inner }),
                    Err(_) => None,
                },
                None => None,
            }
        }
    }
}

/// The class of an error, as programs see it.
#[derive(Clone, Copy, Debug, PartialEq, Eq, Structural)]
pub enum ErrorClass {
    Generic,
    Type,
    /// The class that the error came with.
    Given,
}

/// An error in resolving or loading a module.
#[derive(Debug)]
pub struct LoaderError {
    pub class: ErrorClass,
    pub message: String,
}

impl DeepView for LoaderError {
    type V = (ErrorClass, Seq<char>);

    open spec fn deep_view(&self) -> (ErrorClass, Seq<char>) {
        (self.class, self.message@)
    }
}

/// Why a module is resolved.
#[derive(Clone, Copy, Debug, PartialEq, Eq, Structural)]
pub enum ResolutionKind {
    MainModule,
    Import,
    DynamicImport,
}

/// The name of a reason to resolve a module.
pub open spec fn kind_name(kind: ResolutionKind) -> Seq<char> {
    match kind {
        ResolutionKind::MainModule => "MainModule"@,
        ResolutionKind::Import => "Import"@,
        ResolutionKind::DynamicImport => "DynamicImport"@,
    }
}

/// A step in resolving a specifier.
#[derive(Debug)]
pub enum ResolveStep {
    /// Resolve `.` in the current directory, for the referrer.
    ResolveCurrentDir,
    /// Resolve the specifier from this referrer if that is in an npm package.
    CheckNpmPackage(ModuleSpecifier),
    /// Resolve a sub path of the npm package that a requirement leads to.
    ResolveReq(PackageReq, Option<String>, ModuleSpecifier),
    /// Resolve a sub path of the package in a folder.
    ResolveSubPath(String, Option<String>, ModuleSpecifier),
    /// Resolve a reference to an npm package.
    ResolveReqReference(ModuleSpecifier, ModuleSpecifier),
    /// Resolve a URL that may be in `node_modules`.
    HandleIfInNodeModules(ModuleSpecifier),
    /// Resolve the specifier from this referrer as Node.js does; if that finds
    /// nothing, the mapping's error stands.
    ResolveAsNode(ModuleSpecifier, LoaderError),
    /// The specifier is resolved, or cannot be.
    Done(Result<ModuleSpecifier, LoaderError>),
}

/// A step in resolving a specifier.
pub ghost enum ResolveStepView {
    ResolveCurrentDir,
    CheckNpmPackage(Seq<char>),
    ResolveReq(Seq<char>, Option<Seq<char>>, Seq<char>),
    ResolveSubPath(Seq<char>, Option<Seq<char>>, Seq<char>),
    ResolveReqReference(Seq<char>, Seq<char>),
    HandleIfInNodeModules(Seq<char>),
    ResolveAsNode(Seq<char>, (ErrorClass, Seq<char>)),
    Resolved(Seq<char>),
    Failed((ErrorClass, Seq<char>)),
}

impl DeepView for ResolveStep {
    type V = ResolveStepView;

    open spec fn deep_view(&self) -> ResolveStepView {
        match *self {
            ResolveStep::ResolveCurrentDir => ResolveStepView::ResolveCurrentDir,
            ResolveStep::CheckNpmPackage(referrer) => ResolveStepView::CheckNpmPackage(referrer@),
            ResolveStep::ResolveReq(req, sub_path, referrer) => ResolveStepView::ResolveReq(
                req_identity(req),
                sub_path.deep_view(),
                referrer@,
            ),
            ResolveStep::ResolveSubPath(folder, sub_path, referrer) =>
                ResolveStepView::ResolveSubPath(folder@, sub_path.deep_view(), referrer@),
            ResolveStep::ResolveReqReference(specifier, referrer) =>
                ResolveStepView::ResolveReqReference(specifier@, referrer@),
            ResolveStep::HandleIfInNodeModules(specifier) =>
                ResolveStepView::HandleIfInNodeModules(specifier@),
            ResolveStep::ResolveAsNode(referrer, error) => ResolveStepView::ResolveAsNode(
                referrer@,
                error.deep_view(),
            ),
            ResolveStep::Done(Ok(specifier)) => ResolveStepView::Resolved(specifier@),
            ResolveStep::Done(Err(error)) => ResolveStepView::Failed(error.deep_view()),
        }
    }
}

fn failed(class: ErrorClass, message: &str) -> (r: ResolveStep)
    ensures
        r.deep_view() == ResolveStepView::Failed((class, message@)),
{
    ResolveStep::Done(Err(LoaderError { class, message: message.to_owned() }))
}

/// The first step in resolving a specifier. Only the main module has no
/// referrer, which `.` stands for.
pub open spec fn first_step(referrer: Seq<char>, kind: ResolutionKind) -> ResolveStepView {
    if referrer == "."@ {
        if kind == ResolutionKind::MainModule {
            ResolveStepView::ResolveCurrentDir
        } else {
            ResolveStepView::Failed(
                (
                    ErrorClass::Generic,
                    "Expected to resolve main module, got "@ + kind_name(kind) + " instead."@,
                ),
            )
        }
    } else {
        match url_parsed(referrer) {
            Ok(href) => ResolveStepView::CheckNpmPackage(href),
            Err(message) => ResolveStepView::Failed(
                (ErrorClass::Type, "Referrer uses invalid specifier: "@ + message),
            ),
        }
    }
}

/// The first step in resolving a specifier.
pub fn resolve(referrer: &str, kind: ResolutionKind) -> (r: ResolveStep)
    ensures
        r.deep_view() == first_step(referrer@, kind),
{
    if same_text(referrer, ".") {
        let name: &str = match kind {
            ResolutionKind::MainModule => {
                return ResolveStep::ResolveCurrentDir;
            },
            ResolutionKind::Import => "Import",
            ResolutionKind::DynamicImport => "DynamicImport",
        };
        let message: String = concat3("Expected to resolve main module, got ", name, " instead.");
        return failed(ErrorClass::Generic, message.as_str());
    }
    match ModuleSpecifier::parse(referrer) {
        Ok(specifier) => ResolveStep::CheckNpmPackage(specifier),
        Err(message) => {
            let message: String = concat2("Referrer uses invalid specifier: ", message.as_str());
            failed(ErrorClass::Type, message.as_str())
        },
    }
}

/// The step behind resolving the current directory.
pub fn current_dir_resolved(outcome: Result<ModuleSpecifier, LoaderError>) -> (r: ResolveStep)
    ensures
        r == (match outcome {
            Ok(referrer) => ResolveStep::CheckNpmPackage(referrer),
            Err(error) => ResolveStep::Done(Err(error)),
        }),
{
    match outcome {
        Ok(referrer) => ResolveStep::CheckNpmPackage(referrer),
        Err(error) => ResolveStep::Done(Err(error)),
    }
}

/// What resolving a specifier from a referrer in an npm package led to.
#[derive(Debug)]
pub enum NpmPackageCheck {
    /// The referrer is not in an npm package.
    Outside,
    /// The specifier is resolved.
    Found(ModuleSpecifier),
    /// There is no such module.
    NotFound,
    /// An error occurred.
    Failed(LoaderError),
}

/// The step behind the mapping of a specifier. A URL may be a reference to an npm
/// package, one of a JSR package that the archive holds, or one in
/// `node_modules`; a package of the workspace is found by its folder; a bare name
/// that nothing maps is left to Node.js resolution if the referrer is a file.
pub open spec fn mapped_step(
    modules: Map<Seq<char>, (Seq<char>, ModuleKind)>,
    root: Seq<char>,
    contents: ResolverContents,
    referrer: Seq<char>,
    mapped: Result<MappedResolutionView, (bool, Seq<char>)>,
) -> ResolveStepView {
    match mapped {
        Ok(MappedResolutionView::Url(url)) => if npm_reference(url) is Some {
            ResolveStepView::ResolveReqReference(url, referrer)
        } else {
            match module_at(modules, root, url) {
                Some((found, _)) if scheme_of(url) == "jsr"@ => ResolveStepView::Resolved(found),
                _ => ResolveStepView::HandleIfInNodeModules(url),
            }
        },
        Ok(MappedResolutionView::WorkspaceNpmPackage(folder, sub_path)) =>
            ResolveStepView::ResolveSubPath(folder, sub_path, referrer),
        Ok(MappedResolutionView::PackageJson(dep, alias, sub_path)) => match dep {
            Ok(MappedDepView::Req(req)) => ResolveStepView::ResolveReq(req, sub_path, referrer),
            Ok(MappedDepView::Workspace(version_req)) => match workspace_package_folder(
                contents,
                alias,
                version_req,
            ) {
                Ok(folder) => ResolveStepView::ResolveSubPath(folder, sub_path, referrer),
                Err(message) => ResolveStepView::Failed((ErrorClass::Given, message)),
            },
            Err(message) => ResolveStepView::Failed((ErrorClass::Given, message)),
        },
        Err((is_unmapped, message)) => if is_unmapped && scheme_of(referrer) == "file"@ {
            ResolveStepView::ResolveAsNode(referrer, (ErrorClass::Given, message))
        } else {
            ResolveStepView::Failed((ErrorClass::Given, message))
        },
    }
}

/// Whether a mapped URL can be read as an npm specifier, if it is one.
pub open spec fn is_readable_mapping(
    mapped: Result<MappedResolutionView, (bool, Seq<char>)>,
) -> bool {
    mapped matches Ok(MappedResolutionView::Url(url)) ==> is_readable_reference(url)
}

fn url_mapped(eszip: &WorkspaceEszip, referrer: ModuleSpecifier, url: Url) -> (r: ResolveStep)
    requires
        is_readable_reference(url_text(url)),
    ensures
        forall|contents: ResolverContents|
            r.deep_view() == #[trigger] mapped_step(
                eszip.modules(),
                eszip.root(),
                contents,
                referrer@,
                Ok(MappedResolutionView::Url(url_text(url))),
            ),
{
    let specifier: ModuleSpecifier = ModuleSpecifier::from_url(url);
    if NpmPackageReqReference::parse(specifier.as_str()).is_some() {
        return ResolveStep::ResolveReqReference(specifier, referrer);
    }
    if specifier.has_scheme("jsr") {
        if let Some(module) = eszip.get_module(&specifier) {
            return ResolveStep::Done(Ok(module.specifier));
        }
    }
    ResolveStep::HandleIfInNodeModules(specifier)
}

/// The step behind the mapping of a specifier.
pub fn specifier_mapped(
    eszip: &WorkspaceEszip,
    resolver: &StandaloneResolver,
    referrer: ModuleSpecifier,
    mapped: Result<MappedResolution, MappingError>,
) -> (r: ResolveStep)
    requires
        is_readable_mapping(mapping_outcome(mapped)),
    ensures
        r.deep_view() == mapped_step(
            eszip.modules(),
            eszip.root(),
            resolver.contents(),
            referrer@,
            mapping_outcome(mapped),
        ),
{
    match mapped {
        Ok(MappedResolution::Url(url)) => url_mapped(eszip, referrer, url),
        Ok(MappedResolution::WorkspaceNpmPackage(folder, sub_path)) => ResolveStep::ResolveSubPath(
            folder,
            sub_path,
            referrer,
        ),
        Ok(MappedResolution::PackageJson(dep, alias, sub_path)) => match dep {
            Ok(value) => match read_dependency(value) {
                MappedDep::Req(req) => ResolveStep::ResolveReq(req, sub_path, referrer),
                MappedDep::Workspace(version_req) => {
                    match resolver.find_folder(alias.as_str(), &version_req) {
                        Ok(folder) => ResolveStep::ResolveSubPath(folder, sub_path, referrer),
                        Err(message) => failed(ErrorClass::Given, message.as_str()),
                    }
                },
            },
            Err(message) => failed(ErrorClass::Given, message.as_str()),
        },
        Err(error) => {
            if error.is_unmapped_bare_specifier && referrer.has_scheme("file") {
                let error: LoaderError = LoaderError {
                    class: ErrorClass::Given,
                    message: error.message,
                };
                ResolveStep::ResolveAsNode(referrer, error)
            } else {
                failed(ErrorClass::Given, error.message.as_str())
            }
        },
    }
}

/// Whether a step is the one behind the check for an npm package: outside of npm
/// packages the resolver of the workspace decides. There is none where it cannot
/// map the specifier, or maps it to an npm specifier that cannot be read.
pub open spec fn is_checked_step(
    step: Option<ResolveStep>,
    modules: Map<Seq<char>, (Seq<char>, ModuleKind)>,
    root: Seq<char>,
    contents: ResolverContents,
    specifier: Seq<char>,
    referrer: Seq<char>,
    check: NpmPackageCheck,
) -> bool {
    match check {
        NpmPackageCheck::Found(found) => step is Some && step->0.deep_view()
            == ResolveStepView::Resolved(found@),
        NpmPackageCheck::NotFound => step is Some && step->0.deep_view() == ResolveStepView::Failed(
            (ErrorClass::Generic, "not found"@),
        ),
        NpmPackageCheck::Failed(error) => step is Some && step->0.deep_view()
            == ResolveStepView::Failed(error.deep_view()),
        NpmPackageCheck::Outside => {
            let mapped = mapped_resolution(contents, specifier, referrer);
            if is_mappable(map_entries(contents, referrer), specifier, referrer)
                && is_readable_mapping(mapped) {
                step is Some && step->0.deep_view() == mapped_step(
                    modules,
                    root,
                    contents,
                    referrer,
                    mapped,
                )
            } else {
                step is None
            }
        },
    }
}

/// The step behind the check for an npm package, which resolves the specifier if
/// its referrer is in one.
pub fn npm_package_checked(
    eszip: &WorkspaceEszip,
    resolver: &StandaloneResolver,
    specifier: &str,
    referrer: ModuleSpecifier,
    check: NpmPackageCheck,
) -> (r: Option<ResolveStep>)
    ensures
        is_checked_step(
            r,
            eszip.modules(),
            eszip.root(),
            resolver.contents(),
            specifier@,
            referrer@,
            check,
        ),
{
    match check {
        NpmPackageCheck::Found(specifier) => Some(ResolveStep::Done(Ok(specifier))),
        NpmPackageCheck::NotFound => Some(failed(ErrorClass::Generic, "not found")),
        NpmPackageCheck::Failed(error) => Some(ResolveStep::Done(Err(error))),
        NpmPackageCheck::Outside => {
            if !resolver.can_map(specifier, &referrer) {
                return None;
            }
            let mapped: Result<MappedResolution, MappingError> = resolver.map(specifier, &referrer);
            if let Ok(MappedResolution::Url(url)) = &mapped {
                if !can_read_reference(text_of_url(url)) {
                    return None;
                }
            }
            Some(specifier_mapped(eszip, resolver, referrer, mapped))
        },
    }
}

/// The step behind resolution as Node.js does it: the mapping's error stands
/// unless a module was found.
pub fn resolved_as_node(
    found: Result<Option<ModuleSpecifier>, LoaderError>,
    mapping_error: LoaderError,
) -> (r: ResolveStep)
    ensures
        r == (match found {
            Ok(Some(specifier)) => ResolveStep::Done(Ok(specifier)),
            _ => ResolveStep::Done(Err(mapping_error)),
        }),
{
    match found {
        Ok(Some(specifier)) => ResolveStep::Done(Ok(specifier)),
        _ => ResolveStep::Done(Err(mapping_error)),
    }
}

/// What a loaded module is evaluated as.
#[derive(Clone, Copy, Debug, PartialEq, Eq, Structural)]
pub enum ModuleType {
    JavaScript,
    Json,
}

/// The source of a module, with the URL it was asked for by and the one it was
/// found at.
#[derive(Debug)]
pub struct ModuleSource {
    pub module_type: ModuleType,
    pub code: String,
    pub specifier: ModuleSpecifier,
    pub found: ModuleSpecifier,
}

/// The source of a module.
pub ghost struct ModuleSourceView {
    pub module_type: ModuleType,
    pub code: Seq<char>,
    pub specifier: Seq<char>,
    pub found: Seq<char>,
}

impl DeepView for ModuleSource {
    type V = ModuleSourceView;

    open spec fn deep_view(&self) -> ModuleSourceView {
        ModuleSourceView {
            module_type: self.module_type,
            code: self.code@,
            specifier: self.specifier@,
            found: self.found@,
        }
    }
}

/// A step in loading a module.
pub enum LoadStep {
    /// The module is loaded by the loader for npm packages.
    LoadFromNpm,
    /// The source of this module of the archive is read.
    ReadSource(WorkspaceEszipModule),
    /// The module is loaded, or cannot be.
    Done(Result<ModuleSource, LoaderError>),
}

/// Whether a step in loading is the one for a module: a `data:` URL holds its own
/// text; a module in an npm package is left to the loader for these; any other
/// has to be in the archive.
pub open spec fn is_load_step(
    step: LoadStep,
    modules: Map<Seq<char>, (Seq<char>, ModuleKind)>,
    root: Seq<char>,
    specifier: Seq<char>,
    in_npm_package: bool,
) -> bool {
    if scheme_of(specifier) == "data"@ {
        match data_url_text(specifier) {
            Ok(code) => step is Done && step->Done_0 is Ok && step->Done_0->Ok_0.deep_view() == (
            ModuleSourceView {
                module_type: ModuleType::JavaScript,
                code,
                specifier,
                found: specifier,
            }),
            Err(message) => step is Done && step->Done_0 is Err && step->Done_0->Err_0.deep_view()
                == (ErrorClass::Type, message),
        }
    } else if in_npm_package {
        step is LoadFromNpm
    } else {
        match module_at(modules, root, specifier) {
            Some((url, kind)) => step is ReadSource && step->ReadSource_0.specifier@ == url
                && step->ReadSource_0.kind == kind && module_key(step->ReadSource_0.inner)
                == modules[lookup_key(root, specifier)].0,
            None => step is Done && step->Done_0 is Err && step->Done_0->Err_0.deep_view() == (
                ErrorClass::Type,
                "Module not found: "@ + specifier,
            ),
        }
    }
}

fn load_error(message: &str) -> (r: LoaderError)
    ensures
        r.deep_view() == (ErrorClass::Type, message@),
{
    LoaderError { class: ErrorClass::Type, message: message.to_owned() }
}

/// The first step in loading a module. `in_npm_package` says whether the module
/// is in an npm package.
pub fn load(
    eszip: &WorkspaceEszip,
    original_specifier: &ModuleSpecifier,
    in_npm_package: bool,
) -> (r: LoadStep)
    ensures
        is_load_step(r, eszip.modules(), eszip.root(), original_specifier@, in_npm_package),
{
    if original_specifier.has_scheme("data") {
        return match decode_data_url(original_specifier.as_url()) {
            Ok(code) => LoadStep::Done(
                Ok(
                    ModuleSource {
                        module_type: ModuleType::JavaScript,
                        code,
                        specifier: original_specifier.clone(),
                        found: original_specifier.clone(),
                    },
                ),
            ),
            Err(message) => LoadStep::Done(Err(load_error(message.as_str()))),
        };
    }
    if in_npm_package {
        return LoadStep::LoadFromNpm;
    }
    match eszip.get_module(original_specifier) {
        Some(module) => LoadStep::ReadSource(module),
        None => {
            let message: String = concat2("Module not found: ", original_specifier.as_str());
            LoadStep::Done(Err(load_error(message.as_str())))
        },
    }
}

/// What a module in an npm package is evaluated as: JSON if that is its media
/// type, else JavaScript.
pub fn npm_module_type(is_json: bool) -> (r: ModuleType)
    ensures
        r == (if is_json {
            ModuleType::Json
        } else {
            ModuleType::JavaScript
        }),
{
    if is_json {
        ModuleType::Json
    } else {
        ModuleType::JavaScript
    }
}

/// The text that bytes encode, if they are UTF-8.
pub fn arc_u8_to_arc_str(bytes: Vec<u8>) -> (r: Option<String>)
    ensures
        r is Some <==> valid_utf8(bytes@),
        r matches Some(text) ==> text@ == decode_utf8(bytes@),
{
    utf8_text(bytes)
}

/// What the source of a module of the archive makes of it. A source that is
/// missing or no UTF-8 is an error, and so is JSON with comments.
pub open spec fn read_module(
    kind: ModuleKind,
    specifier: Seq<char>,
    found: Seq<char>,
    source: Option<Seq<u8>>,
) -> Result<ModuleSourceView, (ErrorClass, Seq<char>)> {
    match source {
        None => Err((ErrorClass::Type, "Module not found: "@ + specifier)),
        Some(bytes) => if !valid_utf8(bytes) {
            Err((ErrorClass::Type, "Module source is not utf-8"@))
        } else if kind == ModuleKind::Jsonc {
            Err((ErrorClass::Type, "jsonc modules not supported"@))
        } else {
            Ok(
                ModuleSourceView {
                    module_type: if kind == ModuleKind::Json {
                        ModuleType::Json
                    } else {
                        ModuleType::JavaScript
                    },
                    code: decode_utf8(bytes),
                    specifier,
                    found,
                },
            )
        },
    }
}

/// What the source of a module of the archive makes of it. Modules do not hold
/// opaque data.
pub fn source_read(
    kind: ModuleKind,
    original_specifier: ModuleSpecifier,
    found: ModuleSpecifier,
    source: Option<Vec<u8>>,
) -> (r: Result<ModuleSource, LoaderError>)
    requires
        kind != ModuleKind::OpaqueData,
    ensures
        match read_module(
            kind,
            original_specifier@,
            found@,
            (match source {
                Some(bytes) => Some(bytes@),
                None => None,
            }),
        ) {
            Ok(view) => r is Ok && r->Ok_0.deep_view() == view,
            Err(error) => r is Err && r->Err_0.deep_view() == error,
        },
{
    let bytes: Vec<u8> = match source {
        Some(bytes) => bytes,
        None => {
            let message: String = concat2("Module not found: ", original_specifier.as_str());
            return Err(load_error(message.as_str()));
        },
    };
    let code: String = match arc_u8_to_arc_str(bytes) {
        Some(code) => code,
        None => {
            return Err(load_error("Module source is not utf-8"));
        },
    };
    let module_type: ModuleType = match kind {
        ModuleKind::JavaScript => ModuleType::JavaScript,
        ModuleKind::Json => ModuleType::Json,
        ModuleKind::Jsonc => {
            return Err(load_error("jsonc modules not supported"));
        },
        ModuleKind::OpaqueData => ModuleType::JavaScript,
    };
    Ok(ModuleSource { module_type, code, specifier: original_specifier, found })
}

/// The archive hands out no JSON with comments as a module.
pub proof fn law_archive_hides_jsonc(
    modules: Map<Seq<char>, (Seq<char>, ModuleKind)>,
    root: Seq<char>,
    specifier: Seq<char>,
)
    ensures
        module_at(modules, root, specifier) matches Some((_, kind)) ==> kind != ModuleKind::Jsonc,
{
}

/// A module outside the base of the archive keeps its URL as its key, so that it
/// is found under the same key whatever the base.
pub proof fn law_key_of_other_modules(base: Seq<char>, target: Seq<char>)
    requires
        scheme_of(target) != "file"@ || (url_relative(base, target) matches Some(relative)
            ==> has_prefix(relative, "../"@)),
    ensures
        archive_key(base, target) == target,
{
}

/// Resolution does not go in circles: once a specifier has been mapped, neither
/// the referrer nor the mapping is asked for again.
pub proof fn law_resolution_goes_forward(
    modules: Map<Seq<char>, (Seq<char>, ModuleKind)>,
    root: Seq<char>,
    contents: ResolverContents,
    referrer: Seq<char>,
    mapped: Result<MappedResolutionView, (bool, Seq<char>)>,
)
    ensures
        !(mapped_step(modules, root, contents, referrer, mapped) is ResolveCurrentDir),
        !(mapped_step(modules, root, contents, referrer, mapped) is CheckNpmPackage),
{
}

/// Only the main module is resolved without a referrer, which `.` stands for.
pub proof fn law_only_main_module_lacks_referrer(kind: ResolutionKind)
    ensures
        first_step("."@, kind) is ResolveCurrentDir <==> kind == ResolutionKind::MainModule,
        kind != ResolutionKind::MainModule ==> first_step("."@, kind) is Failed,
{
}

/// An archive is made exactly where its base is a file URL, and holds the modules that
/// it is made of.
pub proof fn law_archive(eszip: EszipV2, root: ModuleSpecifier, r: Option<WorkspaceEszip>)
    requires
        call_ensures(WorkspaceEszip::new, (eszip, root), r),
    ensures
        r is Some <==> scheme_of(root@) == "file"@,
        r matches Some(archive) ==> archive.modules() == archived_modules(eszip) && archive.root()
            == root@,
{
}

/// A module of an archive is found by its relative path if it is a file below the base,
/// and by its URL otherwise. Its URL is that of the key it is stored under: seen from the
/// base for a file, by itself for any other. JSON with comments is never found.
pub proof fn law_module_of_archive(
    archive: &WorkspaceEszip,
    specifier: &ModuleSpecifier,
    key: Seq<char>,
    r: Option<WorkspaceEszipModule>,
)
    requires
        call_ensures(WorkspaceEszip::get_module, (archive, specifier), r),
        ({
            let relative = url_relative(archive.root(), specifier@);
            let is_below = scheme_of(specifier@) == "file"@ && relative is Some && !has_prefix(
                relative->0,
                "../"@,
            );
            (is_below ==> key == relative->0) && (!is_below ==> key == specifier@)
        }),
    ensures
        !archive.modules().contains_key(key) ==> r is None,
        archive.modules().contains_key(key) && archive.modules()[key].1 is Jsonc ==> r is None,
        archive.modules().contains_key(key) && !(archive.modules()[key].1 is Jsonc) ==> {
            let own = archive.modules()[key].0;
            &&& scheme_of(specifier@) == "file"@ ==> (r is Some <==> url_joined(
                archive.root(),
                own,
            ) is Some) && (r matches Some(module) ==> Some(module.specifier@) == url_joined(
                archive.root(),
                own,
            ))
            &&& scheme_of(specifier@) != "file"@ ==> (r is Some <==> url_parsed(own) is Ok) && (
            r matches Some(module) ==> url_parsed(own) == Ok::<Seq<char>, Seq<char>>(
                module.specifier@,
            ))
            &&& r matches Some(module) ==> module.kind == archive.modules()[key].1 && module_key(
                module.inner,
            ) == own
        },
{
}

/// A dot stands for a missing referrer, which only the main module may have: then the
/// current directory stands in for it, and for any other module there is an error that
/// names the kind of import. A referrer that is no URL is an error too.
pub proof fn law_first_step(referrer: &str, kind: ResolutionKind, r: ResolveStep)
    requires
        call_ensures(resolve, (referrer, kind), r),
    ensures
        referrer@ == seq!['.'] && kind is MainModule ==> r is ResolveCurrentDir,
        referrer@ == seq!['.'] && kind is Import ==> r.deep_view() == ResolveStepView::Failed(
            (
                ErrorClass::Generic,
                "Expected to resolve main module, got "@ + "Import"@ + " instead."@,
            ),
        ),
        referrer@ == seq!['.'] && kind is DynamicImport ==> r.deep_view()
            == ResolveStepView::Failed(
            (
                ErrorClass::Generic,
                "Expected to resolve main module, got "@ + "DynamicImport"@ + " instead."@,
            ),
        ),
        referrer@ != seq!['.'] ==> (url_parsed(referrer@) matches Ok(url) ==> r.deep_view()
            == ResolveStepView::CheckNpmPackage(url)),
        referrer@ != seq!['.'] ==> (url_parsed(referrer@) matches Err(message) ==> r.deep_view()
            == ResolveStepView::Failed(
            (ErrorClass::Type, "Referrer uses invalid specifier: "@ + message),
        )),
{
    reveal_strlit(".");
    assert("."@ == seq!['.']);
}

/// The current directory becomes the referrer, unless it cannot be resolved.
pub proof fn law_current_dir(outcome: Result<ModuleSpecifier, LoaderError>, r: ResolveStep)
    requires
        call_ensures(current_dir_resolved, (outcome,), r),
    ensures
        outcome matches Ok(referrer) ==> r == ResolveStep::CheckNpmPackage(referrer),
        outcome matches Err(error) ==> r is Done && r->Done_0 is Err && r->Done_0->Err_0 == error,
{
}

/// What a mapped specifier leads to. A URL of an npm package is resolved as such; one of
/// a JSR package that the archive holds is replaced by where the module was found; any
/// other URL may be in `node_modules`. A dependency leads to the npm package that it asks
/// for, or to the folder of the package of the workspace. A bare name that nothing maps
/// is left to Node.js resolution where the referrer is a file. Every other error stands.
pub proof fn law_mapped_specifier(
    archive: &WorkspaceEszip,
    resolver: &StandaloneResolver,
    referrer: ModuleSpecifier,
    mapped: Result<MappedResolution, MappingError>,
    r: ResolveStep,
)
    requires
        call_ensures(specifier_mapped, (archive, resolver, referrer, mapped), r),
    ensures
        mapped matches Ok(MappedResolution::Url(url)) ==> {
            let href = url_text(url);
            let found = module_at(archive.modules(), archive.root(), href);
            &&& npm_reference(href) is Some ==> r.deep_view()
                == ResolveStepView::ResolveReqReference(href, referrer@)
            &&& npm_reference(href) is None && scheme_of(href) == "jsr"@ && found is Some
                ==> r.deep_view() == ResolveStepView::Resolved((found->0).0)
            &&& npm_reference(href) is None && (scheme_of(href) != "jsr"@ || found is None)
                ==> r.deep_view() == ResolveStepView::HandleIfInNodeModules(href)
        },
        mapped matches Ok(MappedResolution::WorkspaceNpmPackage(folder, sub_path)) ==> r.deep_view()
            == ResolveStepView::ResolveSubPath(folder@, sub_path.deep_view(), referrer@),
        mapped matches Ok(MappedResolution::PackageJson(dep, alias, sub_path)) ==> {
            &&& dep matches Ok(value) ==> match dependency(value) {
                MappedDepView::Req(req) => r.deep_view() == ResolveStepView::ResolveReq(
                    req,
                    sub_path.deep_view(),
                    referrer@,
                ),
                MappedDepView::Workspace(version) => match workspace_package_folder(
                    resolver.contents(),
                    alias@,
                    version,
                ) {
                    Ok(folder) => r.deep_view() == ResolveStepView::ResolveSubPath(
                        folder,
                        sub_path.deep_view(),
                        referrer@,
                    ),
                    Err(message) => r.deep_view() == ResolveStepView::Failed(
                        (ErrorClass::Given, message),
                    ),
                },
            }
            &&& dep matches Err(message) ==> r.deep_view() == ResolveStepView::Failed(
                (ErrorClass::Given, message@),
            )
        },
        mapped matches Err(error) ==> {
            let goes_on = error.is_unmapped_bare_specifier && scheme_of(referrer@) == "file"@;
            &&& goes_on ==> r.deep_view() == ResolveStepView::ResolveAsNode(
                referrer@,
                (ErrorClass::Given, error.message@),
            )
            &&& !goes_on ==> r.deep_view() == ResolveStepView::Failed(
                (ErrorClass::Given, error.message@),
            )
        },
{
}

/// A referrer in an npm package decides by itself: a module that is found there is the
/// one, and one that is not found is an error. Outside of npm packages the mapping of the
/// workspace decides, wherever it is possible.
pub proof fn law_npm_package_check(
    archive: &WorkspaceEszip,
    resolver: &StandaloneResolver,
    specifier: &str,
    referrer: ModuleSpecifier,
    check: NpmPackageCheck,
    mapped: Result<MappedResolution, MappingError>,
    next: ResolveStep,
    r: Option<ResolveStep>,
)
    requires
        call_ensures(npm_package_checked, (archive, resolver, specifier, referrer, check), r),
        call_ensures(specifier_mapped, (archive, resolver, referrer, mapped), next),
        mapping_outcome(mapped) == mapped_resolution(resolver.contents(), specifier@, referrer@),
    ensures
        check matches NpmPackageCheck::Found(found) ==> r is Some && r->0.deep_view()
            == ResolveStepView::Resolved(found@),
        check is NotFound ==> r is Some && r->0.deep_view() == ResolveStepView::Failed(
            (ErrorClass::Generic, "not found"@),
        ),
        check matches NpmPackageCheck::Failed(error) ==> r is Some && r->0.deep_view()
            == ResolveStepView::Failed((error.class, error.message@)),
        check is Outside ==> (r matches Some(step) ==> step.deep_view() == next.deep_view()),
        check is Outside ==> (r is Some <==> is_mappable(
            map_entries(resolver.contents(), referrer@),
            specifier@,
            referrer@,
        ) && (mapped matches Ok(MappedResolution::Url(url)) ==> is_readable_reference(
            url_text(url),
        ))),
{
}

/// Resolution as Node.js does it replaces the mapping's error only with a module that it
/// finds.
pub proof fn law_resolved_as_node(
    found: Result<Option<ModuleSpecifier>, LoaderError>,
    mapping_error: LoaderError,
    r: ResolveStep,
)
    requires
        call_ensures(resolved_as_node, (found, mapping_error), r),
    ensures
        found matches Ok(Some(specifier)) ==> r is Done && r->Done_0 is Ok && r->Done_0->Ok_0
            == specifier,
        found matches Ok(None) ==> r is Done && r->Done_0 is Err && r->Done_0->Err_0
            == mapping_error,
        found is Err ==> r is Done && r->Done_0 is Err && r->Done_0->Err_0 == mapping_error,
{
}

/// A `data:` URL is its own module, wherever it stands, and JavaScript. A module in an
/// npm package is left to the loader for these. Any other is read from the archive, or
/// is not found.
pub proof fn law_loading(
    archive: &WorkspaceEszip,
    specifier: &ModuleSpecifier,
    in_npm_package: bool,
    stored: Option<WorkspaceEszipModule>,
    r: LoadStep,
)
    requires
        call_ensures(load, (archive, specifier, in_npm_package), r),
        call_ensures(WorkspaceEszip::get_module, (archive, specifier), stored),
    ensures
        scheme_of(specifier@) == "data"@ ==> match data_url_text(specifier@) {
            Ok(code) => r is Done && r->Done_0 is Ok && r->Done_0->Ok_0.module_type is JavaScript
                && r->Done_0->Ok_0.code@ == code && r->Done_0->Ok_0.specifier@ == specifier@
                && r->Done_0->Ok_0.found@ == specifier@,
            Err(message) => r is Done && r->Done_0 is Err && r->Done_0->Err_0.class is Type
                && r->Done_0->Err_0.message@ == message,
        },
        scheme_of(specifier@) != "data"@ && in_npm_package ==> r is LoadFromNpm,
        scheme_of(specifier@) != "data"@ && !in_npm_package ==> (stored matches Some(module) ==> r
            is ReadSource && r->ReadSource_0.specifier@ == module.specifier@
            && r->ReadSource_0.kind == module.kind && module_key(r->ReadSource_0.inner)
            == module_key(module.inner)),
        scheme_of(specifier@) != "data"@ && !in_npm_package && stored is None ==> r is Done
            && r->Done_0 is Err && r->Done_0->Err_0.class is Type && r->Done_0->Err_0.message@
            == "Module not found: "@ + specifier@,
{
}

/// A module of an npm package is JSON exactly where its media type is.
pub proof fn law_npm_module_type(is_json: bool, r: ModuleType)
    requires
        call_ensures(npm_module_type, (is_json,), r),
    ensures
        r is Json <==> is_json,
{
}

/// The source of a module has to be there and to be UTF-8. JSON is JSON, JavaScript is
/// JavaScript, and JSON with comments is no module. The module keeps the URL that it was
/// asked for by and the one that it was found at.
pub proof fn law_read_source(
    kind: ModuleKind,
    asked: ModuleSpecifier,
    found: ModuleSpecifier,
    source: Option<Vec<u8>>,
    r: Result<ModuleSource, LoaderError>,
)
    requires
        call_ensures(source_read, (kind, asked, found, source), r),
    ensures
        r is Ok <==> source is Some && valid_utf8(source->0@) && !(kind is Jsonc),
        r matches Ok(module) ==> {
            &&& module.code@ == decode_utf8(source->0@)
            &&& module.module_type is Json <==> kind is Json
            &&& module.specifier@ == asked@
            &&& module.found@ == found@
        },
        r matches Err(error) ==> {
            &&& error.class is Type
            &&& source is None ==> error.message@ == "Module not found: "@ + asked@
            &&& source is Some && !valid_utf8(source->0@) ==> error.message@
                == "Module source is not utf-8"@
            &&& source is Some && valid_utf8(source->0@) ==> error.message@
                == "jsonc modules not supported"@
        },
{
}

/// Bytes make a text exactly where they are UTF-8, and it is the text that they encode.
pub proof fn law_text_of_bytes(bytes: Vec<u8>, r: Option<String>)
    requires
        call_ensures(arc_u8_to_arc_str, (bytes,), r),
    ensures
        r is Some <==> valid_utf8(bytes@),
        r matches Some(text) ==> encode_utf8(text@) == bytes@,
{
    if valid_utf8(bytes@) {
        decode_utf8_encode_utf8(bytes@);
    }
}

} // verus!
