//! How a compiled program is set up to run: where its files are, what it may
//! read, and which options its worker gets.

use std::sync::Arc;

use deno_npm::npm_rc::ResolvedNpmRc;
use deno_package_json::PackageJson;
use eszip::EszipV2;
use import_map::ImportMap;
use serde_json::Value;
use vstd::prelude::*;

use crate::certs::{cert_store_steps, get_root_cert_store, CertStep};
use crate::error::CliError;
use crate::flags::{CaData, UnstableConfig};
use crate::json::{entries_of, json_contents, JsonView};
use crate::managed::CliNpmResolverManagedSnapshotOption;
use crate::module_loader::{archived_modules, archived_snapshot, take_snapshot};
use crate::npmrc::{
    create_default_npmrc, create_npmrc_for_registry, resolved_npmrc, single_registry,
};
use crate::package_json::{
    can_widen_deps, check_exports, has_plain_exports, load_package_json_value, loaded_package_json,
    package_json_contents, read_package_json, PackageJsonView,
};
use crate::packages::{
    binary_command, is_readable_reference, npm_pkg_req_ref_to_binary_command, npm_reference,
    NpmPackageReqReference,
};
use crate::path::{is_absolute, join, parent, path_join, path_parent};
use crate::process_state::valid_snapshot_packages;
use crate::specifier::{
    default_registry, directory_url, registry_url, scheme_of, url_file_path, url_joined,
    ModuleSpecifier, NPM_REGISTRY_DEFAULT_URL, STANDALONE_REGISTRY_URL,
};
use crate::text::{chars_of, concat2};
use crate::workspace_resolver::{
    all_contents, import_map_error, is_resolvable, parse_import_map, PackageJsonDepResolution,
    ResolverContents, StandaloneResolver,
};

verus! {

/// The npm packages that a program was compiled with.
#[derive(Debug)]
pub enum NodeModules {
    /// Packages that were resolved when the program was compiled, in a
    /// `node_modules` directory if there is one.
    Managed(Option<String>),
    /// The `node_modules` directory of the program's own.
    Byonm(String),
}

/// The import map of a compiled program, by its relative URL and its text.
#[derive(Debug)]
pub struct SerializedImportMap {
    pub specifier: String,
    pub json: String,
}

/// What the resolver of a compiled program is made of. `package.json` files are
/// given by their paths, relative to the root of the program, and the JSON that
/// they hold.
#[derive(Debug)]
pub struct SerializedWorkspaceResolver {
    pub import_map: Option<SerializedImportMap>,
    pub package_jsons: Vec<(String, Value)>,
    pub pkg_json_resolution: PackageJsonDepResolution,
}

/// What a compiled program was told about how to run.
#[derive(Debug)]
pub struct Metadata {
    pub argv: Vec<String>,
    pub seed: Option<u64>,
    pub location: Option<ModuleSpecifier>,
    pub ca_stores: Option<Vec<String>>,
    pub ca_data: Option<Vec<u8>>,
    pub unsafely_ignore_certificate_errors: Option<Vec<String>>,
    pub entrypoint_key: String,
    pub node_modules: Option<NodeModules>,
    /// The unstable features that are on.
    pub unstable_config: UnstableConfig,
    pub v8_flags: Vec<String>,
}

/// Where the files of a compiled program are.
#[derive(Debug)]
pub struct ProgramLayout {
    pub root_path: String,
    pub root_dir_url: ModuleSpecifier,
    pub main_module: ModuleSpecifier,
    pub root_node_modules_path: String,
}

/// Where the files of a compiled program are.
pub ghost struct LayoutView {
    pub root_path: Seq<char>,
    pub root_dir_url: Seq<char>,
    pub main_module: Seq<char>,
    pub root_node_modules_path: Seq<char>,
}

impl DeepView for ProgramLayout {
    type V = LayoutView;

    open spec fn deep_view(&self) -> LayoutView {
        LayoutView {
            root_path: self.root_path@,
            root_dir_url: self.root_dir_url@,
            main_module: self.main_module@,
            root_node_modules_path: self.root_node_modules_path@,
        }
    }
}

/// Where the files of a program are: in a directory for temporary files, under a
/// name of the program's own. Nothing where that has no URL, or the entry point
/// makes none.
pub open spec fn layout_of(
    temp_dir: Seq<char>,
    exe_name: Seq<char>,
    entrypoint_key: Seq<char>,
) -> Option<LayoutView> {
    let root_path = path_join(temp_dir, "deno-compile-"@ + exe_name);
    match directory_url(root_path) {
        Some(root_dir_url) => match url_joined(root_dir_url, entrypoint_key) {
            Some(main_module) => Some(
                LayoutView {
                    root_path,
                    root_dir_url,
                    main_module,
                    root_node_modules_path: path_join(root_path, "node_modules"@),
                },
            ),
            None => None,
        },
        None => None,
    }
}

/// Where the files of a program are.
pub fn program_layout(temp_dir: &str, exe_name: &str, entrypoint_key: &str) -> (r: Option<
    ProgramLayout,
>)
    ensures
        r.deep_view() == layout_of(temp_dir@, exe_name@, entrypoint_key@),
{
    let name: String = concat2("deno-compile-", exe_name);
    let root_path: String = join(temp_dir, name.as_str());
    let root_dir_url: ModuleSpecifier = match ModuleSpecifier::from_directory_path(
        root_path.as_str(),
    ) {
        Some(url) => url,
        None => {
            return None;
        },
    };
    let main_module: ModuleSpecifier = match root_dir_url.join(entrypoint_key) {
        Some(url) => url,
        None => {
            return None;
        },
    };
    let root_node_modules_path: String = join(root_path.as_str(), "node_modules");
    Some(ProgramLayout { root_path, root_dir_url, main_module, root_node_modules_path })
}

/// The file system and the npm packages of a compiled program.
#[derive(Debug)]
pub enum NpmPlan {
    /// The packages of the snapshot in the archive, in the embedded file system
    /// with this root, and in this `node_modules` directory if there is one.
    Managed(String, Option<String>),
    /// The packages in this `node_modules` directory of the embedded file system
    /// with this root.
    Byonm(String, String),
    /// No packages, and the real file system.
    NoPackages,
}

/// The file system and the npm packages of a compiled program.
pub ghost enum NpmPlanView {
    Managed(Seq<char>, Option<Seq<char>>),
    Byonm(Seq<char>, Seq<char>),
    NoPackages,
}

impl DeepView for NpmPlan {
    type V = NpmPlanView;

    open spec fn deep_view(&self) -> NpmPlanView {
        match *self {
            NpmPlan::Managed(root, dir) => NpmPlanView::Managed(root@, dir.deep_view()),
            NpmPlan::Byonm(root, dir) => NpmPlanView::Byonm(root@, dir@),
            NpmPlan::NoPackages => NpmPlanView::NoPackages,
        }
    }
}

/// The file system and the npm packages of a program: an embedded file system
/// has the root of the program as its root, but for managed packages without a
/// `node_modules` directory, where it is the root of the package cache.
pub open spec fn planned_npm(
    node_modules: Option<NodeModules>,
    root_path: Seq<char>,
    cache_root: Seq<char>,
) -> NpmPlanView {
    match node_modules {
        Some(NodeModules::Managed(Some(dir))) => NpmPlanView::Managed(
            root_path,
            Some(path_join(root_path, dir@)),
        ),
        Some(NodeModules::Managed(None)) => NpmPlanView::Managed(cache_root, None),
        Some(NodeModules::Byonm(dir)) => NpmPlanView::Byonm(root_path, path_join(root_path, dir@)),
        None => NpmPlanView::NoPackages,
    }
}

/// The file system and the npm packages of a program.
pub fn plan_npm(node_modules: &Option<NodeModules>, root_path: &str, cache_root: &str) -> (r:
    NpmPlan)
    ensures
        r.deep_view() == planned_npm(*node_modules, root_path@, cache_root@),
{
    match node_modules {
        Some(NodeModules::Managed(Some(dir))) => NpmPlan::Managed(
            root_path.to_owned(),
            Some(join(root_path, dir.as_str())),
        ),
        Some(NodeModules::Managed(None)) => NpmPlan::Managed(cache_root.to_owned(), None),
        Some(NodeModules::Byonm(dir)) => NpmPlan::Byonm(
            root_path.to_owned(),
            join(root_path, dir.as_str()),
        ),
        None => NpmPlan::NoPackages,
    }
}

/// The root of the embedded file system, if there is one.
pub open spec fn plan_root(plan: NpmPlanView) -> Option<Seq<char>> {
    match plan {
        NpmPlanView::Managed(root, _) => Some(root),
        NpmPlanView::Byonm(root, _) => Some(root),
        NpmPlanView::NoPackages => None,
    }
}

impl NpmPlan {
    /// The root of the embedded file system, if there is one.
    pub fn vfs_root(&self) -> (r: Option<String>)
        ensures
            r.deep_view() == plan_root(self.deep_view()),
    {
        match self {
            NpmPlan::Managed(root, _) => Some(root.clone()),
            NpmPlan::Byonm(root, _) => Some(root.clone()),
            NpmPlan::NoPackages => None,
        }
    }

    /// The error on an embedded file system that could not be loaded, if there is
    /// one to load.
    pub fn load_error(&self, cause: &str) -> (r: Option<CliError>)
        ensures
            match self.deep_view() {
                NpmPlanView::Managed(_, _) => r is Some && r->0@ == (
                    "Failed to load npm vfs."@,
                    Some(cause@),
                ),
                NpmPlanView::Byonm(_, _) => r is Some && r->0@ == (
                    "Failed to load vfs."@,
                    Some(cause@),
                ),
                NpmPlanView::NoPackages => r is None,
            },
    {
        match self {
            NpmPlan::Managed(_, _) => Some(CliError::with_cause("Failed to load npm vfs.", cause)),
            NpmPlan::Byonm(_, _) => Some(CliError::with_cause("Failed to load vfs.", cause)),
            NpmPlan::NoPackages => None,
        }
    }
}

/// The registry settings of a compiled program: managed packages come from the
/// registry that stands in for all; a program without packages has the default
/// settings, given the value of `NPM_CONFIG_REGISTRY`; one that brings its own
/// packages has none.
pub fn standalone_npmrc(plan: &NpmPlan, env_registry: Option<&str>) -> (r: Option<
    Arc<ResolvedNpmRc>,
>)
    ensures
        match plan.deep_view() {
            NpmPlanView::Managed(_, _) => r is Some && resolved_npmrc(*r->0) == single_registry(
                STANDALONE_REGISTRY_URL@,
            ),
            NpmPlanView::Byonm(_, _) => r is None,
            NpmPlanView::NoPackages => r is Some && resolved_npmrc(*r->0) == single_registry(
                registry_url(env_registry.deep_view(), NPM_REGISTRY_DEFAULT_URL@),
            ),
        },
{
    match plan {
        NpmPlan::Managed(_, _) => Some(
            create_npmrc_for_registry(&default_registry(STANDALONE_REGISTRY_URL)),
        ),
        NpmPlan::Byonm(_, _) => None,
        NpmPlan::NoPackages => Some(create_default_npmrc(env_registry)),
    }
}

/// The packages that the npm resolver of a compiled program starts from: managed
/// packages are those that the archive comes with, which are taken out of it; a
/// program without packages starts from none. Nothing where the archive lacks the
/// packages, or the program brings its own.
pub fn standalone_snapshot(plan: &NpmPlan, eszip: &mut EszipV2) -> (r: Option<
    CliNpmResolverManagedSnapshotOption,
>)
    ensures
        match plan.deep_view() {
            NpmPlanView::Managed(_, _) => {
                &&& archived_modules(*final(eszip)) == archived_modules(*old(eszip))
                &&& archived_snapshot(*final(eszip)) is None
                &&& (match archived_snapshot(*old(eszip)) {
                    Some(packages) => r matches Some(
                        CliNpmResolverManagedSnapshotOption::Specified(Some(snapshot)),
                    ) && valid_snapshot_packages(snapshot) == packages,
                    None => r is None,
                })
            },
            NpmPlanView::Byonm(_, _) => r is None && *final(eszip) == *old(eszip),
            NpmPlanView::NoPackages => r == Some(
                CliNpmResolverManagedSnapshotOption::Specified(None),
            ) && *final(eszip) == *old(eszip),
        },
{
    match plan {
        NpmPlan::Managed(_, _) => match take_snapshot(eszip) {
            Some(snapshot) => Some(
                CliNpmResolverManagedSnapshotOption::Specified(Some(snapshot)),
            ),
            None => None,
        },
        NpmPlan::Byonm(_, _) => None,
        NpmPlan::NoPackages => Some(CliNpmResolverManagedSnapshotOption::Specified(None)),
    }
}

/// A `package.json` at its place below the root of the program. Nothing where it
/// has no path there, or the resolver cannot take it in.
pub open spec fn placed(root: Seq<char>, file: (Seq<char>, JsonView)) -> Option<PackageJsonView> {
    match url_joined(root, file.0) {
        Some(url) => match url_file_path(url) {
            Some(path) => {
                let loaded = loaded_package_json(path, file.1);
                if is_absolute(path) && path_parent(path) is Some && has_plain_exports(file.1)
                    && is_resolvable(loaded) {
                    Some(loaded)
                } else {
                    None
                }
            },
            None => None,
        },
        None => None,
    }
}

/// `package.json` files at their places, if all of them have one.
pub open spec fn all_placed(root: Seq<char>, files: Seq<(Seq<char>, JsonView)>) -> Option<
    Seq<PackageJsonView>,
>
    decreases files.len(),
{
    if files.len() == 0 {
        Some(Seq::empty())
    } else {
        match (all_placed(root, files.drop_last()), placed(root, files.last())) {
            (Some(before), Some(last)) => Some(before.push(last)),
            _ => None,
        }
    }
}

proof fn lemma_missing_place_stays(root: Seq<char>, files: Seq<(Seq<char>, JsonView)>, count: int)
    requires
        0 <= count <= files.len(),
        all_placed(root, files.take(count)) is None,
    ensures
        all_placed(root, files) is None,
    decreases files.len() - count,
{
    if count == files.len() {
        assert(files.take(count) == files);
    } else {
        assert(files.take(count + 1).drop_last() == files.take(count));
        lemma_missing_place_stays(root, files, count + 1);
    }
}

fn place(root: &ModuleSpecifier, relative_path: &str, json: Value) -> (r: Option<PackageJson>)
    ensures
        match r {
            Some(file) => placed(root@, (relative_path@, json_contents(json))) == Some(
                package_json_contents(file),
            ) && is_resolvable(package_json_contents(file)),
            None => placed(root@, (relative_path@, json_contents(json))) is None,
        },
{
    let url: ModuleSpecifier = match root.join(relative_path) {
        Some(url) => url,
        None => {
            return None;
        },
    };
    let path: String = match url.to_file_path() {
        Some(path) => path,
        None => {
            return None;
        },
    };
    let chars: Vec<char> = chars_of(path.as_str());
    if chars.len() == 0 || chars[0] != '/' || parent(path.as_str()).is_none() || !check_exports(
        &json,
    ) {
        return None;
    }
    let file: PackageJson = load_package_json_value(path.as_str(), json);
    if can_widen_deps(&read_package_json(&file)) {
        Some(file)
    } else {
        None
    }
}

fn place_all(root: &ModuleSpecifier, files: Vec<(String, Value)>) -> (r: Option<
    Vec<Arc<PackageJson>>,
>)
    ensures
        match all_placed(root@, entries_of(files@)) {
            Some(contents) => r is Some && all_contents(r->0@) == contents,
            None => r is None,
        },
        r matches Some(loaded) ==> forall|i: int|
            0 <= i < loaded.len() ==> is_resolvable(
                package_json_contents(*(#[trigger] loaded@[i])),
            ),
{
    let mut loaded: Vec<Arc<PackageJson>> = Vec::new();
    let ghost views = entries_of(files@);
    assert(views.take(0) == Seq::<(Seq<char>, JsonView)>::empty());
    assert(all_contents(loaded@) == Seq::<PackageJsonView>::empty());
    for file in it: files
        invariant
            it.seq() == files@,
            views == entries_of(files@),
            all_placed(root@, views.take(it.index())) == Some(all_contents(loaded@)),
            forall|i: int|
                0 <= i < loaded.len() ==> is_resolvable(
                    package_json_contents(*(#[trigger] loaded@[i])),
                ),
    {
        let ghost index = it.index();
        let ghost before = loaded@;
        assert(views.take(index + 1).drop_last() == views.take(index));
        assert(views.take(index + 1).last() == (file.0@, json_contents(file.1)));
        match place(root, file.0.as_str(), file.1) {
            Some(file) => {
                loaded.push(Arc::new(file));
                assert(all_contents(loaded@) == all_contents(before).push(
                    package_json_contents(file),
                ));
            },
            None => {
                proof {
                    lemma_missing_place_stays(root@, views, index + 1);
                }
                return None;
            },
        }
    }
    assert(views.take(views.len() as int) == views);
    Some(loaded)
}

/// What the import map of a program is parsed from, if it has one: its URL and
/// its text. Nothing where it has no URL.
pub open spec fn import_map_input(
    root: Seq<char>,
    import_map: Option<SerializedImportMap>,
) -> Option<Option<(Seq<char>, Seq<char>)>> {
    match import_map {
        Some(map) => match url_joined(root, map.specifier@) {
            Some(url) => Some(Some((url, map.json@))),
            None => None,
        },
        None => Some(None),
    }
}

/// What the resolver of a program is made of, or the message on a text that is
/// no import map. Nothing where the import map has no URL or a `package.json` has
/// no place.
pub open spec fn planned_resolver(
    root: Seq<char>,
    import_map: Option<SerializedImportMap>,
    package_jsons: Seq<(Seq<char>, JsonView)>,
    dep_resolution: PackageJsonDepResolution,
) -> Option<Result<ResolverContents, Seq<char>>> {
    match import_map_input(root, import_map) {
        None => None,
        Some(input) => match (
            match input {
                Some((url, json)) => import_map_error(url, json),
                None => None,
            }
        ) {
            Some(message) => Some(Err(message)),
            None => match all_placed(root, package_jsons) {
                Some(package_jsons) => Some(
                    Ok(
                        ResolverContents {
                            root,
                            import_map: input,
                            jsr_packages: Seq::empty(),
                            package_jsons,
                            dep_resolution,
                        },
                    ),
                ),
                None => None,
            },
        },
    }
}

/// The resolver of a compiled program, seen from the root of the program.
pub fn create_standalone_resolver(
    root_dir_url: &ModuleSpecifier,
    serialized: SerializedWorkspaceResolver,
) -> (r: Option<Result<StandaloneResolver, String>>)
    ensures
        match planned_resolver(
            root_dir_url@,
            serialized.import_map,
            entries_of(serialized.package_jsons@),
            serialized.pkg_json_resolution,
        ) {
            Some(Ok(contents)) => r is Some && r->0 is Ok && r->0->Ok_0.contents() == contents,
            Some(Err(message)) => r is Some && r->0 is Err && r->0->Err_0@ == message,
            None => r is None,
        },
{
    let import_map: Option<ImportMap> = match &serialized.import_map {
        Some(map) => match root_dir_url.join(map.specifier.as_str()) {
            Some(url) => match parse_import_map(url.as_url(), map.json.as_str()) {
                Ok(parsed) => Some(parsed),
                Err(message) => {
                    return Some(Err(message));
                },
            },
            None => {
                return None;
            },
        },
        None => None,
    };
    match place_all(root_dir_url, serialized.package_jsons) {
        Some(package_jsons) => {
            let resolver: StandaloneResolver = StandaloneResolver::new(
                root_dir_url,
                import_map,
                package_jsons,
                serialized.pkg_json_resolution,
            );
            Some(Ok(resolver))
        },
        None => None,
    }
}

/// What a program may read: paths, all of them if the list is empty, or nothing.
/// The root of an embedded file system is added unless everything may be read.
pub open spec fn granted_read(
    allow_read: Option<Seq<Seq<char>>>,
    vfs_root: Option<Seq<char>>,
) -> Option<Seq<Seq<char>>> {
    match vfs_root {
        None => allow_read,
        Some(root) => match allow_read {
            None => Some(seq![root]),
            Some(paths) => if paths.len() == 0 {
                Some(paths)
            } else {
                Some(paths.push(root))
            },
        },
    }
}

/// What a program may read, with the root of an embedded file system added.
pub fn grant_read(allow_read: Option<Vec<String>>, vfs_root: Option<String>) -> (r: Option<
    Vec<String>,
>)
    ensures
        r.deep_view() == granted_read(allow_read.deep_view(), vfs_root.deep_view()),
{
    let root: String = match vfs_root {
        Some(root) => root,
        None => {
            return allow_read;
        },
    };
    match allow_read {
        None => {
            let mut paths: Vec<String> = Vec::new();
            paths.push(root);
            assert(paths.deep_view() == seq![root@]);
            Some(paths)
        },
        Some(mut paths) => {
            if paths.len() > 0 {
                let ghost before = paths.deep_view();
                paths.push(root);
                assert(paths.deep_view() == before.push(root@));
            }
            Some(paths)
        },
    }
}

/// The steps that set up the root certificate store of a compiled program for
/// the values of `DENO_TLS_CA_STORE` and `DENO_CERT`. Certificates come with the
/// program, as bytes.
pub fn standalone_cert_steps(
    ca_stores: Option<Vec<String>>,
    ca_data: Option<Vec<u8>>,
    env_ca_store: Option<&str>,
    env_cert: Option<&str>,
) -> (r: Vec<CertStep>)
    ensures
        r.deep_view() == cert_store_steps(
            None,
            ca_stores.deep_view(),
            (match ca_data {
                Some(bytes) => Some(CaData::Bytes(bytes)),
                None => None,
            }),
            env_ca_store.deep_view(),
            env_cert.deep_view(),
        ),
{
    let ca_data: Option<CaData> = match ca_data {
        Some(bytes) => Some(CaData::Bytes(bytes)),
        None => None,
    };
    get_root_cert_store(None, ca_stores, ca_data, env_ca_store, env_cert)
}

/// The options of the worker that runs a compiled program, as far as they are
/// not fixed: nothing is inspected, traced, reloaded or measured, and operations
/// are not registered again.
#[derive(Debug)]
pub struct StandaloneWorkerOptions {
    pub argv: Vec<String>,
    pub has_node_modules_dir: bool,
    pub is_npm_main: bool,
    pub location: Option<ModuleSpecifier>,
    pub argv0: Option<String>,
    pub node_debug: Option<String>,
    pub seed: Option<u64>,
    pub unsafely_ignore_certificate_errors: Option<Vec<String>>,
    /// Whether all unstable features are on.
    pub unstable: bool,
    /// The unstable features that are on one by one.
    pub features: Vec<String>,
    pub v8_flags: Vec<String>,
}

/// The options of the worker that runs a compiled program: the program is named
/// after the npm package that it runs, or else by its own first argument.
pub fn worker_options(
    metadata: Metadata,
    main_module: &ModuleSpecifier,
    has_node_modules_dir: bool,
    first_arg: Option<String>,
    node_debug: Option<String>,
) -> (r: StandaloneWorkerOptions)
    requires
        is_readable_reference(main_module@),
    ensures
        r.argv == metadata.argv,
        r.has_node_modules_dir == has_node_modules_dir,
        r.is_npm_main == (scheme_of(main_module@) == "npm"@),
        r.location == metadata.location,
        r.argv0.deep_view() == (match npm_reference(main_module@) {
            Some(reference) => Some(binary_command(reference)),
            None => first_arg.deep_view(),
        }),
        r.node_debug == node_debug,
        r.seed == metadata.seed,
        r.unsafely_ignore_certificate_errors == metadata.unsafely_ignore_certificate_errors,
        r.unstable == metadata.unstable_config.legacy_flag_enabled,
        r.features == metadata.unstable_config.features,
        r.v8_flags == metadata.v8_flags,
{
    let argv0: Option<String> = match NpmPackageReqReference::parse(main_module.as_str()) {
        Some(reference) => Some(npm_pkg_req_ref_to_binary_command(&reference)),
        None => first_arg,
    };
    StandaloneWorkerOptions {
        argv: metadata.argv,
        has_node_modules_dir,
        is_npm_main: main_module.has_scheme("npm"),
        location: metadata.location,
        argv0,
        node_debug,
        seed: metadata.seed,
        unsafely_ignore_certificate_errors: metadata.unsafely_ignore_certificate_errors,
        unstable: metadata.unstable_config.legacy_flag_enabled,
        features: metadata.unstable_config.features,
        v8_flags: metadata.v8_flags,
    }
}

/// A program with an embedded file system may read it, and what it was allowed
/// to read before; without one, nothing changes.
pub proof fn law_embedded_files_are_readable(
    allow_read: Option<Seq<Seq<char>>>,
    vfs_root: Option<Seq<char>>,
)
    ensures
        vfs_root is None ==> granted_read(allow_read, vfs_root) == allow_read,
        vfs_root matches Some(root) ==> (granted_read(allow_read, vfs_root) matches Some(paths)
            && (paths.len() == 0 || paths.contains(root))),
        (allow_read, vfs_root) matches (Some(before), Some(root)) ==> forall|path: Seq<char>|
            (granted_read(allow_read, vfs_root)->0).contains(path) ==> before.contains(path)
                || path == root,
        allow_read matches Some(before) ==> (granted_read(allow_read, vfs_root) matches Some(paths)
            && (before.len() == 0 <==> paths.len() == 0) && forall|path: Seq<char>|
            before.contains(path) ==> paths.contains(path)),
{
    if let Some(root) = vfs_root {
        match allow_read {
            None => {
                assert(seq![root].contains(root)) by {
                    assert(seq![root][0] == root);
                }
            },
            Some(before) => {
                if before.len() > 0 {
                    let paths = before.push(root);
                    assert(paths.contains(root)) by {
                        assert(paths[before.len() as int] == root);
                    }
                    assert forall|path: Seq<char>| before.contains(path) implies paths.contains(
                        path,
                    ) by {
                        let i = choose|i: int| 0 <= i < before.len() && before[i] == path;
                        assert(paths[i] == path);
                    }
                }
            },
        }
    }
}

/// The `node_modules` directory of a program is in its embedded file system,
/// unless it was given as an absolute path.
pub proof fn law_node_modules_are_embedded(
    node_modules: Option<NodeModules>,
    root_path: Seq<char>,
    cache_root: Seq<char>,
)
    requires
        node_modules matches Some(NodeModules::Managed(Some(dir))) ==> !is_absolute(dir@),
        node_modules matches Some(NodeModules::Byonm(dir)) ==> !is_absolute(dir@),
    ensures
        planned_npm(node_modules, root_path, cache_root) matches NpmPlanView::Managed(
            root,
            Some(dir),
        ) ==> root.is_prefix_of(dir),
        planned_npm(node_modules, root_path, cache_root) matches NpmPlanView::Byonm(root, dir)
            ==> root.is_prefix_of(dir),
{
}

/// The files of a program are below the directory for temporary files, in a folder that
/// is named after the program. The main module is the entry point seen from there, and
/// `node_modules` lies directly in it.
pub proof fn law_program_layout(
    temp_dir: &str,
    exe_name: &str,
    entrypoint: &str,
    r: Option<ProgramLayout>,
)
    requires
        call_ensures(program_layout, (temp_dir, exe_name, entrypoint), r),
    ensures
        ({
            let root = path_join(temp_dir@, "deno-compile-"@ + exe_name@);
            &&& r is Some <==> directory_url(root) is Some && url_joined(
                directory_url(root)->0,
                entrypoint@,
            ) is Some
            &&& r matches Some(layout) ==> {
                &&& layout.root_path@ == root
                &&& Some(layout.root_dir_url@) == directory_url(root)
                &&& Some(layout.main_module@) == url_joined(layout.root_dir_url@, entrypoint@)
                &&& layout.root_node_modules_path@ == path_join(root, "node_modules"@)
            }
        }),
{
}

/// Where the packages of a program are: in the embedded file system below the program's
/// root, in the directory that the program was compiled with; managed packages without a
/// directory of their own are in the cache; a program without packages has none.
pub proof fn law_npm_plan(
    node_modules: &Option<NodeModules>,
    root_path: &str,
    cache_root: &str,
    plan: NpmPlan,
    root: Option<String>,
)
    requires
        call_ensures(plan_npm, (node_modules, root_path, cache_root), plan),
        call_ensures(NpmPlan::vfs_root, (&plan,), root),
    ensures
        *node_modules is None ==> plan is NoPackages && root is None,
        *node_modules matches Some(NodeModules::Managed(None)) ==> plan.deep_view()
            == NpmPlanView::Managed(cache_root@, None) && root.deep_view() == Some(cache_root@),
        *node_modules matches Some(NodeModules::Managed(Some(dir))) ==> plan.deep_view()
            == NpmPlanView::Managed(root_path@, Some(path_join(root_path@, dir@)))
            && root.deep_view() == Some(root_path@),
        *node_modules matches Some(NodeModules::Byonm(dir)) ==> plan.deep_view()
            == NpmPlanView::Byonm(root_path@, path_join(root_path@, dir@)) && root.deep_view()
            == Some(root_path@),
{
}

/// The root of the embedded file system is the one that the plan names, and there is none
/// without packages. An error on loading it names the cause, and the packages if they are
/// managed.
pub proof fn law_embedded_file_system(
    plan: &NpmPlan,
    cause: &str,
    root: Option<String>,
    error: Option<CliError>,
)
    requires
        call_ensures(NpmPlan::vfs_root, (plan,), root),
        call_ensures(NpmPlan::load_error, (plan, cause), error),
    ensures
        root is Some <==> !(*plan is NoPackages),
        error is Some <==> root is Some,
        *plan matches NpmPlan::Managed(at, _) ==> root.deep_view() == Some(at@)
            && error->0.message@ == "Failed to load npm vfs."@,
        *plan matches NpmPlan::Byonm(at, _) ==> root.deep_view() == Some(at@)
            && error->0.message@ == "Failed to load vfs."@,
        error matches Some(error) ==> error.cause.deep_view() == Some(cause@),
{
}

/// A program with its own packages has no registry. Managed packages are never asked of
/// a registry on the network, and a program without packages has the default settings.
pub proof fn law_standalone_npmrc(
    plan: &NpmPlan,
    env_registry: Option<&str>,
    default: Arc<ResolvedNpmRc>,
    r: Option<Arc<ResolvedNpmRc>>,
)
    requires
        call_ensures(standalone_npmrc, (plan, env_registry), r),
        call_ensures(create_default_npmrc, (env_registry,), default),
    ensures
        *plan is Byonm <==> r is None,
        *plan is Managed ==> resolved_npmrc(*r->0).default_url == "https://localhost/"@
            && resolved_npmrc(*r->0).scopes == Map::<Seq<char>, Seq<char>>::empty(),
        *plan is NoPackages ==> resolved_npmrc(*r->0) == resolved_npmrc(*default),
{
}

/// What a program may read: without an embedded file system what it was allowed; with
/// one its root as well, last. A program that was allowed everything, which an empty list
/// says, still is.
pub proof fn law_granted_read(
    allow_read: Option<Vec<String>>,
    vfs_root: Option<String>,
    r: Option<Vec<String>>,
)
    requires
        call_ensures(grant_read, (allow_read, vfs_root), r),
    ensures
        vfs_root is None ==> r.deep_view() == allow_read.deep_view(),
        vfs_root is Some && allow_read is None ==> r is Some && r->0.deep_view() == seq![
            vfs_root->0@,
        ],
        vfs_root is Some && allow_read is Some && allow_read->0.len() == 0 ==> r is Some
            && r->0.len() == 0,
        vfs_root is Some && allow_read is Some && allow_read->0.len() > 0 ==> r is Some
            && r->0.deep_view() == allow_read->0.deep_view().push(vfs_root->0@),
{
}

/// The certificates of a program are set up as any others are, with the data that it
/// comes with in place of a file, and seen from no root path.
pub proof fn law_standalone_cert_steps(
    ca_stores: Option<Vec<String>>,
    ca_data: Option<Vec<u8>>,
    env_ca_store: Option<&str>,
    env_cert: Option<&str>,
    data: Option<CaData>,
    expected: Vec<CertStep>,
    r: Vec<CertStep>,
)
    requires
        call_ensures(standalone_cert_steps, (ca_stores, ca_data, env_ca_store, env_cert), r),
        ca_data is None ==> data is None,
        ca_data matches Some(bytes) ==> data == Some(CaData::Bytes(bytes)),
        call_ensures(
            get_root_cert_store,
            (None, ca_stores, data, env_ca_store, env_cert),
            expected,
        ),
    ensures
        r.deep_view() == expected.deep_view(),
{
}

/// The options of a program's worker are those that it was compiled with. The program is
/// named after the npm package that it runs, or by its own first argument, and runs an
/// npm package exactly where its main module is one.
pub proof fn law_worker_options(
    metadata: Metadata,
    main_module: &ModuleSpecifier,
    has_dir: bool,
    first_arg: Option<String>,
    node_debug: Option<String>,
    r: StandaloneWorkerOptions,
)
    requires
        call_ensures(
            worker_options,
            (metadata, main_module, has_dir, first_arg, node_debug),
            r,
        ),
    ensures
        r.argv == metadata.argv && r.v8_flags == metadata.v8_flags && r.seed == metadata.seed,
        r.location == metadata.location,
        r.unsafely_ignore_certificate_errors == metadata.unsafely_ignore_certificate_errors,
        r.unstable == metadata.unstable_config.legacy_flag_enabled,
        r.features == metadata.unstable_config.features,
        r.has_node_modules_dir == has_dir && r.node_debug == node_debug,
        r.is_npm_main <==> scheme_of(main_module@) == "npm"@,
        npm_reference(main_module@) is None ==> r.argv0.deep_view() == first_arg.deep_view(),
        npm_reference(main_module@) matches Some((name, Some(path))) ==> r.argv0.deep_view()
            == Some(path),
        npm_reference(main_module@) matches Some((name, None)) ==> r.argv0.deep_view() == Some(
            name,
        ),
{
}

/// A resolver of a program holds its root, its import map under the URL seen from the
/// root, its `package.json` files in order, and whether their dependencies are used; it
/// has no JSR packages. It is made exactly where the import map has a URL and every
/// `package.json` has a place, and a text that is no import map is an error.
pub proof fn law_standalone_resolver(
    root: &ModuleSpecifier,
    serialized: SerializedWorkspaceResolver,
    r: Option<Result<StandaloneResolver, String>>,
)
    requires
        call_ensures(create_standalone_resolver, (root, serialized), r),
    ensures
        serialized.import_map matches Some(map) ==> url_joined(root@, map.specifier@) is None ==> r
            is None,
        serialized.import_map matches Some(map) ==> (url_joined(root@, map.specifier@) matches Some(
            url,
        ) ==> {
            &&& import_map_error(url, map.json@) matches Some(message) ==> r is Some && r->0 is Err
                && r->0->Err_0@ == message
            &&& import_map_error(url, map.json@) is None ==> (r is Some ==> r->0 is Ok
                && r->0->Ok_0.contents().import_map == Some((url, map.json@)))
        }),
        serialized.import_map is None ==> (r is Some ==> r->0 is Ok
            && r->0->Ok_0.contents().import_map is None),
        r matches Some(Ok(resolver)) ==> {
            let contents = resolver.contents();
            &&& contents.root == root@
            &&& contents.jsr_packages.len() == 0
            &&& contents.dep_resolution == serialized.pkg_json_resolution
            &&& contents.package_jsons.len() == serialized.package_jsons.len()
            &&& forall|i: int|
                0 <= i < contents.package_jsons.len() ==> is_placed_at(
                    #[trigger] contents.package_jsons[i],
                    root@,
                    serialized.package_jsons@[i].0@,
                    json_contents(serialized.package_jsons@[i].1),
                )
        },
{
    lemma_all_placed(root@, entries_of(serialized.package_jsons@));
    if let Some(Ok(resolver)) = r {
        let contents = resolver.contents();
        let files = entries_of(serialized.package_jsons@);
        assert forall|i: int| 0 <= i < contents.package_jsons.len() implies is_placed_at(
            #[trigger] contents.package_jsons[i],
            root@,
            serialized.package_jsons@[i].0@,
            json_contents(serialized.package_jsons@[i].1),
        ) by {
            assert(files[i] == (
                serialized.package_jsons@[i].0@,
                json_contents(serialized.package_jsons@[i].1),
            ));
        }
    }
}

/// Whether a `package.json` is the one of a path seen from the root, with its JSON.
pub open spec fn is_placed_at(
    file: PackageJsonView,
    root: Seq<char>,
    path: Seq<char>,
    json: JsonView,
) -> bool {
    &&& url_joined(root, path) is Some
    &&& url_file_path(url_joined(root, path)->0) is Some
    &&& file == loaded_package_json(url_file_path(url_joined(root, path)->0)->0, json)
}

proof fn lemma_all_placed(root: Seq<char>, files: Seq<(Seq<char>, JsonView)>)
    ensures
        all_placed(root, files) matches Some(all) ==> all.len() == files.len() && forall|i: int|
            0 <= i < all.len() ==> is_placed_at(
                #[trigger] all[i],
                root,
                files[i].0,
                files[i].1,
            ),
    decreases files.len(),
{
    if files.len() > 0 {
        let front = files.drop_last();
        lemma_all_placed(root, front);
        if let Some(all) = all_placed(root, files) {
            assert forall|i: int| 0 <= i < all.len() implies is_placed_at(
                #[trigger] all[i],
                root,
                files[i].0,
                files[i].1,
            ) by {
                if i < front.len() {
                    assert(front[i] == files[i]);
                    assert(all_placed(root, front)->0[i] == all[i]);
                }
            }
        }
    }
}

/// The packages that a program starts from: managed ones are those of the archive, which
/// lacks them afterwards and keeps its modules; a program without packages starts from
/// none; and one with its own has no snapshot. The archive is only touched for managed
/// packages.
pub proof fn law_standalone_snapshot(
    plan: &NpmPlan,
    r: Option<CliNpmResolverManagedSnapshotOption>,
)
    ensures
        forall|eszip: &mut EszipV2| #[trigger]
            call_ensures(standalone_snapshot, (plan, eszip), r) ==> {
                &&& archived_modules(*final(eszip)) == archived_modules(*eszip)
                &&& !(*plan is Managed) ==> *final(eszip) == *eszip
                &&& *plan is Byonm ==> r is None
                &&& *plan is NoPackages ==> r == Some(
                    CliNpmResolverManagedSnapshotOption::Specified(None),
                )
                &&& *plan is Managed ==> (r is Some <==> archived_snapshot(*eszip) is Some)
                &&& *plan is Managed && r is Some ==> (r->0 matches
                    CliNpmResolverManagedSnapshotOption::Specified(Some(snapshot)) && Some(
                    valid_snapshot_packages(snapshot),
                ) == archived_snapshot(*eszip))
                &&& *plan is Managed ==> archived_snapshot(*final(eszip)) is None
            },
{
}

} // verus!
