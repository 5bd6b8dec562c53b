use std::collections::HashMap;
use std::sync::Arc;

use deno_args::cache_setting::CacheSetting;
use deno_args::error::CliError;
use deno_args::lockfile::{CliLockfile, FileRead};
use deno_args::managed::{
    add_package_reqs, add_package_reqs_raw, check_state_hash, create_cache, get_npm_process_state,
    in_npm_package, is_pkg_req_folder_cached, package_reqs_resolved, packages_cached,
    pkg_id_resolved, resolve_pkg_id_from_specifier, resolve_snapshot, set_package_reqs,
    snapshot_from_lockfile_outcome, snapshot_or_warning, AddPkgReqsResult, AddStage,
    CliNpmResolverManagedSnapshotOption, FolderLookup, PackageEntry, PkgIdStage, SnapshotSource,
    TopLevelInstall,
};
use deno_args::npmrc::{
    create_default_npmrc, create_npmrc_for_registry, discover_npmrc, env_lookup,
    try_to_parse_npmrc, NpmrcSearch, NpmrcStep,
};
use deno_args::process_state::{NpmProcessState, NpmProcessStateKind, ProcessState};
use deno_args::specifier::ModuleSpecifier;
use deno_npm::resolution::{
    SerializedNpmResolutionSnapshot, SerializedNpmResolutionSnapshotPackage,
};
use deno_npm::NpmPackageId;
use deno_semver::package::{PackageNv, PackageReq};

fn specifier(text: &str) -> ModuleSpecifier {
    ModuleSpecifier::parse(text).unwrap()
}

fn texts(items: &[&str]) -> Vec<String> {
    items.iter().map(|item| item.to_string()).collect()
}

fn snapshot(root: &str, packages: &[&str]) -> SerializedNpmResolutionSnapshot {
    let id = |text: &str| NpmPackageId::from_serialized(text).unwrap();
    SerializedNpmResolutionSnapshot {
        root_packages: HashMap::from([(PackageReq::from_str("a").unwrap(), id(root))]),
        packages: packages
            .iter()
            .map(|text| SerializedNpmResolutionSnapshotPackage {
                id: id(text),
                system: Default::default(),
                dist: Default::default(),
                dependencies: Default::default(),
                optional_dependencies: Default::default(),
                bin: None,
                scripts: Default::default(),
                deprecated: None,
            })
            .collect(),
    }
}

#[test]
fn default_registries() {
    let npmrc = create_default_npmrc(None);
    assert_eq!(npmrc.default_config.registry_url.as_str(), "https://registry.npmjs.org/");
    let npmrc = create_default_npmrc(Some("http://localhost:4260"));
    assert_eq!(npmrc.default_config.registry_url.as_str(), "http://localhost:4260/");
    assert!(npmrc.scopes.is_empty());
    assert!(npmrc.registry_configs.is_empty());
    assert_eq!(npmrc.default_config.config.auth_token, None);
    let npmrc = create_npmrc_for_registry(&specifier("https://example.com/npm/"));
    assert_eq!(npmrc.default_config.registry_url.as_str(), "https://example.com/npm/");
}

#[test]
fn environment_lookup() {
    let env = vec![
        ("A".to_string(), "1".to_string()),
        ("A".to_string(), "2".to_string()),
        ("B".to_string(), "3".to_string()),
    ];
    assert_eq!(env_lookup(&env, "A").as_deref(), Some("1"));
    assert_eq!(env_lookup(&env, "B").as_deref(), Some("3"));
    assert_eq!(env_lookup(&env, "C"), None);
}

#[test]
fn npmrc_files() {
    let registry = specifier("https://registry.npmjs.org/");
    let env = vec![("TOKEN".to_string(), "s3cr3t".to_string())];
    let source = "@scope:registry=https://npm.example.com/\n//npm.example.com/:_authToken=${TOKEN}\n";
    let npmrc = try_to_parse_npmrc(source, "/project/.npmrc", &env, &registry).unwrap();
    assert_eq!(npmrc.default_config.registry_url.as_str(), "https://registry.npmjs.org/");
    let scope = &npmrc.scopes["scope"];
    assert_eq!(scope.registry_url.as_str(), "https://npm.example.com/");
    assert_eq!(scope.config.auth_token.as_deref(), Some("s3cr3t"));
    let source = "registry=https://npm.example.com/\n";
    let npmrc = try_to_parse_npmrc(source, "/project/.npmrc", &env, &registry).unwrap();
    assert_eq!(npmrc.default_config.registry_url.as_str(), "https://npm.example.com/");
    let source = "\"key\" value\n";
    let error = try_to_parse_npmrc(source, "/project/.npmrc", &env, &registry).unwrap_err();
    assert_eq!(error.message, "Failed to parse .npmrc at /project/.npmrc");
    let source = "@scope:registry=nowhere\n";
    let error = try_to_parse_npmrc(source, "/project/.npmrc", &env, &registry).unwrap_err();
    assert_eq!(error.message, "Failed to resolve .npmrc options");
    let source = "@scope:registry=https://\n";
    let error = try_to_parse_npmrc(source, "/project/.npmrc", &env, &registry).unwrap_err();
    assert_eq!(error.message, "Failed to resolve .npmrc options");
    assert_eq!(error.cause.as_deref(), Some("registry 'https://' has no host"));
    // the registry to fall back on only counts where the file names none
    let nowhere = specifier("foo://");
    let source = "registry=https://npm.example.com/\n";
    let npmrc = try_to_parse_npmrc(source, "/project/.npmrc", &env, &nowhere).unwrap();
    assert_eq!(npmrc.default_config.registry_url.as_str(), "https://npm.example.com/");
    let source = "@scope:registry=https://npm.example.com/\n";
    let error = try_to_parse_npmrc(source, "/project/.npmrc", &env, &nowhere).unwrap_err();
    assert_eq!(error.cause.as_deref(), Some("registry 'foo://' has no host"));
}

fn search() -> NpmrcSearch {
    let pkg_json = Some("/project/package.json");
    NpmrcSearch::new(pkg_json, Some("/config/deno.json"))
}

#[test]
fn npmrc_is_looked_for_in_order() {
    let env = Vec::new();
    let search = search();
    assert_eq!(search.candidate(), Some("/project/.npmrc"));
    let (search, step) = discover_npmrc(search, FileRead::NotFound, &env, None);
    assert!(matches!(step, Ok(NpmrcStep::Continue)));
    assert_eq!(search.candidate(), Some("/config/.npmrc"));
    let (search, step) = discover_npmrc(search, FileRead::NotFound, &env, None);
    assert_eq!(search.candidate(), None);
    let Ok(NpmrcStep::Done(npmrc, path)) = step else { panic!("not done") };
    assert_eq!(npmrc.default_config.registry_url.as_str(), "https://registry.npmjs.org/");
    assert_eq!(path, None);
}

#[test]
fn npmrc_is_found() {
    let env = Vec::new();
    let read = FileRead::Text("registry=https://npm.example.com/\n".to_string());
    let (_, step) = discover_npmrc(search(), read, &env, None);
    let Ok(NpmrcStep::Done(npmrc, path)) = step else { panic!("not done") };
    assert_eq!(npmrc.default_config.registry_url.as_str(), "https://npm.example.com/");
    assert_eq!(path.as_deref(), Some("/project/.npmrc"));
    let read = FileRead::Failed("denied".to_string());
    let (search, step) = discover_npmrc(search(), read, &env, None);
    assert_eq!(search.candidate(), Some("/project/.npmrc"));
    let error = step.unwrap_err();
    assert_eq!(error.message, "Error loading .npmrc at /project/.npmrc. denied");
    let none = NpmrcSearch::new(None, None);
    assert_eq!(none.candidate(), None);
    let (_, step) = discover_npmrc(none, FileRead::NotFound, &env, Some("http://localhost"));
    let Ok(NpmrcStep::Done(npmrc, None)) = step else { panic!("not done") };
    assert_eq!(npmrc.default_config.registry_url.as_str(), "http://localhost/");
}

#[test]
fn known_registries_of_a_cache() {
    let registry = specifier("https://registry.npmjs.org/");
    let source = "@a:registry=https://a.example.com/\n@b:registry=https://b.example.com/\n";
    let npmrc = try_to_parse_npmrc(source, "/.npmrc", &Vec::new(), &registry).unwrap();
    let plan = create_cache("/cache".to_string(), CacheSetting::Only, npmrc);
    assert_eq!(plan.root_dir, "/cache");
    assert!(matches!(plan.cache_setting, CacheSetting::Only));
    assert_eq!(plan.registries[0], "https://registry.npmjs.org/");
    let mut others = plan.registries[1..].to_vec();
    others.sort();
    assert_eq!(others, texts(&["https://a.example.com/", "https://b.example.com/"]));
    assert_eq!(plan.npmrc.scopes.len(), 2);
}

#[test]
fn snapshots_of_processes() {
    let state = |snapshot: SerializedNpmResolutionSnapshot| ProcessState {
        deno_future: false,
        npm: Some(NpmProcessState {
            kind: NpmProcessStateKind::Snapshot(snapshot),
            local_node_modules_path: None,
        }),
    };
    let complete = state(snapshot("a@1.0.0", &["a@1.0.0"]));
    assert!(!complete.uses_byonm());
    let valid = complete.npm_resolution_snapshot().unwrap().unwrap();
    assert_eq!(valid.as_serialized().packages.len(), 1);
    let incomplete = state(snapshot("a@1.0.0", &["b@1.0.0"]));
    assert!(incomplete.npm_resolution_snapshot().is_err());
    let byonm = ProcessState {
        deno_future: false,
        npm: Some(NpmProcessState {
            kind: NpmProcessStateKind::Byonm,
            local_node_modules_path: None,
        }),
    };
    assert!(byonm.uses_byonm());
    assert!(byonm.npm_resolution_snapshot().unwrap().is_none());
    let none = ProcessState { deno_future: false, npm: None };
    assert!(!none.uses_byonm());
    assert!(none.npm_resolution_snapshot().unwrap().is_none());
}

#[test]
fn state_for_other_processes() {
    let valid = snapshot("a@1.0.0", &["a@1.0.0"]).into_valid().unwrap();
    let state = get_npm_process_state(valid, Some("/project/node_modules"));
    assert_eq!(state.local_node_modules_path.as_deref(), Some("/project/node_modules"));
    let NpmProcessStateKind::Snapshot(held) = state.kind else { panic!("no snapshot") };
    assert_eq!(held.packages.len(), 1);
    assert_eq!(held.packages[0].id.as_serialized(), "a@1.0.0");
}

#[test]
fn states_read_back() {
    let mut held = snapshot("a@1.0.0_b@2.0.0-pre.1+x", &["a@1.0.0_b@2.0.0-pre.1+x", "@b/c@2.0.0"]);
    let id = NpmPackageId::from_serialized("@b/c@2.0.0").unwrap();
    held.root_packages.insert(PackageReq::from_str("@b/c@^2.0.0").unwrap(), id.clone());
    held.packages[0].dependencies.insert("c".to_string(), id);
    let state = NpmProcessState {
        kind: NpmProcessStateKind::Snapshot(held.clone()),
        local_node_modules_path: Some("/a \"b\"".to_string()),
    };
    let read = NpmProcessState::from_json(&state.to_json()).unwrap();
    assert_eq!(read.local_node_modules_path, state.local_node_modules_path);
    assert!(matches!(read.kind, NpmProcessStateKind::Snapshot(read) if read == held));
    let own = NpmProcessState { kind: NpmProcessStateKind::Byonm, local_node_modules_path: None };
    assert_eq!(own.to_json(), r#"{"kind":"Byonm","local_node_modules_path":null}"#);
    let read = NpmProcessState::from_json(&own.to_json()).unwrap();
    assert!(matches!(read.kind, NpmProcessStateKind::Byonm));
    assert_eq!(read.local_node_modules_path, None);
}

#[test]
fn states_that_are_read() {
    let is_own = |text: &str| match NpmProcessState::from_json(text) {
        Some(state) => Some(matches!(state.kind, NpmProcessStateKind::Byonm)),
        None => None,
    };
    assert_eq!(is_own(r#"{"kind":"Byonm"}"#), Some(true));
    assert_eq!(is_own(r#"{"other":1,"kind":{"Byonm":null}}"#), Some(true));
    assert_eq!(is_own(r#"["Byonm",null]"#), Some(true));
    let empty = r#"{"root_packages":{},"packages":[]}"#;
    let with_kind = |kind: &str| format!("{{\"kind\":{}}}", kind);
    assert_eq!(is_own(&with_kind(&format!("{{\"Snapshot\":{}}}", empty))), Some(false));
    assert_eq!(is_own(&with_kind("{\"Snapshot\":{\"packages\":[]}}")), None);
    assert_eq!(is_own(&with_kind("{\"Snapshot\":null,\"Byonm\":null}")), None);
    assert_eq!(is_own(&with_kind("{\"Byonm\":1}")), None);
    assert_eq!(is_own(&with_kind("\"Snapshot\"")), None);
    assert_eq!(is_own(&with_kind("5")), None);
    assert_eq!(is_own(r#"["Byonm"]"#), None);
    assert_eq!(is_own(r#"{"kind":"Byonm","local_node_modules_path":1}"#), None);
    assert_eq!(is_own("{}"), None);
    assert_eq!(is_own("{"), None);
    let rooted = |req: &str| {
        let id = r#"{"nv":"a@1.0.0","peer_dependencies":[]}"#;
        let snapshot = format!("{{\"root_packages\":{{\"{}\":{}}},\"packages\":[]}}", req, id);
        is_own(&with_kind(&format!("{{\"Snapshot\":{}}}", snapshot)))
    };
    assert_eq!(rooted("a@1"), Some(false));
    assert_eq!(rooted("a@1.0.18446744073709551615"), Some(false));
    assert_eq!(rooted("a@^18446744073709551615.0.0"), None);
}

#[test]
fn starting_snapshots() {
    let lockfile = CliLockfile::read_from_path("/a.lock", FileRead::NotFound, false).unwrap();
    let option = CliNpmResolverManagedSnapshotOption::ResolveFromLockfile(Arc::new(lockfile));
    let SnapshotSource::Lockfile(lockfile) = resolve_snapshot(option) else {
        panic!("no lockfile")
    };
    let error = snapshot_from_lockfile_outcome(&lockfile, Err("gone".to_string())).unwrap_err();
    assert_eq!(error.message, "failed reading lockfile '/a.lock'");
    assert_eq!(error.cause.as_deref(), Some("gone"));
    let valid = snapshot("a@1.0.0", &["a@1.0.0"]).into_valid().unwrap();
    assert!(snapshot_from_lockfile_outcome(&lockfile, Ok(valid)).unwrap().is_some());
    let fresh = deno_lockfile::Lockfile::new_empty("/b.lock".into(), true);
    let fresh = Arc::new(CliLockfile::new(fresh, false));
    let option = CliNpmResolverManagedSnapshotOption::ResolveFromLockfile(fresh);
    assert!(matches!(resolve_snapshot(option), SnapshotSource::Ready(None)));
    let valid = snapshot("a@1.0.0", &["a@1.0.0"]).into_valid().unwrap();
    let option = CliNpmResolverManagedSnapshotOption::Specified(Some(valid));
    assert!(matches!(resolve_snapshot(option), SnapshotSource::Ready(Some(_))));
    let (found, warning) = snapshot_or_warning(Err(CliError::with_cause("no", "cause")));
    assert!(found.is_none());
    assert_eq!(warning.as_deref(), Some("failed to resolve snapshot: no"));
    assert_eq!(snapshot_or_warning(Ok(None)).1, None);
}

fn added(results: Vec<u8>, outcome: Result<(), CliError>) -> AddPkgReqsResult<u8> {
    AddPkgReqsResult { results, dependencies_result: outcome }
}

#[test]
fn adding_package_requirements() {
    let none: Vec<PackageReq> = Vec::new();
    let AddStage::Done(result) = add_package_reqs_raw::<_, u8>(&none) else { panic!("not done") };
    assert!(result.results.is_empty());
    assert!(add_package_reqs(result).is_ok());
    let one = vec![PackageReq::from_str("a").unwrap()];
    assert!(matches!(add_package_reqs_raw::<_, u8>(&one), AddStage::Resolve));
    let AddStage::Cache(results) = package_reqs_resolved(added(vec![1, 2], Ok(()))) else {
        panic!("nothing to cache")
    };
    assert_eq!(results, vec![1, 2]);
    let failed = added(vec![1], Err(CliError::new("bad")));
    let AddStage::Done(result) = package_reqs_resolved(failed) else { panic!("not done") };
    assert_eq!(result.results, vec![1]);
    assert_eq!(add_package_reqs(result).unwrap_err().message, "bad");
    let outcome = Err(CliError::new("full"));
    let AddStage::Done(result) = packages_cached(vec![3], outcome) else { panic!("not done") };
    assert_eq!(result.results, vec![3]);
    assert_eq!(add_package_reqs(result).unwrap_err().message, "full");
}

#[test]
fn top_level_install_happens_once() {
    let mut install = TopLevelInstall::new();
    assert!(!install.ensure_top_level_package_json_install(None));
    assert!(install.ensure_top_level_package_json_install(Some(&vec![true, false])));
    assert!(!install.ensure_top_level_package_json_install(Some(&vec![true, false])));
    let mut install = TopLevelInstall::new();
    assert!(!install.ensure_top_level_package_json_install(Some(&vec![true, true])));
    assert!(!install.ensure_top_level_package_json_install(Some(&vec![false])));
}

#[test]
fn cached_folders() {
    assert!(!is_pkg_req_folder_cached(FolderLookup::NoPackage));
    assert!(!is_pkg_req_folder_cached(FolderLookup::NoFolder));
    assert!(!is_pkg_req_folder_cached(FolderLookup::Folder(false)));
    assert!(is_pkg_req_folder_cached(FolderLookup::Folder(true)));
}

#[test]
fn modules_in_npm_packages() {
    let root = specifier("file:///project/node_modules/");
    assert!(in_npm_package(&specifier("file:///project/node_modules/a/index.js"), &root));
    assert!(!in_npm_package(&specifier("file:///project/main.ts"), &root));
    assert!(!in_npm_package(&specifier("file:///project/node_modules_other/a.js"), &root));
}

fn entry(req: &str, nv: &str) -> PackageEntry {
    PackageEntry {
        req: PackageReq::from_str(req).unwrap(),
        nv: PackageNv::from_str(nv).unwrap(),
    }
}

#[test]
fn check_state_is_sorted() {
    let entries = |order: [usize; 3]| {
        let all = [("b@1", "b@1.0.0"), ("a@2", "a@2.0.0"), ("a@1", "a@1.5.0")];
        order.iter().map(|i| entry(all[*i].0, all[*i].1)).collect::<Vec<_>>()
    };
    let shown = |order: [usize; 3]| {
        let state = check_state_hash(true, entries(order));
        assert!(state.has_node_modules_path);
        let packages = state.packages.iter();
        packages.map(|entry| format!("{} {}", entry.req, entry.nv)).collect::<Vec<_>>()
    };
    let expected = shown([0, 1, 2]);
    assert_eq!(expected[2], "b@1 b@1.0.0");
    assert_eq!(shown([2, 1, 0]), expected);
    assert_eq!(shown([1, 0, 2]), expected);
    assert!(!check_state_hash(false, Vec::new()).has_node_modules_path);
}

#[test]
fn package_requirements_are_set() {
    let stage: AddStage<u8> = set_package_reqs(Ok(()));
    let AddStage::Done(result) = stage else { panic!("not done") };
    assert!(result.results.is_empty() && result.dependencies_result.is_ok());
    let stage: AddStage<u8> = set_package_reqs(Err(CliError::new("bad")));
    let AddStage::Done(result) = stage else { panic!("not done") };
    assert_eq!(result.dependencies_result.unwrap_err().message, "bad");
}

#[test]
fn packages_of_modules() {
    let first = |folder| resolve_pkg_id_from_specifier::<u8, u8>(folder);
    assert!(matches!(first(Ok(Some(7))), PkgIdStage::Resolve(7)));
    assert!(matches!(first(Ok(None)), PkgIdStage::Done(Ok(None))));
    assert!(matches!(first(Err(CliError::new("bad"))), PkgIdStage::Done(Err(_))));
    let last = |id| pkg_id_resolved::<u8, u8>(id);
    assert!(matches!(last(Ok(3)), PkgIdStage::Done(Ok(Some(3)))));
    assert!(matches!(last(Err(CliError::new("bad"))), PkgIdStage::Done(Err(_))));
}
