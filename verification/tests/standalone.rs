use std::path::PathBuf;
use std::sync::Arc;

use deno_args::flags::UnstableConfig;
use deno_args::managed::CliNpmResolverManagedSnapshotOption;
use deno_args::module_loader::{
    arc_u8_to_arc_str, current_dir_resolved, load, npm_module_type, npm_package_checked, resolve,
    resolved_as_node, source_read, specifier_mapped, ErrorClass, LoadStep, LoaderError, ModuleKind,
    ModuleType, NpmPackageCheck, ResolutionKind, ResolveStep, WorkspaceEszip,
};
use deno_args::specifier::ModuleSpecifier;
use deno_args::standalone::{
    create_standalone_resolver, grant_read, plan_npm, program_layout, standalone_cert_steps,
    standalone_npmrc, standalone_snapshot, worker_options, Metadata, NodeModules, NpmPlan,
    SerializedImportMap, SerializedWorkspaceResolver,
};
use deno_args::workspace_resolver::{
    MappedResolution, MappingError, PackageJsonDepResolution, StandaloneResolver,
};
use deno_graph::{CapturingModuleParser, DefaultParsedSourceStore, GraphKind, ModuleGraph};
use deno_npm::resolution::{
    SerializedNpmResolutionSnapshot, SerializedNpmResolutionSnapshotPackage,
};
use deno_npm::NpmPackageId;
use eszip::{EszipV2, FromGraphOptions};
use serde_json::Value;

fn specifier(text: &str) -> ModuleSpecifier {
    ModuleSpecifier::parse(text).unwrap()
}

fn texts(items: &[&str]) -> Vec<String> {
    items.iter().map(|item| item.to_string()).collect()
}

fn archive() -> EszipV2 {
    let mut graph = ModuleGraph::new(GraphKind::All);
    let from = url::Url::parse("jsr:@scope/pkg").unwrap();
    let to = url::Url::parse("https://jsr.io/@scope/pkg/1.0.0/data.json").unwrap();
    graph.redirects.insert(from, to);
    let store = DefaultParsedSourceStore::default();
    let mut eszip = EszipV2::from_graph(FromGraphOptions {
        graph,
        parser: CapturingModuleParser::new(None, &store),
        transpile_options: Default::default(),
        emit_options: Default::default(),
        relative_file_base: None,
        npm_packages: None,
    })
    .unwrap();
    let data: Arc<[u8]> = Arc::from(b"{}".to_vec());
    for key in ["sub/data.json", "file:///other/data.json", "https://jsr.io/@scope/pkg/1.0.0/data.json"] {
        eszip.add_import_map(eszip::ModuleKind::Json, key.to_string(), data.clone());
    }
    eszip.add_import_map(eszip::ModuleKind::Jsonc, "deno.jsonc".to_string(), data.clone());
    eszip.add_opaque_data("blob".to_string(), data);
    eszip
}

fn workspace_eszip() -> WorkspaceEszip {
    WorkspaceEszip::new(archive(), specifier("file:///root/")).unwrap()
}

#[test]
fn modules_of_an_archive() {
    let eszip = workspace_eszip();
    let found = eszip.get_module(&specifier("file:///root/sub/data.json")).unwrap();
    assert_eq!(found.specifier.as_str(), "file:///root/sub/data.json");
    assert_eq!(found.kind, ModuleKind::Json);
    let found = eszip.get_module(&specifier("file:///other/data.json")).unwrap();
    assert_eq!(found.specifier.as_str(), "file:///other/data.json");
    let found = eszip.get_module(&specifier("jsr:@scope/pkg")).unwrap();
    assert_eq!(found.specifier.as_str(), "https://jsr.io/@scope/pkg/1.0.0/data.json");
    assert_eq!(found.inner.specifier, "https://jsr.io/@scope/pkg/1.0.0/data.json");
    let found = eszip.get_module(&specifier("file:///root/blob")).unwrap();
    assert_eq!(found.kind, ModuleKind::OpaqueData);
    assert!(eszip.get_module(&specifier("file:///root/deno.jsonc")).is_none());
    assert!(eszip.get_module(&specifier("file:///root/missing.ts")).is_none());
    assert!(eszip.get_module(&specifier("https://example.com/")).is_none());
    assert!(WorkspaceEszip::new(archive(), specifier("https://example.com/")).is_none());
}

fn error_of(step: ResolveStep) -> (ErrorClass, String) {
    match step {
        ResolveStep::Done(Err(error)) => (error.class, error.message),
        step => panic!("{:?}", step),
    }
}

fn given_error(message: &str) -> LoaderError {
    LoaderError { class: ErrorClass::Given, message: message.to_string() }
}

#[test]
fn referrers() {
    let main = resolve(".", ResolutionKind::MainModule);
    assert!(matches!(main, ResolveStep::ResolveCurrentDir));
    assert_eq!(
        error_of(resolve(".", ResolutionKind::Import)),
        (
            ErrorClass::Generic,
            "Expected to resolve main module, got Import instead.".to_string()
        )
    );
    assert_eq!(
        error_of(resolve(".", ResolutionKind::DynamicImport)).1,
        "Expected to resolve main module, got DynamicImport instead."
    );
    let step = resolve("file:///root/main.ts", ResolutionKind::Import);
    assert!(
        matches!(step, ResolveStep::CheckNpmPackage(url) if url.as_str() == "file:///root/main.ts")
    );
    assert_eq!(
        error_of(resolve("main.ts", ResolutionKind::Import)),
        (
            ErrorClass::Type,
            "Referrer uses invalid specifier: relative URL without a base".to_string()
        )
    );
    let step = current_dir_resolved(Ok(specifier("file:///root/")));
    assert!(matches!(step, ResolveStep::CheckNpmPackage(_)));
    assert_eq!(error_of(current_dir_resolved(Err(given_error("bad")))).1, "bad");
}

fn package_json(path: &str, name: Option<&str>, deps: &[(&str, &str)]) -> (String, Value) {
    let text = |text: &str| Value::String(text.to_string());
    let deps = deps.iter().map(|dep| (dep.0.to_string(), text(dep.1))).collect();
    let mut file = serde_json::Map::new();
    if let Some(name) = name {
        file.insert("name".to_string(), text(name));
    }
    file.insert("version".to_string(), text("1.2.3"));
    file.insert("dependencies".to_string(), Value::Object(deps));
    (path.to_string(), Value::Object(file))
}

fn serialized(
    json: Option<&str>,
    package_jsons: Vec<(String, Value)>,
) -> SerializedWorkspaceResolver {
    SerializedWorkspaceResolver {
        import_map: json.map(|json| SerializedImportMap {
            specifier: "import_map.json".to_string(),
            json: json.to_string(),
        }),
        package_jsons,
        pkg_json_resolution: PackageJsonDepResolution::Enabled,
    }
}

fn resolver() -> StandaloneResolver {
    let map = r#"{
        "imports": {
            "chalk": "npm:chalk@5",
            "local": "./local.ts",
            "pkg": "jsr:@scope/pkg",
            "gone": "jsr:@scope/gone"
        }
    }"#;
    let files = vec![
        package_json(
            "package.json",
            None,
            &[
                ("express", "^4.0.0"),
                ("member", "workspace:^1.0.0"),
                ("wrong", "workspace:^2.0.0"),
                ("broken", "file:../x"),
            ],
        ),
        package_json("member/package.json", Some("member"), &[]),
        package_json("wrong/package.json", Some("wrong"), &[]),
    ];
    let root = specifier("file:///root/");
    create_standalone_resolver(&root, serialized(Some(map), files)).unwrap().unwrap()
}

fn mapped(text: &str, referrer: &str) -> Option<ResolveStep> {
    let referrer = specifier(referrer);
    let check = NpmPackageCheck::Outside;
    npm_package_checked(&workspace_eszip(), &resolver(), text, referrer, check)
}

#[test]
fn mapped_urls() {
    let main = "file:///root/main.ts";
    let step = mapped("./other.ts", main).unwrap();
    assert!(
        matches!(step, ResolveStep::HandleIfInNodeModules(url) if url.as_str() == "file:///root/other.ts")
    );
    let step = mapped("local", main).unwrap();
    assert!(
        matches!(step, ResolveStep::HandleIfInNodeModules(url) if url.as_str() == "file:///root/local.ts")
    );
    let step = mapped("chalk", main).unwrap();
    assert!(
        matches!(step, ResolveStep::ResolveReqReference(url, referrer) if url.as_str() == "npm:chalk@5" && referrer.as_str() == main)
    );
    let step = mapped("chalk/source", main).unwrap();
    assert!(
        matches!(step, ResolveStep::ResolveReqReference(url, _) if url.as_str() == "npm:/chalk@5/source")
    );
    let step = mapped("pkg", main).unwrap();
    assert!(
        matches!(step, ResolveStep::Done(Ok(url)) if url.as_str() == "https://jsr.io/@scope/pkg/1.0.0/data.json")
    );
    let step = mapped("gone", main).unwrap();
    assert!(
        matches!(step, ResolveStep::HandleIfInNodeModules(url) if url.as_str() == "jsr:@scope/gone")
    );
    assert!(mapped("npm:chalk@18446744073709551615", main).is_none());
}

#[test]
fn mapped_packages() {
    let main = "file:///root/main.ts";
    let step = mapped("express/lib", main).unwrap();
    assert!(
        matches!(step, ResolveStep::ResolveReq(req, Some(path), _) if req.to_string() == "express@^4.0.0" && path == "lib")
    );
    let step = mapped("member/mod", main).unwrap();
    assert!(
        matches!(step, ResolveStep::ResolveSubPath(folder, Some(path), _) if folder == "/root/member" && path == "mod")
    );
    let (class, message) = error_of(mapped("wrong", main).unwrap());
    assert_eq!(class, ErrorClass::Given);
    assert!(message.contains("1.2.3"));
    let (class, message) = error_of(mapped("broken", main).unwrap());
    assert_eq!(class, ErrorClass::Given);
    assert!(message.contains("file"));
}

#[test]
fn bare_names_that_are_not_mapped() {
    let main = "file:///root/main.ts";
    let Some(ResolveStep::ResolveAsNode(referrer, error)) = mapped("missing", main) else {
        panic!("mapped")
    };
    assert_eq!(referrer.as_str(), main);
    assert!(error.message.contains("missing"));
    let message = error.message.clone();
    let step = resolved_as_node(Ok(None), error);
    assert_eq!(error_of(step), (ErrorClass::Given, message));
    let step = resolved_as_node(Ok(Some(specifier("node:fs"))), given_error("a"));
    assert!(matches!(step, ResolveStep::Done(Ok(url)) if url.as_str() == "node:fs"));
    let step = resolved_as_node(Err(given_error("b")), given_error("a"));
    assert_eq!(error_of(step).1, "a");
    let step = mapped("missing", "https://example.com/main.ts").unwrap();
    assert_eq!(error_of(step).0, ErrorClass::Given);
}

#[test]
fn referrers_in_npm_packages() {
    let checked = |check: NpmPackageCheck| {
        let referrer = specifier("file:///root/main.ts");
        npm_package_checked(&workspace_eszip(), &resolver(), "a", referrer, check).unwrap()
    };
    let step = checked(NpmPackageCheck::Found(specifier("file:///a.js")));
    assert!(matches!(step, ResolveStep::Done(Ok(url)) if url.as_str() == "file:///a.js"));
    let step = checked(NpmPackageCheck::NotFound);
    assert_eq!(error_of(step), (ErrorClass::Generic, "not found".to_string()));
    let step = checked(NpmPackageCheck::Failed(given_error("bad")));
    assert_eq!(error_of(step), (ErrorClass::Given, "bad".to_string()));
}

#[test]
fn mappings_given_by_value() {
    let step = |mapped: Result<MappedResolution, MappingError>| {
        let referrer = specifier("file:///root/main.ts");
        specifier_mapped(&workspace_eszip(), &resolver(), referrer, mapped)
    };
    let mapped = MappedResolution::WorkspaceNpmPackage("/root/a".to_string(), None);
    assert!(
        matches!(step(Ok(mapped)), ResolveStep::ResolveSubPath(folder, None, _) if folder == "/root/a")
    );
    let mapped = MappedResolution::Url(url::Url::parse("jsr:@scope/pkg").unwrap());
    assert!(
        matches!(step(Ok(mapped)), ResolveStep::Done(Ok(url)) if url.as_str() == "https://jsr.io/@scope/pkg/1.0.0/data.json")
    );
    let mapped = MappedResolution::Url(url::Url::parse("file:///a").unwrap());
    assert!(
        matches!(step(Ok(mapped)), ResolveStep::HandleIfInNodeModules(url) if url.as_str() == "file:///a")
    );
    let error = MappingError { is_unmapped_bare_specifier: false, message: "bad".to_string() };
    assert_eq!(error_of(step(Err(error))), (ErrorClass::Given, "bad".to_string()));
    let mapped =
        MappedResolution::PackageJson(Err("unreadable".to_string()), "a".to_string(), None);
    assert_eq!(error_of(step(Ok(mapped))), (ErrorClass::Given, "unreadable".to_string()));
}

#[test]
fn loading_data_urls() {
    let eszip = workspace_eszip();
    let url = specifier("data:application/javascript;base64,YWxlcnQoKQ==");
    let LoadStep::Done(Ok(source)) = load(&eszip, &url, true) else { panic!("not loaded") };
    assert_eq!(source.module_type, ModuleType::JavaScript);
    assert_eq!(source.code, "alert()");
    assert_eq!(source.specifier.as_str(), url.as_str());
    assert_eq!(source.found.as_str(), url.as_str());
    let LoadStep::Done(Err(error)) = load(&eszip, &specifier("data:;base64,?"), false) else {
        panic!("loaded")
    };
    assert_eq!(error.class, ErrorClass::Type);
}

#[test]
fn loading_modules() {
    let eszip = workspace_eszip();
    let url = specifier("file:///root/sub/data.json");
    assert!(matches!(load(&eszip, &url, true), LoadStep::LoadFromNpm));
    let LoadStep::ReadSource(module) = load(&eszip, &url, false) else { panic!("not found") };
    assert_eq!(module.kind, ModuleKind::Json);
    assert_eq!(module.inner.specifier, "sub/data.json");
    let LoadStep::Done(Err(error)) = load(&eszip, &specifier("file:///root/a.ts"), false) else {
        panic!("found")
    };
    assert_eq!(error.message, "Module not found: file:///root/a.ts");
    assert_eq!(npm_module_type(true), ModuleType::Json);
    assert_eq!(npm_module_type(false), ModuleType::JavaScript);
}

#[test]
fn reading_sources() {
    let read = |kind: ModuleKind, source: Option<&[u8]>| {
        let asked = specifier("jsr:@scope/pkg");
        let found = specifier("https://jsr.io/@scope/pkg/mod.ts");
        source_read(kind, asked, found, source.map(|bytes| bytes.to_vec()))
    };
    let source = read(ModuleKind::JavaScript, Some("h\u{e9}".as_bytes())).unwrap();
    assert_eq!(source.code, "h\u{e9}");
    assert_eq!(source.module_type, ModuleType::JavaScript);
    assert_eq!(source.specifier.as_str(), "jsr:@scope/pkg");
    assert_eq!(source.found.as_str(), "https://jsr.io/@scope/pkg/mod.ts");
    assert_eq!(read(ModuleKind::Json, Some(b"1")).unwrap().module_type, ModuleType::Json);
    let error = read(ModuleKind::JavaScript, None).unwrap_err();
    assert_eq!(error.message, "Module not found: jsr:@scope/pkg");
    let error = read(ModuleKind::JavaScript, Some(&[0xff])).unwrap_err();
    assert_eq!(error.message, "Module source is not utf-8");
    let error = read(ModuleKind::Jsonc, Some(b"{}")).unwrap_err();
    assert_eq!(error.message, "jsonc modules not supported");
    assert_eq!(error.class, ErrorClass::Type);
    assert_eq!(arc_u8_to_arc_str(b"ok".to_vec()).as_deref(), Some("ok"));
    assert_eq!(arc_u8_to_arc_str(vec![0xc3]), None);
}

#[test]
fn resolvers_of_programs() {
    let root = specifier("file:///root/");
    let error = create_standalone_resolver(&root, serialized(Some("["), Vec::new()));
    assert!(error.unwrap().unwrap_err().contains("import map"));
    let large = package_json("package.json", None, &[("a", "^18446744073709551615.0.0")]);
    assert!(create_standalone_resolver(&root, serialized(None, vec![large])).is_none());
    let large = r#"{ "imports": { "a": "jsr:@a/b@18446744073709551615" } }"#;
    assert!(create_standalone_resolver(&root, serialized(Some(large), Vec::new())).is_some());
    let elsewhere = package_json("https://example.com/package.json", None, &[]);
    assert!(create_standalone_resolver(&root, serialized(None, vec![elsewhere])).is_none());
    let mut disabled = serialized(None, vec![package_json("package.json", None, &[("a", "1")])]);
    disabled.pkg_json_resolution = PackageJsonDepResolution::Disabled;
    let resolver = create_standalone_resolver(&root, disabled).unwrap().unwrap();
    let referrer = specifier("file:///root/main.ts");
    let check = NpmPackageCheck::Outside;
    let step = npm_package_checked(&workspace_eszip(), &resolver, "a", referrer, check);
    assert!(matches!(step, Some(ResolveStep::ResolveAsNode(_, _))));
    let files = resolver.inner().package_jsons();
    let paths = files.map(|file| file.path.clone()).collect::<Vec<_>>();
    assert_eq!(paths, vec![PathBuf::from("/root/package.json")]);
}

#[test]
fn package_json_values() {
    let root = specifier("file:///root/");
    let create = |json: &str| {
        let file = ("package.json".to_string(), serde_json::from_str(json).unwrap());
        create_standalone_resolver(&root, serialized(None, vec![file]))
    };
    assert!(create("5").is_some());
    assert!(create(r#"{ "exports": { ".": "./a.js", "./b": "./b.js" } }"#).is_some());
    assert!(create(r#"{ "exports": { "": "./a.js", "import": "./b.js" } }"#).is_some());
    assert!(create(r#"{ "exports": ["./a.js"] }"#).is_some());
    assert!(create(r#"{ "exports": { ".": "./a.js", "import": "./b.js" } }"#).is_none());
    let json = r#"{ "version": 1, "dependencies": { "a": 2, "b": null, "c": "npm:d@^3.0.0" } }"#;
    let resolver = create(json).unwrap().unwrap();
    let req = |name: &str| {
        let referrer = specifier("file:///root/main.ts");
        let check = NpmPackageCheck::Outside;
        match npm_package_checked(&workspace_eszip(), &resolver, name, referrer, check) {
            Some(ResolveStep::ResolveReq(req, _, _)) => Some(req.to_string()),
            _ => None,
        }
    };
    assert_eq!(req("a").as_deref(), Some("a@2"));
    assert_eq!(req("b"), None);
    assert_eq!(req("c").as_deref(), Some("d@^3.0.0"));
}

fn mapped_by(map: &str, text: &str, referrer: &str) -> Option<ResolveStep> {
    let root = specifier("file:///root/");
    let resolver = create_standalone_resolver(&root, serialized(Some(map), Vec::new()));
    let resolver = resolver.unwrap().unwrap();
    let referrer = specifier(referrer);
    let outside = NpmPackageCheck::Outside;
    let step = npm_package_checked(&workspace_eszip(), &resolver, text, referrer.clone(), outside);
    assert!(step.is_none() || resolver.can_map(text, &referrer));
    step
}

fn url_of(step: Option<ResolveStep>) -> String {
    match step {
        Some(ResolveStep::HandleIfInNodeModules(url)) => url.as_str().to_string(),
        step => panic!("{:?}", step),
    }
}

#[test]
fn version_numbers_in_imports() {
    let main = "file:///root/main.ts";
    // a number outside of a version does not matter
    assert_eq!(
        url_of(mapped("./18446744073709551615.ts", main)),
        "file:///root/18446744073709551615.ts"
    );
    assert_eq!(
        url_of(mapped("./a.ts", "file:///root/18446744073709551615/main.ts")),
        "file:///root/18446744073709551615/a.ts"
    );
    assert_eq!(
        url_of(mapped("https://a.com/b@18446744073709551615", main)),
        "https://a.com/b@18446744073709551615"
    );
    assert_eq!(
        url_of(mapped("jsr:@a/b@1/18446744073709551615.ts", main)),
        "jsr:@a/b@1/18446744073709551615.ts"
    );
    assert!(mapped("jsr:@a/b@18446744073709551615", main).is_none());
    assert!(mapped("JSR:@a/b@184467440\t73709551615", main).is_none());
    // a version that is not widened, a tag, and a number that is none
    assert_eq!(
        url_of(mapped("jsr:@a/b@18446744073709551615.0.0", main)),
        "jsr:@a/b@18446744073709551615.0.0"
    );
    assert_eq!(url_of(mapped("jsr:@a/b@latest", main)), "jsr:@a/b@latest");
    assert_eq!(
        url_of(mapped("jsr:@a/b@184467440737095516150", main)),
        "jsr:@a/b@184467440737095516150"
    );
    assert!(mapped("./c", "jsr:/@a/b@18446744073709551615/c").is_none());
    assert!(mapped("npm:chalk@18446744073709551615", main).is_none());
}

#[test]
fn version_numbers_in_import_maps() {
    let main = "file:///root/main.ts";
    let map = r#"{ "imports": {
        "x/": "jsr:/@a/",
        "large": "jsr:@a/b@1844674407370955161\u0035",
        "small": "jsr:@a/b@1",
        "y@18446744073709551615/": "jsr:/@a/",
        "tab\tbed": "./tabbed.ts"
    } }"#;
    assert_eq!(url_of(mapped_by(map, "small", main)), "jsr:@a/b@1");
    assert_eq!(url_of(mapped_by(map, "tab\tbed", main)), "file:///root/tabbed.ts");
    assert!(mapped_by(map, "large", main).is_none());
    assert_eq!(url_of(mapped_by(map, "x/b@1", main)), "jsr:/@a/b@1");
    assert_eq!(url_of(mapped_by(map, "x/b@1/c%20d", main)), "jsr:/@a/b@1/c%20d");
    assert!(mapped_by(map, "x/b@18446744073709551615", main).is_none());
    assert!(mapped_by(map, "x/b@1/c@18446744073709551615", main).is_some());
    assert!(mapped_by(map, "x/./b@1/c@18446744073709551615", main).is_none());
    assert!(mapped_by(map, "x/b%3F@18446744073709551615", main).is_none());
    assert_eq!(url_of(mapped_by(map, "y@18446744073709551615/b@1", main)), "jsr:/@a/b@1");
    assert!(mapped_by(map, "x/b@1844674407370955161%35", main).is_none());
    assert!(mapped_by(map, "x/b%40184467440737095516%315", main).is_none());
    assert!(mapped_by(map, "x/b%401844674407370955161%355", main).is_some());
    assert!(mapped_by(map, "x/b@%7E1.18446744073709551615", main).is_none());
    assert!(mapped_by(map, "x/b@%5E1.18446744073709551615", main).is_some());
    assert!(mapped_by(map, "x/b@184467440%0973709551615", main).is_none());
    assert_eq!(
        url_of(mapped_by(map, "./b@1844674407370955161%35", main)),
        "file:///root/b@1844674407370955161%35"
    );
}

#[test]
fn slashes_in_import_maps() {
    let main = "file:///root/main.ts";
    let map = r#"{ "imports": {
        "https://a.com": "https://b.com/x",
        "https://a.com/deep/": "https://c.com/",
        "blocked/": null
    } }"#;
    assert!(mapped_by(map, "https://a.com/foo", main).is_none());
    assert_eq!(url_of(mapped_by(map, "https://a.com/", main)), "https://b.com/x");
    assert_eq!(url_of(mapped_by(map, "https://a.com/deep/foo", main)), "https://c.com/foo");
    assert_eq!(url_of(mapped_by(map, "https://d.com/foo", main)), "https://d.com/foo");
    let step = mapped_by(map, "blocked/a", main).unwrap();
    assert_eq!(error_of(step).0, ErrorClass::Given);
    let scoped = r#"{ "scopes": { "./sub/": { "https://a.com": "https://b.com/x" } } }"#;
    assert_eq!(url_of(mapped_by(scoped, "https://a.com/foo", main)), "https://a.com/foo");
    assert!(mapped_by(scoped, "https://a.com/foo", "file:///root/sub/a.ts").is_none());
}

#[test]
fn layout_of_programs() {
    let layout = program_layout("/tmp", "my app", "src/main.ts").unwrap();
    assert_eq!(layout.root_path, "/tmp/deno-compile-my app");
    assert_eq!(layout.root_dir_url.as_str(), "file:///tmp/deno-compile-my%20app/");
    assert_eq!(layout.main_module.as_str(), "file:///tmp/deno-compile-my%20app/src/main.ts");
    assert_eq!(layout.root_node_modules_path, "/tmp/deno-compile-my app/node_modules");
    let layout = program_layout("/tmp", "app", "npm:cowsay@1").unwrap();
    assert_eq!(layout.main_module.as_str(), "npm:cowsay@1");
    assert!(program_layout("tmp", "app", "main.ts").is_none());
    assert!(program_layout("/tmp", "app", "http://[").is_none());
}

#[test]
fn packages_of_programs() {
    let plan = |node_modules: Option<NodeModules>| plan_npm(&node_modules, "/root", "/cache");
    let managed = plan(Some(NodeModules::Managed(Some("node_modules".to_string()))));
    assert!(
        matches!(&managed, NpmPlan::Managed(root, Some(dir)) if root == "/root" && dir == "/root/node_modules")
    );
    assert_eq!(managed.vfs_root().as_deref(), Some("/root"));
    let error = managed.load_error("gone").unwrap();
    assert_eq!(error.message, "Failed to load npm vfs.");
    assert_eq!(error.cause.as_deref(), Some("gone"));
    let npmrc = standalone_npmrc(&managed, Some("http://localhost:4260")).unwrap();
    assert_eq!(npmrc.default_config.registry_url.as_str(), "https://localhost/");
    let cached = plan(Some(NodeModules::Managed(None)));
    assert!(matches!(&cached, NpmPlan::Managed(root, None) if root == "/cache"));
    let byonm = plan(Some(NodeModules::Byonm("sub/node_modules".to_string())));
    assert!(
        matches!(&byonm, NpmPlan::Byonm(root, dir) if root == "/root" && dir == "/root/sub/node_modules")
    );
    assert_eq!(byonm.load_error("gone").unwrap().message, "Failed to load vfs.");
    assert!(standalone_npmrc(&byonm, None).is_none());
    let none = plan(None);
    assert!(matches!(none, NpmPlan::NoPackages));
    assert_eq!(none.vfs_root(), None);
    assert!(none.load_error("gone").is_none());
    let npmrc = standalone_npmrc(&none, Some("http://localhost:4260")).unwrap();
    assert_eq!(npmrc.default_config.registry_url.as_str(), "http://localhost:4260/");
}

#[test]
fn snapshots_of_programs() {
    let managed = NpmPlan::Managed("/root".to_string(), None);
    let byonm = NpmPlan::Byonm("/root".to_string(), "/root/node_modules".to_string());
    let mut eszip = archive();
    assert!(standalone_snapshot(&managed, &mut eszip).is_none());
    let package = SerializedNpmResolutionSnapshotPackage {
        id: NpmPackageId::from_serialized("a@1.0.0").unwrap(),
        system: Default::default(),
        dist: Default::default(),
        dependencies: Default::default(),
        optional_dependencies: Default::default(),
        bin: None,
        scripts: Default::default(),
        deprecated: None,
    };
    let snapshot = SerializedNpmResolutionSnapshot {
        root_packages: Default::default(),
        packages: vec![package],
    };
    eszip.add_npm_snapshot(snapshot.into_valid().unwrap());
    assert!(standalone_snapshot(&byonm, &mut eszip).is_none());
    let option = standalone_snapshot(&NpmPlan::NoPackages, &mut eszip);
    assert!(matches!(option, Some(CliNpmResolverManagedSnapshotOption::Specified(None))));
    let option = standalone_snapshot(&managed, &mut eszip);
    assert!(matches!(option, Some(CliNpmResolverManagedSnapshotOption::Specified(Some(_)))));
    assert!(standalone_snapshot(&managed, &mut eszip).is_none());
    assert!(eszip.get_module("sub/data.json").is_some());
}

#[test]
fn read_access_of_programs() {
    let root = || Some("/vfs".to_string());
    assert_eq!(grant_read(None, root()), Some(texts(&["/vfs"])));
    assert_eq!(grant_read(Some(Vec::new()), root()), Some(Vec::new()));
    assert_eq!(grant_read(Some(texts(&["/a"])), root()), Some(texts(&["/a", "/vfs"])));
    assert_eq!(grant_read(None, None), None);
    assert_eq!(grant_read(Some(texts(&["/a"])), None), Some(texts(&["/a"])));
}

#[test]
fn certificates_of_programs() {
    let steps = standalone_cert_steps(Some(Vec::new()), Some(vec![7]), None, Some("env.pem"));
    assert_eq!(format!("{:?}", steps), "[AddPemData([7])]");
    let steps = standalone_cert_steps(None, None, None, None);
    assert_eq!(format!("{:?}", steps), "[AddMozilla]");
}

fn metadata() -> Metadata {
    Metadata {
        argv: texts(&["--flag"]),
        seed: Some(3),
        location: Some(specifier("https://example.com/")),
        ca_stores: None,
        ca_data: None,
        unsafely_ignore_certificate_errors: Some(texts(&["a.com"])),
        entrypoint_key: "main.ts".to_string(),
        node_modules: None,
        unstable_config: UnstableConfig {
            legacy_flag_enabled: true,
            bare_node_builtins: false,
            byonm: false,
            sloppy_imports: false,
            features: texts(&["kv"]),
        },
        v8_flags: texts(&["--expose-gc"]),
    }
}

#[test]
fn workers_of_programs() {
    let first = || Some("./app".to_string());
    let main = specifier("file:///root/main.ts");
    let options = worker_options(metadata(), &main, true, first(), Some("fs".to_string()));
    assert_eq!(options.argv, texts(&["--flag"]));
    assert!(options.has_node_modules_dir);
    assert!(!options.is_npm_main);
    assert_eq!(options.argv0.as_deref(), Some("./app"));
    assert_eq!(options.node_debug.as_deref(), Some("fs"));
    assert_eq!(options.seed, Some(3));
    assert_eq!(options.location.unwrap().as_str(), "https://example.com/");
    assert_eq!(options.unsafely_ignore_certificate_errors, Some(texts(&["a.com"])));
    assert!(options.unstable);
    assert_eq!(options.features, texts(&["kv"]));
    assert_eq!(options.v8_flags, texts(&["--expose-gc"]));
    let main = specifier("npm:cowsay@1/bin");
    let options = worker_options(metadata(), &main, false, first(), None);
    assert!(options.is_npm_main);
    assert_eq!(options.argv0.as_deref(), Some("bin"));
    let main = specifier("file:///root/18446744073709551615.ts");
    let options = worker_options(metadata(), &main, false, first(), None);
    assert_eq!(options.argv0.as_deref(), Some("./app"));
}
