//! Configuration files and the workspace that they make up.

use vstd::prelude::*;

use crate::config_file::{
    checks_js, config_file_checks_js, config_file_error, config_file_exports, config_file_json,
    config_file_lock, config_file_lockfile, config_file_types, has_place_for_lockfile, if_parsed,
    json_of, lockfile_path_of, ConfigFileJson, ConfigText, NO_DIRECTORY,
};
use crate::package_json::PackageJsonFile;
use crate::path::{join, parent, path_join, path_parent};
use crate::specifier::ModuleSpecifier;
use crate::text::contains_text;

verus! {

/// A configuration file.
#[derive(Debug)]
pub struct DenoJson {
    pub specifier: ModuleSpecifier,
    /// The text of the file.
    pub text: ConfigText,
    pub json: ConfigFileJson,
    /// The package requirements that the file's imports hold.
    pub dependencies: Vec<String>,
}

impl DenoJson {
    /// The configuration file with the given text, given the package requirements
    /// that its imports hold, or the message on a text that is none.
    pub fn parse(text: ConfigText, specifier: ModuleSpecifier, dependencies: Vec<String>) -> (r:
        Result<DenoJson, String>)
        ensures
            match r {
                Ok(file) => {
                    &&& config_file_error(text@, specifier@) is None
                    &&& file.text == text
                    &&& file.specifier == specifier
                    &&& file.json.deep_view() == config_file_json(text@, specifier@)
                    &&& file.dependencies == dependencies
                },
                Err(message) => config_file_error(text@, specifier@) == Some(message@),
            },
    {
        match json_of(&text, &specifier) {
            Ok(json) => Ok(DenoJson { specifier, text, json, dependencies }),
            Err(message) => Err(message),
        }
    }

    /// The lockfile that the file asks for, none where it turns lockfiles off, or
    /// what is wrong with the entry.
    pub open spec fn asked_lockfile(&self) -> Result<Option<Seq<char>>, Seq<char>> {
        if_parsed(
            self.text@,
            self.specifier@,
            (if has_place_for_lockfile(
                config_file_lock(self.text@, self.specifier@),
                self.specifier@,
            ) {
                config_file_lockfile(self.text@, self.specifier@)
            } else {
                Err(NO_DIRECTORY@)
            }),
        )
    }

    /// Whether the file asks for JavaScript to be checked.
    pub open spec fn asks_for_js_checks(&self) -> bool {
        config_file_error(self.text@, self.specifier@) is None && config_file_checks_js(
            self.text@,
            self.specifier@,
        )
    }

    /// The export names with the modules they stand for, or what is wrong with
    /// them.
    pub open spec fn exported(&self) -> Result<Seq<(Seq<char>, Seq<char>)>, Seq<char>> {
        if_parsed(
            self.text@,
            self.specifier@,
            config_file_exports(self.text@, self.specifier@),
        )
    }

    /// The type definitions that the file brings in, by the file they are seen
    /// from, or what is wrong with the entry.
    pub open spec fn brought_types(&self) -> Result<Seq<(Seq<char>, Seq<Seq<char>>)>, Seq<char>> {
        if_parsed(self.text@, self.specifier@, config_file_types(self.text@, self.specifier@))
    }

    /// Whether the file serves as an import map.
    pub open spec fn serves_as_import_map(&self) -> bool {
        self.json.imports is Some || self.json.scopes is Some
    }

    /// Whether the file serves as an import map.
    pub fn is_an_import_map(&self) -> (r: bool)
        ensures
            r == self.serves_as_import_map(),
    {
        self.json.imports.is_some() || self.json.scopes.is_some()
    }

    /// Whether the file describes a package: it has a name and exports.
    pub open spec fn describes_package(&self) -> bool {
        self.json.name is Some && self.json.exports is Some
    }

    /// Whether the file describes a package: it has a name and exports.
    pub fn is_package(&self) -> (r: bool)
        ensures
            r == self.describes_package(),
    {
        self.json.name.is_some() && self.json.exports.is_some()
    }
}

/// The configuration files of one folder.
#[derive(Debug)]
pub struct FolderConfigs {
    pub deno_json: Option<DenoJson>,
    pub pkg_json: Option<PackageJsonFile>,
}

/// A folder of a workspace.
#[derive(Debug)]
pub struct ConfigFolder {
    pub url: ModuleSpecifier,
    pub configs: FolderConfigs,
}

/// A workspace: folders in the order of their discovery, one of which is its
/// root.
#[derive(Debug)]
pub struct Workspace {
    folders: Vec<ConfigFolder>,
    root: usize,
    start_deno_json: Option<ModuleSpecifier>,
}

/// Where a lockfile stands: where the root's configuration file says, else
/// beside the root's `package.json`.
pub open spec fn workspace_lockfile(root: FolderConfigs) -> Result<
    Option<Seq<char>>,
    Seq<char>,
> {
    match root.deno_json {
        Some(deno_json) => deno_json.asked_lockfile(),
        None => match root.pkg_json {
            Some(pkg_json) => match path_parent(pkg_json.path@) {
                Some(dir) => Ok(Some(path_join(dir, "deno.lock"@))),
                None => Ok(None),
            },
            None => Ok(None),
        },
    }
}

impl Workspace {
    #[verifier::type_invariant]
    spec fn has_root(self) -> bool {
        self.root < self.folders.len()
    }

    /// The folders, in order.
    pub closed spec fn folders(&self) -> Seq<ConfigFolder> {
        self.folders@
    }

    /// Where the root stands among the folders.
    pub closed spec fn root_index(&self) -> int {
        self.root as int
    }

    /// The root folder.
    pub open spec fn root(&self) -> ConfigFolder {
        self.folders()[self.root_index()]
    }

    /// The configuration file that applies where the workspace was entered.
    pub closed spec fn start(&self) -> Option<Seq<char>> {
        self.start_deno_json.deep_view()
    }

    /// A workspace made of `folders`, the one at `root` being its root.
    pub fn new(
        folders: Vec<ConfigFolder>,
        root: usize,
        start_deno_json: Option<ModuleSpecifier>,
    ) -> (r: Workspace)
        requires
            root < folders.len(),
        ensures
            r.folders() == folders@,
            r.root_index() == root,
            r.start() == start_deno_json.deep_view(),
    {
        Workspace { folders, root, start_deno_json }
    }

    /// A workspace without configuration files.
    pub fn empty(root_dir: ModuleSpecifier) -> (r: Workspace)
        ensures
            r.folders().len() == 1,
            r.root_index() == 0,
            r.root().url == root_dir,
            r.root().configs.deno_json is None,
            r.root().configs.pkg_json is None,
            r.start() is None,
    {
        let mut folders: Vec<ConfigFolder> = Vec::new();
        let configs: FolderConfigs = FolderConfigs { deno_json: None, pkg_json: None };
        folders.push(ConfigFolder { url: root_dir, configs });
        Workspace { folders, root: 0, start_deno_json: None }
    }

    /// The folders, in order.
    pub fn config_folders(&self) -> (r: &Vec<ConfigFolder>)
        ensures
            r@ == self.folders(),
            0 <= self.root_index() < r@.len(),
    {
        proof {
            use_type_invariant(self);
        }
        &self.folders
    }

    /// The URL of the root folder.
    pub fn root_dir(&self) -> (r: &ModuleSpecifier)
        ensures
            *r == self.root().url,
    {
        proof {
            use_type_invariant(self);
        }
        &self.folders[self.root].url
    }

    /// The configuration files of the root folder.
    pub fn root_folder_configs(&self) -> (r: &FolderConfigs)
        ensures
            *r == self.root().configs,
    {
        proof {
            use_type_invariant(self);
        }
        &self.folders[self.root].configs
    }

    /// The configuration file that applies where the workspace was entered.
    pub fn start_deno_json(&self) -> (r: &Option<ModuleSpecifier>)
        ensures
            r.deep_view() == self.start(),
    {
        &self.start_deno_json
    }

    /// Whether the root's configuration file asks for an unstable feature.
    pub open spec fn asks_for_unstable(&self, name: Seq<char>) -> bool {
        match self.root().configs.deno_json {
            Some(deno_json) => deno_json.json.unstable.deep_view().contains(name),
            None => false,
        }
    }

    /// Whether the root's configuration file asks for an unstable feature.
    pub fn has_unstable(&self, name: &str) -> (r: bool)
        ensures
            r == self.asks_for_unstable(name@),
    {
        match &self.root_folder_configs().deno_json {
            Some(deno_json) => contains_text(&deno_json.json.unstable, name),
            None => false,
        }
    }

    /// The unstable features that the root's configuration file asks for.
    pub open spec fn configured_unstable(&self) -> Seq<Seq<char>> {
        match self.root().configs.deno_json {
            Some(deno_json) => deno_json.json.unstable.deep_view(),
            None => Seq::empty(),
        }
    }

    /// The unstable features that the root's configuration file asks for.
    pub fn unstable_features(&self) -> (r: Vec<String>)
        ensures
            r.deep_view() == self.configured_unstable(),
    {
        match &self.root_folder_configs().deno_json {
            Some(deno_json) => deno_json.json.unstable.clone(),
            None => {
                let r: Vec<String> = Vec::new();
                assert(r.deep_view() == Seq::<Seq<char>>::empty());
                r
            },
        }
    }

    /// What the root's configuration file says on a local `node_modules`
    /// directory.
    pub open spec fn configured_node_modules_dir(&self) -> Option<bool> {
        match self.root().configs.deno_json {
            Some(deno_json) => deno_json.json.node_modules_dir,
            None => None,
        }
    }

    /// What the root's configuration file says on a local `node_modules`
    /// directory.
    pub fn node_modules_dir(&self) -> (r: Option<bool>)
        ensures
            r == self.configured_node_modules_dir(),
    {
        match &self.root_folder_configs().deno_json {
            Some(deno_json) => deno_json.json.node_modules_dir,
            None => None,
        }
    }

    /// Whether JavaScript is type checked.
    pub fn check_js(&self) -> (r: bool)
        ensures
            r == (match self.root().configs.deno_json {
                Some(deno_json) => deno_json.asks_for_js_checks(),
                None => false,
            }),
    {
        match &self.root_folder_configs().deno_json {
            Some(deno_json) => checks_js(&deno_json.text, &deno_json.specifier),
            None => false,
        }
    }

    /// Where the workspace keeps its lockfile, if it has one.
    pub fn resolve_lockfile_path(&self) -> (r: Result<Option<String>, String>)
        ensures
            match r {
                Ok(path) => workspace_lockfile(self.root().configs) == Ok::<
                    Option<Seq<char>>,
                    Seq<char>,
                >(path.deep_view()),
                Err(message) => workspace_lockfile(self.root().configs) == Err::<
                    Option<Seq<char>>,
                    Seq<char>,
                >(message@),
            },
    {
        let root: &FolderConfigs = self.root_folder_configs();
        match &root.deno_json {
            Some(deno_json) => lockfile_path_of(&deno_json.text, &deno_json.specifier),
            None => match &root.pkg_json {
                Some(pkg_json) => match parent(pkg_json.path.as_str()) {
                    Some(dir) => Ok(Some(join(dir.as_str(), "deno.lock"))),
                    None => Ok(None),
                },
                None => Ok(None),
            },
        }
    }
}

/// The lockfile of a workspace: where the root's configuration file says, if there is
/// one; else `deno.lock` beside the root's `package.json`; else there is none.
pub proof fn law_workspace_lockfile(workspace: &Workspace, r: Result<Option<String>, String>)
    requires
        call_ensures(Workspace::resolve_lockfile_path, (workspace,), r),
    ensures
        ({
            let root = workspace.root().configs;
            &&& root.deno_json matches Some(deno_json) ==> match deno_json.asked_lockfile() {
                Ok(path) => r is Ok && r->Ok_0.deep_view() == path,
                Err(message) => r is Err && r->Err_0@ == message,
            }
            &&& root.deno_json is None && root.pkg_json is None ==> r is Ok && r->Ok_0 is None
            &&& root.deno_json is None ==> (root.pkg_json matches Some(pkg_json) ==> forall|
                dir: Seq<char>,
            |
                path_parent(pkg_json.path@) == Some(dir) ==> r is Ok && r->Ok_0.deep_view() == Some(
                    #[trigger] path_join(dir, "deno.lock"@),
                ))
        }),
{
}

/// What a configuration file asks for as a lockfile is what its text says, unless the
/// text cannot be parsed, or names a path and the file is in no directory.
pub proof fn law_asked_lockfile(deno_json: DenoJson)
    ensures
        ({
            let text = deno_json.text@;
            let url = deno_json.specifier@;
            let asked = deno_json.asked_lockfile();
            let has_place = has_place_for_lockfile(config_file_lock(text, url), url);
            &&& config_file_error(text, url) matches Some(message) ==> asked == Err::<
                Option<Seq<char>>,
                Seq<char>,
            >(message)
            &&& config_file_error(text, url) is None && has_place ==> asked
                == config_file_lockfile(text, url)
            &&& config_file_error(text, url) is None && !has_place ==> asked is Err
        }),
{
}

/// The root's configuration file alone decides on unstable features, on `node_modules`
/// and on checking JavaScript; without one, nothing is asked for.
pub proof fn law_root_configuration(
    workspace: &Workspace,
    name: &str,
    has_unstable: bool,
    features: Vec<String>,
    node_modules: Option<bool>,
    checks: bool,
)
    requires
        call_ensures(Workspace::has_unstable, (workspace, name), has_unstable),
        call_ensures(Workspace::unstable_features, (workspace,), features),
        call_ensures(Workspace::node_modules_dir, (workspace,), node_modules),
        call_ensures(Workspace::check_js, (workspace,), checks),
    ensures
        has_unstable <==> features.deep_view().contains(name@),
        workspace.root().configs.deno_json is None ==> features.len() == 0 && node_modules is None
            && !checks,
        workspace.root().configs.deno_json matches Some(deno_json) ==> {
            &&& features.deep_view() == deno_json.json.unstable.deep_view()
            &&& node_modules == deno_json.json.node_modules_dir
            &&& checks <==> config_file_error(deno_json.text@, deno_json.specifier@) is None
                && config_file_checks_js(deno_json.text@, deno_json.specifier@)
        },
{
}

/// A configuration file is an import map exactly where it has imports or scopes, and a
/// package exactly where it has a name and exports.
pub proof fn law_kinds_of_configuration(deno_json: &DenoJson, is_map: bool, is_package: bool)
    requires
        call_ensures(DenoJson::is_an_import_map, (deno_json,), is_map),
        call_ensures(DenoJson::is_package, (deno_json,), is_package),
    ensures
        is_map <==> deno_json.json.imports is Some || deno_json.json.scopes is Some,
        is_package <==> deno_json.json.name is Some && deno_json.json.exports is Some,
{
}

/// A workspace holds the folders that it is made of, and nothing else is taken for its
/// root or for where it was entered.
pub proof fn law_workspace_parts(
    folders: Vec<ConfigFolder>,
    root: usize,
    start: Option<ModuleSpecifier>,
    made: Workspace,
    listed: &Vec<ConfigFolder>,
    root_dir: &ModuleSpecifier,
    root_configs: &FolderConfigs,
    start_deno_json: &Option<ModuleSpecifier>,
)
    requires
        root < folders.len(),
        call_ensures(Workspace::new, (folders, root, start), made),
        call_ensures(Workspace::config_folders, (&made,), listed),
        call_ensures(Workspace::root_dir, (&made,), root_dir),
        call_ensures(Workspace::root_folder_configs, (&made,), root_configs),
        call_ensures(Workspace::start_deno_json, (&made,), start_deno_json),
    ensures
        listed@ == folders@,
        root_dir@ == folders@[root as int].url@,
        *root_configs == folders@[root as int].configs,
        start_deno_json.deep_view() == start.deep_view(),
{
}

/// A parsed configuration file keeps its text, its URL and its dependencies, and says
/// what its text says.
pub proof fn law_parsed_configuration(
    text: ConfigText,
    specifier: ModuleSpecifier,
    dependencies: Vec<String>,
    r: Result<DenoJson, String>,
)
    requires
        call_ensures(DenoJson::parse, (text, specifier, dependencies), r),
    ensures
        r is Err <==> config_file_error(text@, specifier@) is Some,
        r matches Ok(file) ==> {
            &&& file.text@ == text@
            &&& file.specifier@ == specifier@
            &&& file.dependencies@ == dependencies@
            &&& file.json.deep_view() == config_file_json(text@, specifier@)
        },
        r matches Err(message) ==> Some(message@) == config_file_error(text@, specifier@),
{
}

/// A workspace without configuration files has one folder, its root, and nothing in it.
pub proof fn law_workspace_without_files(dir: ModuleSpecifier, r: Workspace)
    requires
        call_ensures(Workspace::empty, (dir,), r),
    ensures
        r.folders().len() == 1,
        r.folders()[0].url@ == dir@,
        r.root() == r.folders()[0],
        r.root().configs.deno_json is None,
        r.root().configs.pkg_json is None,
        r.start() is None,
{
}

} // verus!
