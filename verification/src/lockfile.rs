//! The lockfile of a workspace: where it is found, how it takes in the
//! workspace's dependencies, and when it is written.

use deno_lockfile::Lockfile;
use vstd::prelude::*;
use vstd::utf8::*;

use crate::config::{workspace_lockfile, ConfigFolder, DenoJson, FolderConfigs, Workspace};
use crate::error::CliError;
use crate::flags::{ConfigFlag, DenoSubcommand, Flags, InstallKind};
use crate::lists::{add_missing, distinct, distinct_texts, law_with_all_missing, with_missing};
use crate::package_json::{
    can_widen_deps, has_widenable_deps, lemma_merged_is_widenable, load_package_json, merged,
    package_json_values,
    resolve_package_json_deps, DependencyValue, DependencyView, PackageJsonFile,
};
use crate::lockfile_text::{can_be_cut, can_be_read, check_cut, is_readable};
use crate::path::{path_join, path_parent};
use crate::specifier::{url_relative, ModuleSpecifier};
use crate::text::{
    chars_of, concat2, concat3, is_white_space, same_text, trim_end_text, trimmed, trimmed_end,
};

verus! {

/// A lockfile in memory.
#[verifier::external_type_specification]
#[verifier::external_body]
pub struct ExLockfile(deno_lockfile::Lockfile);

/// The dependencies of one folder of a workspace.
pub ghost struct MemberDeps {
    /// Requirements of the configuration file.
    pub dependencies: Set<Seq<char>>,
    /// Requirements of the `package.json`.
    pub package_json_deps: Set<Seq<char>>,
}

/// No dependencies.
pub open spec fn no_deps() -> MemberDeps {
    MemberDeps { dependencies: Set::empty(), package_json_deps: Set::empty() }
}

/// The packages that a lockfile pins.
pub ghost struct PackagesView {
    /// What requirements lead to.
    pub specifiers: Map<Seq<char>, Seq<char>>,
    /// JSR packages: their checksums, and the requirements that they have.
    pub jsr: Map<Seq<char>, (Seq<char>, Set<Seq<char>>)>,
    /// npm packages: their checksums, and the identifiers of the packages that
    /// they depend on, by name.
    pub npm: Map<Seq<char>, (Seq<char>, Map<Seq<char>, Seq<char>>)>,
}

/// The content of a lockfile.
pub ghost struct LockfileContentView {
    pub packages: PackagesView,
    pub redirects: Map<Seq<char>, Seq<char>>,
    /// The checksums of remote modules.
    pub remote: Map<Seq<char>, Seq<char>>,
    /// The dependencies of the workspace: those of its root under no name,
    /// those of its other folders under their relative paths.
    pub workspace: Map<Option<Seq<char>>, MemberDeps>,
}

/// What a lockfile holds.
pub ghost struct LockfileView {
    /// The path of the file.
    pub path: Seq<char>,
    /// Whether the file is written anew whatever it holds.
    pub overwrite: bool,
    /// Whether the content changed since it was read or written.
    pub changed: bool,
    pub content: LockfileContentView,
}

/// No content.
pub open spec fn empty_content() -> LockfileContentView {
    LockfileContentView {
        packages: PackagesView { specifiers: Map::empty(), jsr: Map::empty(), npm: Map::empty() },
        redirects: Map::empty(),
        remote: Map::empty(),
        workspace: Map::empty().insert(None, no_deps()),
    }
}

/// What a lockfile holds.
pub uninterp spec fn lockfile_contents(lockfile: Lockfile) -> LockfileView;

/// What the lockfile holds that stands at a path with some text, or the message
/// on a text that is no lockfile.
pub uninterp spec fn lockfile_parsed(path: Seq<char>, text: Seq<char>) -> Result<
    LockfileView,
    Seq<char>,
>;

/// The content of a lockfile, written out.
pub uninterp spec fn lockfile_text(content: LockfileContentView) -> Seq<char>;

/// The packages that are left when requirements of the workspace go, given those
/// that it had. Packages that nothing refers to any more go as well.
pub uninterp spec fn pruned_packages(
    packages: PackagesView,
    requirements: Set<Seq<char>>,
    removed: Set<Seq<char>>,
) -> PackagesView;

/// The content of an empty lockfile, written out.
pub const EMPTY_LOCKFILE_TEXT: &'static str = "{\n  \"version\": \"4\"\n}\n";

/// An empty lockfile.
pub open spec fn empty_lockfile(path: Seq<char>, overwrite: bool) -> LockfileView {
    LockfileView { path, overwrite, changed: false, content: empty_content() }
}

/// Whether the file has to be written.
pub open spec fn has_to_be_written(lockfile: LockfileView) -> bool {
    lockfile.changed || lockfile.overwrite
}

/// A lockfile once it is written.
pub open spec fn once_written(lockfile: LockfileView) -> LockfileView {
    LockfileView { changed: false, ..lockfile }
}

/// Whether a text is the identifier of an npm package in a lockfile.
pub open spec fn is_npm_id(packages: PackagesView, text: Seq<char>) -> bool {
    packages.npm.contains_key(text) || exists|id: Seq<char>| #[trigger]
        packages.npm.contains_key(id) && packages.npm[id].1.contains_value(text)
}

/// Whether a text is a requirement in a lockfile.
pub open spec fn is_requirement(packages: PackagesView, text: Seq<char>) -> bool {
    packages.specifiers.contains_key(text) || exists|id: Seq<char>| #[trigger]
        packages.jsr.contains_key(id) && packages.jsr[id].1.contains(text)
}

/// Whether the packages of a lockfile can be written out without cutting a
/// character in two: identifiers are cut behind their first byte, requirements
/// behind their fifth.
pub open spec fn is_writable(packages: PackagesView) -> bool {
    &&& forall|text: Seq<char>| #[trigger] is_npm_id(packages, text) ==> can_be_cut(text, 1)
    &&& forall|text: Seq<char>| #[trigger] is_requirement(packages, text) ==> can_be_cut(text, 5)
}

/// The field `content` of `deno_lockfile::Lockfile`: the identifiers of npm
/// packages and the requirements in it, in no particular order.
#[verifier::external_body]
fn cut_texts(lockfile: &Lockfile) -> (r: (Vec<String>, Vec<String>))
    ensures
        forall|text: Seq<char>|
            #![trigger is_npm_id(lockfile_contents(*lockfile).content.packages, text)]
            r.0.deep_view().contains(text) <==> is_npm_id(
                lockfile_contents(*lockfile).content.packages,
                text,
            ),
        forall|text: Seq<char>|
            #![trigger is_requirement(lockfile_contents(*lockfile).content.packages, text)]
            r.1.deep_view().contains(text) <==> is_requirement(
                lockfile_contents(*lockfile).content.packages,
                text,
            ),
{
    let packages = &lockfile.content.packages;
    let npm_deps = packages.npm.values().flat_map(|package| package.dependencies.values());
    let jsr_deps = packages.jsr.values().flat_map(|package| package.dependencies.iter());
    (
        packages.npm.keys().chain(npm_deps).cloned().collect(),
        packages.specifiers.keys().chain(jsr_deps).cloned().collect(),
    )
}

fn check_cuts(texts: &Vec<String>, bytes: usize) -> (r: bool)
    ensures
        r == forall|text: Seq<char>| #[trigger]
            texts.deep_view().contains(text) ==> can_be_cut(text, bytes as int),
{
    let mut i: usize = 0;
    while i < texts.len()
        invariant
            i <= texts.len(),
            forall|k: int| 0 <= k < i ==> can_be_cut(#[trigger] texts.deep_view()[k], bytes as int),
        decreases texts.len() - i,
    {
        assert(texts.deep_view()[i as int] == texts@[i as int]@);
        if !check_cut(texts[i].as_str(), bytes) {
            assert(texts.deep_view().contains(texts@[i as int]@));
            return false;
        }
        i = i + 1;
    }
    true
}

/// `deno_lockfile::Lockfile::new_empty`: a lockfile of the current version
/// without content.
#[verifier::external_body]
fn new_lockfile(path: &str, overwrite: bool) -> (r: Lockfile)
    ensures
        lockfile_contents(r) == empty_lockfile(path@, overwrite),
{
    Lockfile::new_empty(std::path::PathBuf::from(path), overwrite)
}

/// `deno_lockfile::Lockfile::new` without `overwrite`: what the lockfile holds,
/// and the message of the error, depend on the path and the text alone; the
/// content counts as unchanged, and a text of white space alone is an error. The
/// crate cuts identifiers and requirements behind their first or fifth byte, which
/// is never in the middle of a character in a readable text.
#[verifier::external_body]
fn parse_lockfile(path: &str, text: &str) -> (r: Result<Lockfile, String>)
    requires
        is_readable(text@),
    ensures
        match r {
            Ok(lockfile) => {
                &&& lockfile_parsed(path@, text@) == Ok::<LockfileView, Seq<char>>(
                    lockfile_contents(lockfile),
                )
                &&& lockfile_contents(lockfile).path == path@
                &&& !lockfile_contents(lockfile).overwrite
                &&& !lockfile_contents(lockfile).changed
            },
            Err(message) => lockfile_parsed(path@, text@) == Err::<LockfileView, Seq<char>>(
                message@,
            ),
        },
        trimmed(text@).len() == 0 ==> r is Err && r->Err_0@
            == "Unable to read lockfile. Lockfile was empty at '"@ + path@ + "'."@,
{
    let options = deno_lockfile::NewLockfileOptions {
        file_path: std::path::PathBuf::from(path),
        content: text,
        overwrite: false,
    };
    Lockfile::new(options).map_err(|error| error.to_string())
}

/// The field `filename` of `deno_lockfile::Lockfile`, as text.
#[verifier::external_body]
fn lockfile_path(lockfile: &Lockfile) -> (r: String)
    ensures
        r@ == lockfile_contents(*lockfile).path,
{
    lockfile.filename.to_string_lossy().into_owned()
}

/// The field `overwrite` of `deno_lockfile::Lockfile`.
#[verifier::external_body]
fn lockfile_overwrites(lockfile: &Lockfile) -> (r: bool)
    ensures
        r == lockfile_contents(*lockfile).overwrite,
{
    lockfile.overwrite
}

/// The field `has_content_changed` of `deno_lockfile::Lockfile`.
#[verifier::external_body]
fn lockfile_changed(lockfile: &Lockfile) -> (r: bool)
    ensures
        r == lockfile_contents(*lockfile).changed,
{
    lockfile.has_content_changed
}

/// `deno_lockfile::Lockfile::as_json_string`: the content written out, which
/// depends on the content alone.
#[verifier::external_body]
fn lockfile_json(lockfile: &Lockfile) -> (r: String)
    requires
        is_writable(lockfile_contents(*lockfile).content.packages),
    ensures
        r@ == lockfile_text(lockfile_contents(*lockfile).content),
        lockfile_contents(*lockfile).content == empty_content() ==> r@ == EMPTY_LOCKFILE_TEXT@,
{
    lockfile.as_json_string()
}

/// `deno_lockfile::Lockfile::resolve_write_bytes`: the content written out, if
/// it changed or the file is written in any case; the content then counts as
/// unchanged, and nothing else is touched.
#[verifier::external_body]
fn take_write_bytes(lockfile: &mut Lockfile) -> (r: Option<Vec<u8>>)
    requires
        has_to_be_written(lockfile_contents(*old(lockfile))) ==> is_writable(
            lockfile_contents(*old(lockfile)).content.packages,
        ),
    ensures
        r is Some <==> has_to_be_written(lockfile_contents(*old(lockfile))),
        r matches Some(bytes) ==> bytes@ == encode_utf8(
            lockfile_text(lockfile_contents(*old(lockfile)).content),
        ),
        lockfile_contents(*final(lockfile)) == once_written(lockfile_contents(*old(lockfile))),
{
    lockfile.resolve_write_bytes()
}

/// The dependencies of one folder. Nothing occurs twice in a list.
#[derive(Debug)]
pub struct WorkspaceMemberConfig {
    pub dependencies: Vec<String>,
    pub package_json_deps: Vec<String>,
}

impl DeepView for WorkspaceMemberConfig {
    type V = (Seq<Seq<char>>, Seq<Seq<char>>);

    open spec fn deep_view(&self) -> (Seq<Seq<char>>, Seq<Seq<char>>) {
        (self.dependencies.deep_view(), self.package_json_deps.deep_view())
    }
}

/// The dependencies of a workspace: those of its root, and those of its other
/// folders under their relative paths.
#[derive(Debug)]
pub struct WorkspaceConfig {
    pub root: WorkspaceMemberConfig,
    pub members: Vec<(String, WorkspaceMemberConfig)>,
}

/// The dependencies of a workspace.
pub ghost struct WorkspaceConfigView {
    pub root: (Seq<Seq<char>>, Seq<Seq<char>>),
    pub members: Seq<(Seq<char>, (Seq<Seq<char>>, Seq<Seq<char>>))>,
}

impl DeepView for WorkspaceConfig {
    type V = WorkspaceConfigView;

    open spec fn deep_view(&self) -> WorkspaceConfigView {
        WorkspaceConfigView { root: self.root.deep_view(), members: self.members.deep_view() }
    }
}

/// The dependencies that two lists hold.
pub open spec fn deps_of(lists: (Seq<Seq<char>>, Seq<Seq<char>>)) -> MemberDeps {
    MemberDeps { dependencies: lists.0.to_set(), package_json_deps: lists.1.to_set() }
}

/// The dependencies of a workspace by folder. Of two entries with one path the
/// later counts.
pub open spec fn workspace_deps(config: WorkspaceConfigView) -> Map<Option<Seq<char>>, MemberDeps>
    decreases config.members.len(),
{
    if config.members.len() == 0 {
        Map::empty().insert(None, deps_of(config.root))
    } else {
        let last = config.members.last();
        workspace_deps(
            WorkspaceConfigView { root: config.root, members: config.members.drop_last() },
        ).insert(Some(last.0), deps_of(last.1))
    }
}

/// The dependencies of a folder, none where the workspace does not hold it.
pub open spec fn deps_in(
    workspace: Map<Option<Seq<char>>, MemberDeps>,
    folder: Option<Seq<char>>,
) -> MemberDeps {
    if workspace.contains_key(folder) {
        workspace[folder]
    } else {
        no_deps()
    }
}

/// The dependencies of a folder after an update. Those of the configuration file
/// stay where configuration is off and none are given; those of the
/// `package.json` stay where npm or configuration is off and none are given.
pub open spec fn updated_deps(
    current: MemberDeps,
    new: MemberDeps,
    no_npm: bool,
    no_config: bool,
) -> MemberDeps {
    MemberDeps {
        dependencies: if no_config && new.dependencies == Set::<Seq<char>>::empty() {
            current.dependencies
        } else {
            new.dependencies
        },
        package_json_deps: if (no_npm || no_config) && new.package_json_deps == Set::<
            Seq<char>,
        >::empty() {
            current.package_json_deps
        } else {
            new.package_json_deps
        },
    }
}

/// The dependencies of a workspace after an update. Folders that are no longer
/// given go, unless configuration is off.
pub open spec fn updated_workspace(
    current: Map<Option<Seq<char>>, MemberDeps>,
    new: Map<Option<Seq<char>>, MemberDeps>,
    no_npm: bool,
    no_config: bool,
) -> Map<Option<Seq<char>>, MemberDeps> {
    Map::new(
        |folder: Option<Seq<char>>|
            new.contains_key(folder) || (no_config && current.contains_key(folder)),
        |folder: Option<Seq<char>>|
            if new.contains_key(folder) {
                updated_deps(deps_in(current, folder), new[folder], no_npm, no_config)
            } else {
                current[folder]
            },
    )
}

/// Whether two workspaces differ in the dependencies of a folder.
pub open spec fn workspaces_differ(
    a: Map<Option<Seq<char>>, MemberDeps>,
    b: Map<Option<Seq<char>>, MemberDeps>,
) -> bool {
    exists|folder: Option<Seq<char>>|
        #![trigger deps_in(a, folder)]
        (b.contains_key(folder) && deps_in(a, folder) != b[folder]) || (a.contains_key(folder)
            && !b.contains_key(folder))
}

/// Whether a text is a dependency in a workspace.
pub open spec fn is_dep(workspace: Map<Option<Seq<char>>, MemberDeps>, text: Seq<char>) -> bool {
    exists|folder: Option<Seq<char>>| #[trigger]
        workspace.contains_key(folder) && (workspace[folder].dependencies.contains(text)
            || workspace[folder].package_json_deps.contains(text))
}

/// All dependencies in a workspace.
pub open spec fn all_deps(workspace: Map<Option<Seq<char>>, MemberDeps>) -> Set<Seq<char>> {
    Set::new(|text: Seq<char>| is_dep(workspace, text))
}

/// Whether entries are among others.
pub open spec fn are_among<V>(part: Map<Seq<char>, V>, whole: Map<Seq<char>, V>) -> bool {
    forall|key: Seq<char>| #[trigger]
        part.contains_key(key) ==> whole.contains_key(key) && whole[key] == part[key]
}

/// Whether packages are among others.
pub open spec fn is_part_of(part: PackagesView, whole: PackagesView) -> bool {
    &&& are_among(part.specifiers, whole.specifiers)
    &&& are_among(part.jsr, whole.jsr)
    &&& are_among(part.npm, whole.npm)
}

/// The packages of a lockfile after an update of the workspace's dependencies:
/// they stay unless a dependency goes.
pub open spec fn updated_packages(
    packages: PackagesView,
    before: Map<Option<Seq<char>>, MemberDeps>,
    after: Map<Option<Seq<char>>, MemberDeps>,
) -> PackagesView {
    let removed = all_deps(before).difference(all_deps(after));
    if removed == Set::<Seq<char>>::empty() {
        packages
    } else {
        pruned_packages(packages, all_deps(before), removed)
    }
}

/// How a lockfile changes when it takes in the dependencies of a workspace. A
/// lockfile that was empty and unchanged still counts as unchanged.
pub open spec fn takes_in_workspace(
    before: LockfileView,
    after: LockfileView,
    new: Map<Option<Seq<char>>, MemberDeps>,
    no_npm: bool,
    no_config: bool,
) -> bool {
    &&& after.path == before.path
    &&& after.overwrite == before.overwrite
    &&& after.content.workspace == updated_workspace(
        before.content.workspace,
        new,
        no_npm,
        no_config,
    )
    &&& after.content.packages == updated_packages(
        before.content.packages,
        before.content.workspace,
        after.content.workspace,
    )
    &&& after.content.redirects == before.content.redirects
    &&& after.content.remote == before.content.remote
    &&& is_part_of(after.content.packages, before.content.packages)
    &&& after.changed == (before.changed || (before.content != empty_content()
        && workspaces_differ(before.content.workspace, after.content.workspace)))
}

/// `deno_lockfile::Lockfile::set_workspace_config`: the dependencies of the
/// workspace become those given, except where `no_config` or `no_npm` keep the
/// current ones; packages that nothing refers to any more go, none comes or
/// changes, and which are left depends on the packages and the dependencies
/// alone. Redirects and remote modules stay.
#[verifier::external_body]
fn set_lockfile_workspace(
    lockfile: &mut Lockfile,
    config: &WorkspaceConfig,
    no_npm: bool,
    no_config: bool,
)
    ensures
        takes_in_workspace(
            lockfile_contents(*old(lockfile)),
            lockfile_contents(*final(lockfile)),
            workspace_deps(config.deep_view()),
            no_npm,
            no_config,
        ),
        lockfile_contents(*final(lockfile)).content.packages == lockfile_contents(
            *old(lockfile),
        ).content.packages || lockfile_contents(*final(lockfile)).content.packages
            == pruned_packages(
            lockfile_contents(*old(lockfile)).content.packages,
            all_deps(lockfile_contents(*old(lockfile)).content.workspace),
            all_deps(lockfile_contents(*old(lockfile)).content.workspace).difference(
                all_deps(lockfile_contents(*final(lockfile)).content.workspace),
            ),
        ),
{
    let convert = |member: &WorkspaceMemberConfig| deno_lockfile::WorkspaceMemberConfig {
        dependencies: member.dependencies.iter().cloned().collect(),
        package_json_deps: member.package_json_deps.iter().cloned().collect(),
    };
    let config = deno_lockfile::WorkspaceConfig {
        root: convert(&config.root),
        members: config.members.iter().map(|(path, deps)| (path.clone(), convert(deps))).collect(),
    };
    let options = deno_lockfile::SetWorkspaceConfigOptions { config, no_npm, no_config };
    lockfile.set_workspace_config(options);
}

/// The npm requirements among dependencies, as npm specifiers, each once.
pub open spec fn npm_requirements(values: Seq<DependencyView>) -> Seq<Seq<char>>
    decreases values.len(),
{
    if values.len() == 0 {
        Seq::empty()
    } else {
        let before = npm_requirements(values.drop_last());
        match values.last() {
            DependencyView::Req(req) => with_missing(before, "npm:"@ + req),
            _ => before,
        }
    }
}

/// The requirements of a `package.json`, if there is one.
pub open spec fn package_json_requirements(pkg_json: Option<PackageJsonFile>) -> Seq<Seq<char>> {
    match pkg_json {
        Some(pkg_json) => npm_requirements(
            package_json_values(
                merged(pkg_json.dependencies.deep_view()),
                merged(pkg_json.dev_dependencies.deep_view()),
            ),
        ),
        None => Seq::empty(),
    }
}

/// The requirements of a configuration file, if there is one.
pub open spec fn config_requirements(deno_json: Option<DenoJson>) -> Seq<Seq<char>> {
    match deno_json {
        Some(deno_json) => distinct(deno_json.dependencies.deep_view()),
        None => Seq::empty(),
    }
}

/// The dependencies of the configuration files of a folder.
pub open spec fn folder_deps(configs: FolderConfigs) -> (Seq<Seq<char>>, Seq<Seq<char>>) {
    (config_requirements(configs.deno_json), package_json_requirements(configs.pkg_json))
}

/// Whether the version requirements of the folder's `package.json`, if it has
/// one, can be widened.
pub open spec fn is_widenable_folder(configs: FolderConfigs) -> bool {
    configs.pkg_json matches Some(pkg_json) ==> has_widenable_deps(pkg_json.deep_view())
}

/// Whether the version requirements in a workspace can be widened.
pub open spec fn is_widenable_workspace(workspace: Workspace) -> bool {
    forall|i: int|
        0 <= i < workspace.folders().len() ==> is_widenable_folder(
            (#[trigger] workspace.folders()[i]).configs,
        )
}

/// Whether the version requirements in a workspace can be widened.
pub fn can_widen_workspace(workspace: &Workspace) -> (r: bool)
    ensures
        r == is_widenable_workspace(*workspace),
{
    let folders: &Vec<ConfigFolder> = workspace.config_folders();
    let mut i: usize = 0;
    while i < folders.len()
        invariant
            i <= folders.len(),
            folders@ == workspace.folders(),
            forall|k: int| 0 <= k < i ==> is_widenable_folder((#[trigger] folders@[k]).configs),
        decreases folders.len() - i,
    {
        if let Some(pkg_json) = &folders[i].configs.pkg_json {
            if !can_widen_deps(pkg_json) {
                assert(!is_widenable_folder(workspace.folders()[i as int].configs));
                return false;
            }
        }
        i = i + 1;
    }
    true
}

fn pkg_json_deps(maybe_pkg_json: &Option<PackageJsonFile>) -> (r: Vec<String>)
    requires
        *maybe_pkg_json matches Some(pkg_json) ==> has_widenable_deps(pkg_json.deep_view()),
    ensures
        r.deep_view() == package_json_requirements(*maybe_pkg_json),
{
    let mut reqs: Vec<String> = Vec::new();
    assert(reqs.deep_view() == Seq::<Seq<char>>::empty());
    let pkg_json: &PackageJsonFile = match maybe_pkg_json {
        Some(pkg_json) => pkg_json,
        None => {
            return reqs;
        },
    };
    proof {
        lemma_merged_is_widenable(pkg_json.deep_view());
    }
    let values: Vec<DependencyValue> = resolve_package_json_deps(
        &load_package_json(pkg_json),
    );
    let mut i: usize = 0;
    assert(values.deep_view().take(0) == Seq::<DependencyView>::empty());
    while i < values.len()
        invariant
            i <= values.len(),
            reqs.deep_view() == npm_requirements(values.deep_view().take(i as int)),
        decreases values.len() - i,
    {
        assert(values.deep_view().take(i + 1).drop_last() == values.deep_view().take(i as int));
        assert(values.deep_view().take(i + 1).last() == values@[i as int].deep_view());
        if let DependencyValue::Req(req) = &values[i] {
            let text: String = concat2("npm:", req.as_str());
            add_missing(&mut reqs, text.as_str());
        }
        i = i + 1;
    }
    assert(values.deep_view().take(i as int) == values.deep_view());
    reqs
}

fn deno_json_deps(maybe_deno_json: &Option<DenoJson>) -> (r: Vec<String>)
    ensures
        r.deep_view() == config_requirements(*maybe_deno_json),
{
    match maybe_deno_json {
        Some(deno_json) => distinct_texts(&deno_json.dependencies),
        None => {
            let r: Vec<String> = Vec::new();
            assert(r.deep_view() == Seq::<Seq<char>>::empty());
            r
        },
    }
}

fn folder_config(configs: &FolderConfigs) -> (r: WorkspaceMemberConfig)
    requires
        is_widenable_folder(*configs),
    ensures
        r.deep_view() == folder_deps(*configs),
{
    WorkspaceMemberConfig {
        dependencies: deno_json_deps(&configs.deno_json),
        package_json_deps: pkg_json_deps(&configs.pkg_json),
    }
}

/// A relative path without a slash at its end.
pub open spec fn without_slash(path: Seq<char>) -> Seq<char> {
    if path.len() > 0 && path.last() == '/' {
        path.drop_last()
    } else {
        path
    }
}

/// The entry of a folder among the members of a workspace. The root has none,
/// nor has a folder without a path from the root or without dependencies.
pub open spec fn member_entry(root: Seq<char>, folder: ConfigFolder) -> Option<
    (Seq<char>, (Seq<Seq<char>>, Seq<Seq<char>>)),
> {
    let deps = folder_deps(folder.configs);
    if folder.url@ == root {
        None
    } else {
        match url_relative(root, folder.url@) {
            None => None,
            Some(path) => if deps.0.len() == 0 && deps.1.len() == 0 {
                None
            } else {
                Some((without_slash(path), deps))
            },
        }
    }
}

/// The members among `folders`, in order.
pub open spec fn member_entries(root: Seq<char>, folders: Seq<ConfigFolder>) -> Seq<
    (Seq<char>, (Seq<Seq<char>>, Seq<Seq<char>>)),
>
    decreases folders.len(),
{
    if folders.len() == 0 {
        Seq::empty()
    } else {
        let before = member_entries(root, folders.drop_last());
        match member_entry(root, folders.last()) {
            Some(entry) => before.push(entry),
            None => before,
        }
    }
}

/// The dependencies of a workspace, as its configuration files state them.
pub open spec fn declared_workspace(workspace: Workspace) -> WorkspaceConfigView {
    WorkspaceConfigView {
        root: folder_deps(workspace.root().configs),
        members: member_entries(workspace.root().url@, workspace.folders()),
    }
}

fn trim_slash(path: String) -> (r: String)
    ensures
        r@ == without_slash(path@),
{
    let chars: Vec<char> = chars_of(path.as_str());
    if chars.len() > 0 && chars[chars.len() - 1] == '/' {
        assert(path@.subrange(0, path@.len() - 1) == path@.drop_last());
        path.as_str().substring_char(0, chars.len() - 1).to_owned()
    } else {
        path
    }
}

/// The dependencies of a workspace, as its configuration files state them.
pub fn workspace_config(workspace: &Workspace) -> (r: WorkspaceConfig)
    requires
        is_widenable_workspace(*workspace),
    ensures
        r.deep_view() == declared_workspace(*workspace),
{
    let root_url: &ModuleSpecifier = workspace.root_dir();
    let folders: &Vec<ConfigFolder> = workspace.config_folders();
    assert(is_widenable_folder(workspace.folders()[workspace.root_index()].configs));
    let root: WorkspaceMemberConfig = folder_config(workspace.root_folder_configs());
    let mut members: Vec<(String, WorkspaceMemberConfig)> = Vec::new();
    let mut i: usize = 0;
    assert(folders@.take(0) == Seq::<ConfigFolder>::empty());
    assert(members.deep_view() == Seq::<
        (Seq<char>, (Seq<Seq<char>>, Seq<Seq<char>>)),
    >::empty());
    while i < folders.len()
        invariant
            i <= folders.len(),
            folders@ == workspace.folders(),
            root_url@ == workspace.root().url@,
            is_widenable_workspace(*workspace),
            members.deep_view() == member_entries(root_url@, folders@.take(i as int)),
        decreases folders.len() - i,
    {
        let ghost before = members.deep_view();
        assert(folders@.take(i + 1).drop_last() == folders@.take(i as int));
        assert(folders@.take(i + 1).last() == folders@[i as int]);
        let folder: &ConfigFolder = &folders[i];
        assert(is_widenable_folder(workspace.folders()[i as int].configs));
        if !same_text(folder.url.as_str(), root_url.as_str()) {
            if let Some(relative_path) = root_url.make_relative(&folder.url) {
                let config: WorkspaceMemberConfig = folder_config(&folder.configs);
                if config.package_json_deps.len() > 0 || config.dependencies.len() > 0 {
                    let path: String = trim_slash(relative_path);
                    members.push((path, config));
                    assert(members.deep_view() == before.push((path@, config.deep_view())));
                }
            }
        }
        i = i + 1;
    }
    assert(folders@.take(i as int) == folders@);
    WorkspaceConfig { root, members }
}

/// What came of reading a file.
#[derive(Debug)]
pub enum FileRead {
    /// The text of the file.
    Text(String),
    /// There is no such file.
    NotFound,
    /// The file could not be read, with the reason.
    Failed(String),
}

/// The lockfile of a workspace.
#[derive(Debug)]
pub struct CliLockfile {
    lockfile: Lockfile,
    filename: String,
    frozen: bool,
}

/// Where a lockfile comes from.
#[derive(Debug)]
pub enum LockfileSource {
    /// No lockfile is used.
    Off,
    /// A new lockfile replaces the one at this path.
    Fresh(String),
    /// The lockfile is read from this path.
    ReadFrom(String),
}

/// Where a lockfile comes from.
pub ghost enum LockfileSourceView {
    Off,
    Fresh(Seq<char>),
    ReadFrom(Seq<char>),
}

impl DeepView for LockfileSource {
    type V = LockfileSourceView;

    open spec fn deep_view(&self) -> LockfileSourceView {
        match *self {
            LockfileSource::Off => LockfileSourceView::Off,
            LockfileSource::Fresh(path) => LockfileSourceView::Fresh(path@),
            LockfileSource::ReadFrom(path) => LockfileSourceView::ReadFrom(path@),
        }
    }
}

/// Whether a subcommand works without a lockfile.
pub open spec fn ignores_lockfile(subcommand: DenoSubcommand) -> bool {
    match subcommand {
        DenoSubcommand::Install(flags) => flags.kind == InstallKind::Global,
        DenoSubcommand::Uninstall => true,
        _ => false,
    }
}

/// Where the lockfile comes from: none is used if lockfiles are off or the
/// subcommand works without one; otherwise it stands where the flags say, else
/// where the workspace says, and if that names no place none is used. It is new
/// if it is to be written in any case.
pub open spec fn lockfile_source(flags: Flags, root: FolderConfigs) -> Result<
    LockfileSourceView,
    Seq<char>,
> {
    if flags.no_lock || ignores_lockfile(flags.subcommand) {
        Ok(LockfileSourceView::Off)
    } else {
        let place = match flags.lock {
            Some(path) => Ok(Some(path@)),
            None => workspace_lockfile(root),
        };
        match place {
            Err(message) => Err(message),
            Ok(None) => Ok(LockfileSourceView::Off),
            Ok(Some(path)) => Ok(
                if flags.lock_write {
                    LockfileSourceView::Fresh(path)
                } else {
                    LockfileSourceView::ReadFrom(path)
                },
            ),
        }
    }
}

/// The lockfile that reading one leads to. A missing file makes an empty one.
pub open spec fn read_lockfile(path: Seq<char>, read: FileRead) -> Result<
    LockfileView,
    (Seq<char>, Option<Seq<char>>),
> {
    match read {
        FileRead::Text(text) => match lockfile_parsed(path, text@) {
            Ok(view) => Ok(view),
            Err(message) => Err((message, None)),
        },
        FileRead::NotFound => Ok(empty_lockfile(path, false)),
        FileRead::Failed(cause) => Err(("Failed reading lockfile '"@ + path + "'"@, Some(cause@))),
    }
}

/// Whether what was read, if it is text, can be read as a lockfile.
pub open spec fn is_readable_read(read: FileRead) -> bool {
    read matches FileRead::Text(text) ==> is_readable(text@)
}

/// The warning on the flag that asks for a new lockfile.
pub const LOCK_WRITE_WARNING: &'static str =
    "\"--lock-write\" flag is deprecated and will be removed in Deno 2.";

/// The error on a lockfile that could not be written.
pub fn write_error(cause: &str) -> (r: CliError)
    ensures
        r@ == ("Failed writing lockfile."@, Some(cause@)),
{
    CliError::with_cause("Failed writing lockfile.", cause)
}

/// The error on a lockfile that has to stay as it is and does not.
pub open spec fn out_of_date_message(deno_future: bool, diff: Seq<char>) -> Seq<char> {
    "The lockfile is out of date. Run "@ + (if deno_future {
        "`deno cache --frozen=false`, `deno install --frozen=false`,"@
    } else {
        "`deno cache --frozen=false`"@
    }) + " or rerun with `--frozen=false` to update it.\nchanges:\n"@ + trimmed_end(
        diff,
        |c: char| is_white_space(c),
    )
}

impl CliLockfile {
    /// What the lockfile holds.
    pub closed spec fn contents(&self) -> LockfileView {
        lockfile_contents(self.lockfile)
    }

    /// The path of the file.
    pub closed spec fn path(&self) -> Seq<char> {
        self.filename@
    }

    /// Whether the file has to stay as it is.
    pub closed spec fn is_frozen(&self) -> bool {
        self.frozen
    }

    /// Takes over a lockfile.
    pub fn new(lockfile: Lockfile, frozen: bool) -> (r: CliLockfile)
        ensures
            r.contents() == lockfile_contents(lockfile),
            r.path() == lockfile_contents(lockfile).path,
            r.is_frozen() == frozen,
    {
        let filename: String = lockfile_path(&lockfile);
        CliLockfile { lockfile, filename, frozen }
    }

    /// The lockfile itself.
    pub fn inner(&self) -> (r: &Lockfile)
        ensures
            lockfile_contents(*r) == self.contents(),
    {
        &self.lockfile
    }

    /// The lockfile itself, to be changed.
    pub fn lock(&mut self) -> (r: &mut Lockfile)
        ensures
            lockfile_contents(*r) == old(self).contents(),
            final(self).contents() == lockfile_contents(*final(r)),
            final(self).path() == old(self).path(),
            final(self).is_frozen() == old(self).is_frozen(),
    {
        &mut self.lockfile
    }

    /// The path of the file.
    pub fn filename(&self) -> (r: &str)
        ensures
            r@ == self.path(),
    {
        self.filename.as_str()
    }

    /// Whether the file has to stay as it is.
    pub fn frozen(&self) -> (r: bool)
        ensures
            r == self.is_frozen(),
    {
        self.frozen
    }

    /// Takes in the dependencies of a workspace.
    pub fn set_workspace_config(
        &mut self,
        config: &WorkspaceConfig,
        no_npm: bool,
        no_config: bool,
    )
        ensures
            takes_in_workspace(
                old(self).contents(),
                final(self).contents(),
                workspace_deps(config.deep_view()),
                no_npm,
                no_config,
            ),
            final(self).path() == old(self).path(),
            final(self).is_frozen() == old(self).is_frozen(),
    {
        set_lockfile_workspace(&mut self.lockfile, config, no_npm, no_config);
    }

    /// Whether the file is written anew whatever it holds.
    pub fn overwrite(&self) -> (r: bool)
        ensures
            r == self.contents().overwrite,
    {
        lockfile_overwrites(&self.lockfile)
    }

    /// Whether the content can be written out.
    pub fn can_be_written(&self) -> (r: bool)
        ensures
            r == is_writable(self.contents().content.packages),
    {
        let (ids, reqs): (Vec<String>, Vec<String>) = cut_texts(&self.lockfile);
        let ghost packages = self.contents().content.packages;
        let ids_are_fine: bool = check_cuts(&ids, 1);
        let reqs_are_fine: bool = check_cuts(&reqs, 5);
        proof {
            if ids_are_fine {
                assert forall|text: Seq<char>| #[trigger]
                    is_npm_id(packages, text) implies can_be_cut(text, 1) by {
                    assert(ids.deep_view().contains(text));
                }
            } else {
                let text = choose|text: Seq<char>| #[trigger]
                    ids.deep_view().contains(text) && !can_be_cut(text, 1);
                assert(is_npm_id(packages, text));
            }
            if reqs_are_fine {
                assert forall|text: Seq<char>| #[trigger]
                    is_requirement(packages, text) implies can_be_cut(text, 5) by {
                    assert(reqs.deep_view().contains(text));
                }
            } else {
                let text = choose|text: Seq<char>| #[trigger]
                    reqs.deep_view().contains(text) && !can_be_cut(text, 5);
                assert(is_requirement(packages, text));
            }
        }
        ids_are_fine && reqs_are_fine
    }

    /// The content written out.
    pub fn to_json(&self) -> (r: String)
        requires
            is_writable(self.contents().content.packages),
        ensures
            r@ == lockfile_text(self.contents().content),
            self.contents().content == empty_content() ==> r@ == EMPTY_LOCKFILE_TEXT@,
    {
        lockfile_json(&self.lockfile)
    }

    /// Whether the content changed since it was read or written.
    pub fn has_content_changed(&self) -> (r: bool)
        ensures
            r == self.contents().changed,
    {
        lockfile_changed(&self.lockfile)
    }

    /// Fails if the file has to stay as it is and the content changed. `diff`
    /// shows how the new content differs from that of the file.
    pub fn error_if_changed(&self, deno_future: bool, diff: &str) -> (r: Result<(), CliError>)
        ensures
            r is Err <==> self.is_frozen() && self.contents().changed,
            r matches Err(error) ==> error@ == (
                out_of_date_message(deno_future, diff@),
                None::<Seq<char>>,
            ),
    {
        if !self.frozen {
            return Ok(());
        }
        if self.has_content_changed() {
            let suggested: &str = if deno_future {
                "`deno cache --frozen=false`, `deno install --frozen=false`,"
            } else {
                "`deno cache --frozen=false`"
            };
            // the difference ends with an extra newline
            let diff: String = trim_end_text(diff);
            let start: String = concat2("The lockfile is out of date. Run ", suggested);
            let message: String = concat3(
                start.as_str(),
                " or rerun with `--frozen=false` to update it.\nchanges:\n",
                diff.as_str(),
            );
            Err(CliError::new(message.as_str()))
        } else {
            Ok(())
        }
    }

    /// The bytes to write to the file, if it has to be written; the content then
    /// counts as unchanged. Fails if the file has to stay as it is and the
    /// content changed, and then leaves the lockfile as it was.
    pub fn write_if_changed(&mut self, deno_future: bool, diff: &str) -> (r: Result<
        Option<Vec<u8>>,
        CliError,
    >)
        requires
            has_to_be_written(old(self).contents()) && !(old(self).is_frozen()
                && old(self).contents().changed) ==> is_writable(
                old(self).contents().content.packages,
            ),
        ensures
            final(self).path() == old(self).path(),
            final(self).is_frozen() == old(self).is_frozen(),
            match r {
                Err(error) => {
                    &&& old(self).is_frozen() && old(self).contents().changed
                    &&& error@ == (out_of_date_message(deno_future, diff@), None::<Seq<char>>)
                    &&& final(self).contents() == old(self).contents()
                },
                Ok(None) => {
                    &&& !has_to_be_written(old(self).contents())
                    &&& final(self).contents() == old(self).contents()
                },
                Ok(Some(bytes)) => {
                    &&& !(old(self).is_frozen() && old(self).contents().changed)
                    &&& has_to_be_written(old(self).contents())
                    &&& bytes@ == encode_utf8(lockfile_text(old(self).contents().content))
                    &&& final(self).contents() == once_written(old(self).contents())
                },
            },
    {
        if let Err(error) = self.error_if_changed(deno_future, diff) {
            return Err(error);
        }
        let bytes: Option<Vec<u8>> = take_write_bytes(&mut self.lockfile);
        Ok(bytes)
    }

    /// Makes the lockfile at a path of what reading it gave.
    pub fn read_from_path(filename: &str, read: FileRead, frozen: bool) -> (r: Result<
        CliLockfile,
        CliError,
    >)
        requires
            is_readable_read(read),
        ensures
            match read_lockfile(filename@, read) {
                Ok(view) => {
                    &&& r is Ok
                    &&& r->Ok_0.contents() == view
                    &&& !view.overwrite && !view.changed
                    &&& view.path == filename@
                    &&& r->Ok_0.path() == filename@
                    &&& r->Ok_0.is_frozen() == frozen
                },
                Err(error) => r is Err && r->Err_0@ == error,
            },
    {
        match read {
            FileRead::Text(text) => match parse_lockfile(filename, text.as_str()) {
                Ok(lockfile) => Ok(CliLockfile::new(lockfile, frozen)),
                Err(message) => Err(CliError::new(message.as_str())),
            },
            FileRead::NotFound => Ok(CliLockfile::new(new_lockfile(filename, false), frozen)),
            FileRead::Failed(cause) => {
                let message: String = concat3("Failed reading lockfile '", filename, "'");
                Err(CliError::with_cause(message.as_str(), cause.as_str()))
            },
        }
    }

    /// Where the lockfile comes from.
    pub fn discover_source(flags: &Flags, workspace: &Workspace) -> (r: Result<
        LockfileSource,
        CliError,
    >)
        ensures
            match lockfile_source(*flags, workspace.root().configs) {
                Ok(source) => r is Ok && r->Ok_0.deep_view() == source,
                Err(message) => r is Err && r->Err_0@ == (message, None::<Seq<char>>),
            },
    {
        let off: bool = flags.no_lock || match &flags.subcommand {
            DenoSubcommand::Install(install_flags) => install_flags.kind == InstallKind::Global,
            DenoSubcommand::Uninstall => true,
            _ => false,
        };
        if off {
            return Ok(LockfileSource::Off);
        }
        let filename: String = match &flags.lock {
            Some(lock) => lock.clone(),
            None => match workspace.resolve_lockfile_path() {
                Ok(Some(path)) => path,
                Ok(None) => {
                    return Ok(LockfileSource::Off);
                },
                Err(message) => {
                    return Err(CliError::new(message.as_str()));
                },
            },
        };
        if flags.lock_write {
            Ok(LockfileSource::Fresh(filename))
        } else {
            Ok(LockfileSource::ReadFrom(filename))
        }
    }

    /// The lockfile of a workspace, with the workspace's dependencies taken in.
    /// `read` is what reading the file gave, where `discover_source` asks for
    /// it.
    pub fn discover(flags: &Flags, workspace: &Workspace, read: FileRead) -> (r: Result<
        Option<CliLockfile>,
        CliError,
    >)
        requires
            is_discoverable(*flags, *workspace, read),
        ensures
            is_discovery(r, *flags, *workspace, read),
    {
        let mut lockfile: CliLockfile = match CliLockfile::discover_source(flags, workspace) {
            Err(error) => {
                return Err(error);
            },
            Ok(LockfileSource::Off) => {
                return Ok(None);
            },
            Ok(LockfileSource::Fresh(filename)) => CliLockfile::new(
                new_lockfile(filename.as_str(), true),
                flags.frozen_lockfile,
            ),
            Ok(LockfileSource::ReadFrom(filename)) => match CliLockfile::read_from_path(
                filename.as_str(),
                read,
                flags.frozen_lockfile,
            ) {
                Ok(lockfile) => lockfile,
                Err(error) => {
                    return Err(error);
                },
            },
        };
        // initialize the lockfile with the workspace's configuration
        let config: WorkspaceConfig = workspace_config(workspace);
        let no_config: bool = match &flags.config_flag {
            ConfigFlag::Disabled => true,
            _ => false,
        };
        lockfile.set_workspace_config(&config, flags.no_npm, no_config);
        Ok(Some(lockfile))
    }
}

/// Whether the lockfile of a workspace can be discovered: a text that is read is
/// readable, and where there is a lockfile, the version requirements in the
/// workspace can be widened.
pub open spec fn is_discoverable(flags: Flags, workspace: Workspace, read: FileRead) -> bool {
    match lockfile_source(flags, workspace.root().configs) {
        Err(_) => true,
        Ok(LockfileSourceView::Off) => true,
        Ok(LockfileSourceView::Fresh(_)) => is_widenable_workspace(workspace),
        Ok(LockfileSourceView::ReadFrom(path)) => is_readable_read(read) && (read_lockfile(
            path,
            read,
        ) is Ok ==> is_widenable_workspace(workspace)),
    }
}

/// What discovering the lockfile of a workspace leads to.
pub open spec fn is_discovery(
    outcome: Result<Option<CliLockfile>, CliError>,
    flags: Flags,
    workspace: Workspace,
    read: FileRead,
) -> bool {
    match lockfile_source(flags, workspace.root().configs) {
        Err(message) => outcome is Err && outcome->Err_0@ == (message, None::<Seq<char>>),
        Ok(LockfileSourceView::Off) => outcome is Ok && outcome->Ok_0 is None,
        Ok(LockfileSourceView::Fresh(path)) => outcome is Ok && is_discovered(
            outcome->Ok_0,
            path,
            empty_lockfile(path, true),
            flags,
            workspace,
        ),
        Ok(LockfileSourceView::ReadFrom(path)) => match read_lockfile(path, read) {
            Err(error) => outcome is Err && outcome->Err_0@ == error,
            Ok(view) => outcome is Ok && is_discovered(
                outcome->Ok_0,
                path,
                view,
                flags,
                workspace,
            ),
        },
    }
}

/// Whether a lockfile is what discovery makes of the content it starts with: it
/// takes in the dependencies that the workspace declares.
pub open spec fn is_discovered(
    lockfile: Option<CliLockfile>,
    path: Seq<char>,
    start: LockfileView,
    flags: Flags,
    workspace: Workspace,
) -> bool {
    &&& lockfile is Some
    &&& lockfile->0.path() == path
    &&& lockfile->0.contents().path == path
    &&& lockfile->0.contents().overwrite == flags.lock_write
    &&& lockfile->0.is_frozen() == flags.frozen_lockfile
    &&& takes_in_workspace(
        start,
        lockfile->0.contents(),
        workspace_deps(declared_workspace(workspace)),
        flags.no_npm,
        flags.config_flag is Disabled,
    )
}

/// The lockfile of a workspace, with the workspace's dependencies taken in;
/// nothing where a text that is read is not readable, or version requirements
/// that it would take in cannot be widened.
pub fn discover_lockfile(flags: &Flags, workspace: &Workspace, read: FileRead) -> (r: Option<
    Result<Option<CliLockfile>, CliError>,
>)
    ensures
        match r {
            Some(outcome) => is_discoverable(*flags, *workspace, read) && is_discovery(
                outcome,
                *flags,
                *workspace,
                read,
            ),
            None => !is_discoverable(*flags, *workspace, read),
        },
{
    let takes_in_workspace: bool = match CliLockfile::discover_source(flags, workspace) {
        Err(_) => false,
        Ok(LockfileSource::Off) => false,
        Ok(LockfileSource::Fresh(_)) => true,
        Ok(LockfileSource::ReadFrom(path)) => match &read {
            FileRead::Text(text) => {
                if !can_be_read(text.as_str()) {
                    return None;
                }
                parse_lockfile(path.as_str(), text.as_str()).is_ok()
            },
            FileRead::NotFound => true,
            FileRead::Failed(_) => false,
        },
    };
    if takes_in_workspace && !can_widen_workspace(workspace) {
        return None;
    }
    Some(CliLockfile::discover(flags, workspace, read))
}

/// A workspace does not make a lockfile come into being by itself: where the
/// file is missing, the lockfile that discovery makes is neither changed nor
/// written in any case.
pub proof fn law_missing_lockfile_is_not_written(
    path: Seq<char>,
    after: LockfileView,
    new: Map<Option<Seq<char>>, MemberDeps>,
    no_npm: bool,
    no_config: bool,
)
    requires
        takes_in_workspace(
            read_lockfile(path, FileRead::NotFound)->Ok_0,
            after,
            new,
            no_npm,
            no_config,
        ),
    ensures
        !has_to_be_written(after),
{
}

/// A lockfile that is not written in any case is written once for each change:
/// once it is written, it need not be written again.
pub proof fn law_lockfile_is_written_once(lockfile: LockfileView)
    ensures
        has_to_be_written(once_written(lockfile)) <==> lockfile.overwrite,
        once_written(once_written(lockfile)) == once_written(lockfile),
{
}

/// Taking in the same dependencies a second time changes nothing.
pub proof fn law_workspace_is_taken_in_once(
    before: LockfileView,
    after: LockfileView,
    again: LockfileView,
    new: Map<Option<Seq<char>>, MemberDeps>,
    no_npm: bool,
    no_config: bool,
)
    requires
        takes_in_workspace(before, after, new, no_npm, no_config),
        takes_in_workspace(after, again, new, no_npm, no_config),
    ensures
        again == after,
{
    let workspace = after.content.workspace;
    assert(again.content.workspace == workspace) by {
        assert(updated_workspace(workspace, new, no_npm, no_config) =~= workspace) by {
            assert forall|folder: Option<Seq<char>>| workspace.contains_key(
                folder,
            ) implies #[trigger] updated_workspace(
                workspace,
                new,
                no_npm,
                no_config,
            )[folder] == workspace[folder] by {
                if new.contains_key(folder) {
                    assert(deps_in(workspace, folder) == workspace[folder]);
                }
            }
        }
    }
    assert(all_deps(workspace).difference(all_deps(workspace)) =~= Set::<Seq<char>>::empty());
}

/// With configuration and npm in use, a lockfile holds exactly the dependencies
/// that the workspace declares, whatever it held before.
pub proof fn law_workspace_replaces_dependencies(
    before: LockfileView,
    after: LockfileView,
    new: Map<Option<Seq<char>>, MemberDeps>,
)
    requires
        takes_in_workspace(before, after, new, false, false),
    ensures
        after.content.workspace == new,
{
    assert(after.content.workspace =~= new);
}

/// A lockfile that can be written still can after it has taken in a workspace.
pub proof fn law_writable_lockfile_stays_writable(
    before: LockfileView,
    after: LockfileView,
    new: Map<Option<Seq<char>>, MemberDeps>,
    no_npm: bool,
    no_config: bool,
)
    requires
        takes_in_workspace(before, after, new, no_npm, no_config),
        is_writable(before.content.packages),
    ensures
        is_writable(after.content.packages),
{
    let whole = before.content.packages;
    let part = after.content.packages;
    assert forall|text: Seq<char>| #[trigger] is_npm_id(part, text) implies can_be_cut(text, 1) by {
        if part.npm.contains_key(text) {
            assert(whole.npm.contains_key(text));
        } else {
            let id = choose|id: Seq<char>| #[trigger]
                part.npm.contains_key(id) && part.npm[id].1.contains_value(text);
            assert(whole.npm.contains_key(id) && whole.npm[id] == part.npm[id]);
        }
        assert(is_npm_id(whole, text));
    }
    assert forall|text: Seq<char>| #[trigger] is_requirement(part, text) implies can_be_cut(
        text,
        5,
    ) by {
        if part.specifiers.contains_key(text) {
            assert(whole.specifiers.contains_key(text));
        } else {
            let id = choose|id: Seq<char>| #[trigger]
                part.jsr.contains_key(id) && part.jsr[id].1.contains(text);
            assert(whole.jsr.contains_key(id) && whole.jsr[id] == part.jsr[id]);
        }
        assert(is_requirement(whole, text));
    }
}

/// A workspace that loses no dependency leaves the packages of a lockfile as they
/// are.
pub proof fn law_packages_stay(
    before: LockfileView,
    after: LockfileView,
    new: Map<Option<Seq<char>>, MemberDeps>,
    no_npm: bool,
    no_config: bool,
)
    requires
        takes_in_workspace(before, after, new, no_npm, no_config),
        forall|text: Seq<char>| #[trigger]
            is_dep(before.content.workspace, text) ==> is_dep(after.content.workspace, text),
    ensures
        after.content.packages == before.content.packages,
{
    assert(all_deps(before.content.workspace).difference(all_deps(after.content.workspace))
        =~= Set::<Seq<char>>::empty());
}

/// White space at the end of a difference does not show in the error on a
/// lockfile that is out of date.
pub proof fn law_out_of_date_message_is_trimmed(deno_future: bool, diff: Seq<char>)
    ensures
        out_of_date_message(deno_future, diff) == out_of_date_message(
            deno_future,
            trimmed_end(diff, |c: char| is_white_space(c)),
        ),
{
    lemma_trimmed_end_once(diff, |c: char| is_white_space(c));
}

proof fn lemma_trimmed_end_once(s: Seq<char>, junk: spec_fn(char) -> bool)
    ensures
        trimmed_end(trimmed_end(s, junk), junk) == trimmed_end(s, junk),
    decreases s.len(),
{
    if s.len() > 0 && junk(s.last()) {
        lemma_trimmed_end_once(s.drop_last(), junk);
    }
}

/// What the entries of a `package.json` stand for.
pub open spec fn values_of(pkg_json: PackageJsonFile) -> Seq<DependencyView> {
    package_json_values(
        merged(pkg_json.dependencies.deep_view()),
        merged(pkg_json.dev_dependencies.deep_view()),
    )
}

/// Whether a configuration file of a folder asks for a package.
pub open spec fn asks_for_package(configs: FolderConfigs, text: Seq<char>) -> bool {
    configs.deno_json matches Some(deno_json) && deno_json.dependencies.deep_view().contains(text)
}

/// Whether the `package.json` of a folder asks for an npm package of a registry.
pub open spec fn asks_for_npm_package(configs: FolderConfigs, text: Seq<char>) -> bool {
    configs.pkg_json matches Some(pkg_json) && exists|i: int|
        0 <= i < values_of(pkg_json).len() && (#[trigger] values_of(pkg_json)[i] matches
            DependencyView::Req(req) && text == "npm:"@ + req)
}

/// Whether the configuration files of a folder ask for a package.
pub open spec fn asks_for(configs: FolderConfigs, text: Seq<char>) -> bool {
    asks_for_package(configs, text) || asks_for_npm_package(configs, text)
}

/// Whether a folder of a workspace other than its root has a place below the root and
/// asks for a package at all.
pub open spec fn is_member(root: Seq<char>, folder: ConfigFolder) -> bool {
    &&& folder.url@ != root
    &&& url_relative(root, folder.url@) is Some
    &&& exists|text: Seq<char>| #[trigger] asks_for(folder.configs, text)
}

/// Whether two lists hold what the configuration files of a folder ask for, each text
/// once.
pub open spec fn holds_deps(
    lists: (Seq<Seq<char>>, Seq<Seq<char>>),
    configs: FolderConfigs,
) -> bool {
    &&& lists.0.no_duplicates()
    &&& lists.1.no_duplicates()
    &&& forall|text: Seq<char>| #[trigger]
        lists.0.contains(text) <==> asks_for_package(configs, text)
    &&& forall|text: Seq<char>| #[trigger]
        lists.1.contains(text) <==> asks_for_npm_package(configs, text)
}

/// Whether a path is the one that leads to a folder, without a slash at its end.
pub open spec fn leads_to(path: Seq<char>, root: Seq<char>, folder: ConfigFolder) -> bool {
    url_relative(root, folder.url@) == Some(path.push('/')) || (url_relative(root, folder.url@)
        == Some(path) && !(path.len() > 0 && path.last() == '/'))
}

proof fn lemma_npm_requirements(values: Seq<DependencyView>)
    ensures
        npm_requirements(values).no_duplicates(),
        forall|text: Seq<char>| #[trigger]
            npm_requirements(values).contains(text) <==> exists|i: int|
                0 <= i < values.len() && (#[trigger] values[i] matches DependencyView::Req(req)
                    && text == "npm:"@ + req),
    decreases values.len(),
{
    if values.len() > 0 {
        let front = values.drop_last();
        lemma_npm_requirements(front);
        let before = npm_requirements(front);
        let all = npm_requirements(values);
        assert(forall|i: int| 0 <= i < front.len() ==> (#[trigger] values[i]) == front[i]);
        assert(values[values.len() - 1] == values.last());
        assert forall|text: Seq<char>| #[trigger] all.contains(text) <==> exists|i: int|
            0 <= i < values.len() && (#[trigger] values[i] matches DependencyView::Req(req) && text
                == "npm:"@ + req) by {
            assert(before.contains(text) <==> exists|i: int|
                0 <= i < front.len() && (#[trigger] front[i] matches DependencyView::Req(req)
                    && text == "npm:"@ + req));
            if let DependencyView::Req(req) = values.last() {
                let item = "npm:"@ + req;
                vstd::seq_lib::lemma_seq_contains_after_push(before, item, text);
                if all.contains(text) && !before.contains(text) {
                    assert(text == item);
                }
            }
            if before.contains(text) {
                let i = choose|i: int|
                    0 <= i < front.len() && (#[trigger] front[i] matches DependencyView::Req(req)
                        && text == "npm:"@ + req);
                assert(values[i] == front[i]);
            }
        }
    } else {
        assert(npm_requirements(values) == Seq::<Seq<char>>::empty());
    }
}

proof fn lemma_folder_deps(configs: FolderConfigs)
    ensures
        holds_deps(folder_deps(configs), configs),
        (folder_deps(configs).0.len() == 0 && folder_deps(configs).1.len() == 0) <==> !(exists|
            text: Seq<char>,
        | #[trigger]
            asks_for(configs, text)),
{
    let lists = folder_deps(configs);
    if let Some(deno_json) = configs.deno_json {
        law_with_all_missing(Seq::empty(), deno_json.dependencies.deep_view());
    }
    if let Some(pkg_json) = configs.pkg_json {
        lemma_npm_requirements(values_of(pkg_json));
    }
    assert(holds_deps(lists, configs));
    if lists.0.len() > 0 {
        assert(lists.0.contains(lists.0[0]));
        assert(asks_for(configs, lists.0[0]));
    }
    if lists.1.len() > 0 {
        assert(lists.1.contains(lists.1[0]));
        assert(asks_for(configs, lists.1[0]));
    }
    if exists|text: Seq<char>| #[trigger] asks_for(configs, text) {
        let text = choose|text: Seq<char>| #[trigger] asks_for(configs, text);
        assert(lists.0.contains(text) || lists.1.contains(text));
    }
}

proof fn lemma_member_entries(root: Seq<char>, folders: Seq<ConfigFolder>)
    ensures
        ({
            let entries = member_entries(root, folders);
            let members = folders.filter(|folder: ConfigFolder| is_member(root, folder));
            &&& entries.len() == members.len()
            &&& forall|i: int|
                0 <= i < entries.len() ==> leads_to(
                    (#[trigger] entries[i]).0,
                    root,
                    members[i],
                ) && holds_deps(entries[i].1, members[i].configs)
        }),
    decreases folders.len(),
{
    reveal(Seq::filter);
    if folders.len() > 0 {
        let keep = |folder: ConfigFolder| is_member(root, folder);
        let front = folders.drop_last();
        let last = folders.last();
        lemma_member_entries(root, front);
        lemma_folder_deps(last.configs);
        let before = member_entries(root, front);
        let members = front.filter(keep);
        if let Some(path) = url_relative(root, last.url@) {
            let cut = without_slash(path);
            if path.len() > 0 && path.last() == '/' {
                assert(cut.push('/') == path);
            }
        }
        assert(member_entry(root, last) is Some <==> is_member(root, last));
        if is_member(root, last) {
            assert(folders.filter(keep) == members.push(last));
        } else {
            assert(folders.filter(keep) == members);
        }
    }
}

/// The dependencies of a workspace that go into its lockfile: those of the root, and
/// an entry for exactly those other folders that have a path from the root and ask for
/// a package, be it in the configuration file or in the `package.json`. Each entry
/// stands under the folder's path and holds what both files ask for. The entries stand
/// in the order of the folders.
pub proof fn law_workspace_members(workspace: &Workspace, r: WorkspaceConfig)
    requires
        call_ensures(workspace_config, (workspace,), r),
    ensures
        holds_deps(r.root.deep_view(), workspace.root().configs),
        ({
            let root = workspace.root().url@;
            let members = workspace.folders().filter(
                |folder: ConfigFolder| is_member(root, folder),
            );
            &&& r.members.len() == members.len()
            &&& forall|i: int|
                0 <= i < members.len() ==> leads_to(
                    (#[trigger] r.members@[i]).0@,
                    root,
                    members[i],
                ) && holds_deps(r.members@[i].1.deep_view(), members[i].configs)
        }),
        forall|folder: ConfigFolder|
            workspace.folders().contains(folder) && #[trigger] is_member(
                workspace.root().url@,
                folder,
            ) ==> exists|i: int|
                0 <= i < r.members.len() && leads_to(
                    (#[trigger] r.members@[i]).0@,
                    workspace.root().url@,
                    folder,
                ) && holds_deps(r.members@[i].1.deep_view(), folder.configs),
{
    let root = workspace.root().url@;
    let folders = workspace.folders();
    let keep = |folder: ConfigFolder| is_member(root, folder);
    let members = folders.filter(keep);
    let entries = member_entries(root, folders);
    lemma_folder_deps(workspace.root().configs);
    lemma_member_entries(root, folders);
    assert(r.deep_view().members == entries);
    assert(r.members.deep_view() == entries);
    assert forall|i: int| 0 <= i < members.len() implies leads_to(
        (#[trigger] r.members@[i]).0@,
        root,
        members[i],
    ) && holds_deps(r.members@[i].1.deep_view(), members[i].configs) by {
        assert(entries[i] == r.members@[i].deep_view());
    }
    assert forall|folder: ConfigFolder|
        folders.contains(folder) && #[trigger] is_member(root, folder) implies exists|i: int|
        0 <= i < r.members.len() && leads_to((#[trigger] r.members@[i]).0@, root, folder)
            && holds_deps(r.members@[i].1.deep_view(), folder.configs) by {
        let k = choose|k: int| 0 <= k < folders.len() && folders[k] == folder;
        folders.lemma_filter_contains(keep, k);
        let i = choose|i: int| 0 <= i < members.len() && members[i] == folder;
        assert(leads_to(r.members@[i].0@, root, folder));
    }
}

/// Where a lockfile comes from. None is used if lockfiles are turned off, on a global
/// installation, and on an uninstallation. Otherwise a flag names it, whatever the
/// workspace says; without the flag the root's configuration file decides, and without
/// that one it is `deno.lock` beside the root's `package.json`. A lockfile that is to be
/// written in any case is not read.
pub proof fn law_lockfile_source(
    flags: &Flags,
    workspace: &Workspace,
    r: Result<LockfileSource, CliError>,
)
    requires
        call_ensures(CliLockfile::discover_source, (flags, workspace), r),
    ensures
        ({
            let is_off = flags.no_lock || flags.subcommand is Uninstall || (flags.subcommand matches
                DenoSubcommand::Install(install) && install.kind is Global);
            let root = workspace.root().configs;
            &&& is_off ==> (r matches Ok(LockfileSource::Off))
            &&& !is_off ==> (flags.lock matches Some(path) ==> is_source_at(r, path@, *flags))
            &&& !is_off && flags.lock is None ==> {
                &&& root.deno_json matches Some(deno_json) ==> match deno_json.asked_lockfile() {
                    Ok(Some(path)) => is_source_at(r, path, *flags),
                    Ok(None) => r is Ok && r->Ok_0 is Off,
                    Err(message) => r is Err && r->Err_0.message@ == message,
                }
                &&& root.deno_json is None && root.pkg_json is None ==> (r matches Ok(
                    LockfileSource::Off,
                ))
                &&& root.deno_json is None ==> (root.pkg_json matches Some(pkg_json) ==> forall|
                    dir: Seq<char>,
                |
                    path_parent(pkg_json.path@) == Some(dir) ==> is_source_at(
                        r,
                        #[trigger] path_join(dir, "deno.lock"@),
                        *flags,
                    ))
            }
        }),
{
}

/// Whether a lockfile comes from a path: it is new if it is written in any case, and
/// read otherwise.
pub open spec fn is_source_at(
    source: Result<LockfileSource, CliError>,
    path: Seq<char>,
    flags: Flags,
) -> bool {
    &&& source is Ok
    &&& flags.lock_write ==> source->Ok_0 is Fresh && source->Ok_0->Fresh_0@ == path
    &&& !flags.lock_write ==> source->Ok_0 is ReadFrom && source->Ok_0->ReadFrom_0@ == path
}

/// A missing lockfile is empty and unchanged, one that cannot be read is an error that
/// names the file and the cause, and one that was read is unchanged. Reading never makes
/// a lockfile that is written in any case.
pub proof fn law_read_lockfile(
    filename: &str,
    read: FileRead,
    frozen: bool,
    r: Result<CliLockfile, CliError>,
)
    requires
        call_ensures(CliLockfile::read_from_path, (filename, read, frozen), r),
    ensures
        read is NotFound ==> r is Ok && r->Ok_0.contents().content == empty_content(),
        read matches FileRead::Failed(cause) ==> r is Err && r->Err_0.message@
            == "Failed reading lockfile '"@ + filename@ + "'"@ && r->Err_0.cause.deep_view()
            == Some(cause@),
        read matches FileRead::Text(text) ==> {
            &&& lockfile_parsed(filename@, text@) matches Ok(view) ==> r is Ok
                && r->Ok_0.contents() == view
            &&& lockfile_parsed(filename@, text@) matches Err(message) ==> r is Err
                && r->Err_0.message@ == message && r->Err_0.cause is None
        },
        r matches Ok(lockfile) ==> {
            &&& lockfile.path() == filename@
            &&& lockfile.contents().path == filename@
            &&& lockfile.is_frozen() == frozen
            &&& !lockfile.contents().changed
            &&& !lockfile.contents().overwrite
        },
{
}

proof fn lemma_root_deps(config: WorkspaceConfigView)
    ensures
        workspace_deps(config).contains_key(None),
        workspace_deps(config)[None] == deps_of(config.root),
    decreases config.members.len(),
{
    if config.members.len() > 0 {
        lemma_root_deps(
            WorkspaceConfigView { root: config.root, members: config.members.drop_last() },
        );
    }
}

proof fn lemma_member_keys(config: WorkspaceConfigView, path: Seq<char>)
    ensures
        workspace_deps(config).contains_key(Some(path)) <==> exists|i: int|
            0 <= i < config.members.len() && (#[trigger] config.members[i]).0 == path,
    decreases config.members.len(),
{
    let members = config.members;
    if members.len() > 0 {
        let front = WorkspaceConfigView { root: config.root, members: members.drop_last() };
        lemma_member_keys(front, path);
        assert(members[members.len() - 1] == members.last());
        if exists|i: int| 0 <= i < front.members.len() && (#[trigger] front.members[i]).0 == path {
            let i = choose|i: int|
                0 <= i < front.members.len() && (#[trigger] front.members[i]).0 == path;
            assert(members[i].0 == path);
        }
        if exists|i: int| 0 <= i < members.len() && (#[trigger] members[i]).0 == path {
            let i = choose|i: int| 0 <= i < members.len() && (#[trigger] members[i]).0 == path;
            if i < members.len() - 1 {
                assert(front.members[i].0 == path);
            }
        }
    }
}

proof fn lemma_member_deps(config: WorkspaceConfigView, i: int)
    requires
        0 <= i < config.members.len(),
        forall|k: int|
            i < k < config.members.len() ==> (#[trigger] config.members[k]).0
                != config.members[i].0,
    ensures
        workspace_deps(config)[Some(config.members[i].0)] == deps_of(config.members[i].1),
    decreases config.members.len(),
{
    let members = config.members;
    if i < members.len() - 1 {
        let front = WorkspaceConfigView { root: config.root, members: members.drop_last() };
        assert(members[members.len() - 1].0 != members[i].0);
        assert forall|k: int| i < k < front.members.len() implies (#[trigger] front.members[k]).0
            != front.members[i].0 by {
            assert(members[k].0 != members[i].0);
        }
        lemma_member_deps(front, i);
    }
}

/// A lockfile that is discovered stands where it comes from, has to stay as it is
/// exactly where the flag says so, and is written in any case exactly where that flag
/// says so. With configuration and npm in use, the dependencies that it holds are those
/// of the workspace: those of the root, and an entry for every member and for nothing
/// else.
pub proof fn law_discovered_lockfile(
    flags: &Flags,
    workspace: &Workspace,
    read: FileRead,
    config: WorkspaceConfig,
    source: Result<LockfileSource, CliError>,
    r: Result<Option<CliLockfile>, CliError>,
)
    requires
        call_ensures(CliLockfile::discover, (flags, workspace, read), r),
        call_ensures(CliLockfile::discover_source, (flags, workspace), source),
        call_ensures(workspace_config, (workspace,), config),
    ensures
        source matches Err(error) ==> r is Err && r->Err_0@ == error@,
        source matches Ok(LockfileSource::Off) ==> r is Ok && r->Ok_0 is None,
        source matches Ok(LockfileSource::Fresh(path)) ==> r is Ok && r->Ok_0 is Some
            && r->Ok_0->0.path() == path@,
        source matches Ok(LockfileSource::ReadFrom(path)) ==> (read is NotFound ==> r is Ok
            && r->Ok_0 is Some && !has_to_be_written(r->Ok_0->0.contents())),
        source matches Ok(LockfileSource::ReadFrom(path)) ==> (read is Failed ==> r is Err),
        source matches Ok(LockfileSource::ReadFrom(path)) ==> (r is Ok ==> r->Ok_0 is Some
            && r->Ok_0->0.path() == path@),
        r matches Ok(Some(lockfile)) ==> {
            &&& lockfile.is_frozen() == flags.frozen_lockfile
            &&& lockfile.contents().overwrite == flags.lock_write
            &&& !flags.no_npm && !(flags.config_flag is Disabled) ==> {
                let held = lockfile.contents().content.workspace;
                &&& held.contains_key(None) && held[None] == deps_of(config.root.deep_view())
                &&& forall|path: Seq<char>| #[trigger]
                    held.contains_key(Some(path)) <==> exists|i: int|
                        0 <= i < config.members.len() && (#[trigger] config.members@[i]).0@ == path
                &&& forall|i: int|
                    0 <= i < config.members.len() && (forall|k: int|
                        i < k < config.members.len() ==> (#[trigger] config.members@[k]).0@
                            != config.members@[i].0@) ==> held[Some(
                        (#[trigger] config.members@[i]).0@,
                    )] == deps_of(config.members@[i].1.deep_view())
            }
        },
{
    if let Ok(Some(lockfile)) = r {
        if !flags.no_npm && !(flags.config_flag is Disabled) {
            let held = lockfile.contents().content.workspace;
            let new = workspace_deps(config.deep_view());
            assert(held =~= new);
            lemma_root_deps(config.deep_view());
            let members = config.members.deep_view();
            assert(members == config.deep_view().members);
            assert(forall|i: int|
                0 <= i < members.len() ==> (#[trigger] members[i]) == config.members@[i].deep_view());
            assert forall|path: Seq<char>| #[trigger] held.contains_key(Some(path)) <==> exists|
                i: int,
            |
                0 <= i < config.members.len() && (#[trigger] config.members@[i]).0@ == path by {
                lemma_member_keys(config.deep_view(), path);
                if held.contains_key(Some(path)) {
                    let i = choose|i: int|
                        0 <= i < members.len() && (#[trigger] members[i]).0 == path;
                    assert(config.members@[i].0@ == path);
                }
                if exists|i: int|
                    0 <= i < config.members.len() && (#[trigger] config.members@[i]).0@ == path {
                    let i = choose|i: int|
                        0 <= i < config.members.len() && (#[trigger] config.members@[i]).0@ == path;
                    assert(members[i].0 == path);
                }
            }
            assert forall|i: int|
                0 <= i < config.members.len() && (forall|k: int|
                    i < k < config.members.len() ==> (#[trigger] config.members@[k]).0@
                        != config.members@[i].0@) implies held[Some(
                (#[trigger] config.members@[i]).0@,
            )] == deps_of(config.members@[i].1.deep_view()) by {
                assert(members[i].0 == config.members@[i].0@);
                assert forall|k: int| i < k < members.len() implies (#[trigger] members[k]).0
                    != members[i].0 by {
                    assert(config.members@[k].0@ != config.members@[i].0@);
                }
                lemma_member_deps(config.deep_view(), i);
            }
        }
    }
}

/// What a lockfile holds on a folder after an update: what is given for it, unless
/// nothing is given and configuration (or, for a `package.json`, npm or configuration)
/// is off, in which case what it held stays. A folder that is not given stays exactly
/// where configuration is off.
pub proof fn law_folder_after_update(
    before: LockfileView,
    after: LockfileView,
    new: Map<Option<Seq<char>>, MemberDeps>,
    no_npm: bool,
    no_config: bool,
    folder: Option<Seq<char>>,
)
    requires
        takes_in_workspace(before, after, new, no_npm, no_config),
    ensures
        ({
            let old_workspace = before.content.workspace;
            let workspace = after.content.workspace;
            let none = Set::<Seq<char>>::empty();
            &&& workspace.contains_key(folder) <==> new.contains_key(folder) || (no_config
                && old_workspace.contains_key(folder))
            &&& new.contains_key(folder) && (new[folder].dependencies != none || !no_config)
                ==> workspace[folder].dependencies == new[folder].dependencies
            &&& new.contains_key(folder) && old_workspace.contains_key(folder)
                && new[folder].dependencies == none && no_config
                ==> workspace[folder].dependencies == old_workspace[folder].dependencies
            &&& new.contains_key(folder) && (new[folder].package_json_deps != none || !(no_npm
                || no_config)) ==> workspace[folder].package_json_deps
                == new[folder].package_json_deps
            &&& new.contains_key(folder) && old_workspace.contains_key(folder)
                && new[folder].package_json_deps == none && (no_npm || no_config)
                ==> workspace[folder].package_json_deps
                == old_workspace[folder].package_json_deps
            &&& !new.contains_key(folder) && no_config && old_workspace.contains_key(folder)
                ==> workspace[folder] == old_workspace[folder]
            &&& after.content.redirects == before.content.redirects
            &&& after.content.remote == before.content.remote
            &&& before.changed ==> after.changed
        }),
{
}

/// A lockfile has to be written exactly where its content changed or it is written in
/// any case, and writing it leaves what it holds as it is.
pub proof fn law_written_lockfile(lockfile: LockfileView)
    ensures
        has_to_be_written(lockfile) <==> lockfile.changed || lockfile.overwrite,
        once_written(lockfile).content == lockfile.content,
        once_written(lockfile).path == lockfile.path,
        once_written(lockfile).overwrite == lockfile.overwrite,
        !once_written(lockfile).changed,
{
}

/// A lockfile that has to stay as it is is an error exactly where its content changed.
/// The message says how to update it and ends with the difference, without white space
/// at its end.
pub proof fn law_frozen_lockfile(
    lockfile: &CliLockfile,
    deno_future: bool,
    diff: &str,
    r: Result<(), CliError>,
)
    requires
        call_ensures(CliLockfile::error_if_changed, (lockfile, deno_future, diff), r),
    ensures
        r is Err <==> lockfile.is_frozen() && lockfile.contents().changed,
        r matches Err(error) ==> {
            let shown = trimmed_end(diff@, |c: char| is_white_space(c));
            &&& error.cause is None
            &&& deno_future ==> error.message@ == "The lockfile is out of date. Run "@
                + "`deno cache --frozen=false`, `deno install --frozen=false`,"@
                + " or rerun with `--frozen=false` to update it.\nchanges:\n"@ + shown
            &&& !deno_future ==> error.message@ == "The lockfile is out of date. Run "@
                + "`deno cache --frozen=false`"@
                + " or rerun with `--frozen=false` to update it.\nchanges:\n"@ + shown
        },
{
}

/// Writing a lockfile: one that has to stay as it is and changed is an error that shows the
/// changes, and is left alone. Otherwise there is something to write exactly where the content changed or the
/// file is written in any case; that is the content, which stays and then counts as
/// unchanged. Whether the lockfile has to stay as it is, and its path, never change.
pub proof fn law_writing_lockfiles(
    deno_future: bool,
    diff: &str,
    r: Result<Option<Vec<u8>>, CliError>,
)
    ensures
        forall|lockfile: &mut CliLockfile| #[trigger]
            call_ensures(CliLockfile::write_if_changed, (lockfile, deno_future, diff), r) ==> {
                let before = lockfile.contents();
                let after = final(lockfile).contents();
                let is_refused = lockfile.is_frozen() && before.changed;
                let has_to_be = before.changed || before.overwrite;
                &&& final(lockfile).path() == lockfile.path()
                &&& final(lockfile).is_frozen() == lockfile.is_frozen()
                &&& r is Err <==> is_refused
                &&& is_refused ==> after == before
                &&& is_refused ==> r->Err_0.cause is None && r->Err_0.message@
                    == "The lockfile is out of date. Run "@ + (if deno_future {
                    "`deno cache --frozen=false`, `deno install --frozen=false`,"@
                } else {
                    "`deno cache --frozen=false`"@
                }) + " or rerun with `--frozen=false` to update it.\nchanges:\n"@ + trimmed_end(
                    diff@,
                    |c: char| is_white_space(c),
                )
                &&& !is_refused ==> (r->Ok_0 is Some <==> has_to_be)
                &&& !is_refused && !has_to_be ==> after == before
                &&& !is_refused && has_to_be ==> r->Ok_0->0@ == encode_utf8(
                    lockfile_text(before.content),
                )
                &&& !is_refused ==> after.content == before.content && !after.changed
                    && after.overwrite == before.overwrite && after.path == before.path
            },
{
}

/// Taking in the dependencies of a workspace keeps the path and whether the lockfile has to
/// stay as it is. With configuration and npm in use, what the lockfile holds on the
/// workspace is what is given, whatever it held.
pub proof fn law_taking_in_workspaces(
    config: &WorkspaceConfig,
    no_npm: bool,
    no_config: bool,
)
    ensures
        forall|lockfile: &mut CliLockfile| #[trigger]
            call_ensures(
                CliLockfile::set_workspace_config,
                (lockfile, config, no_npm, no_config),
                (),
            ) ==> {
                let held = final(lockfile).contents().content.workspace;
                &&& final(lockfile).path() == lockfile.path()
                &&& final(lockfile).is_frozen() == lockfile.is_frozen()
                &&& final(lockfile).contents().overwrite == lockfile.contents().overwrite
                &&& final(lockfile).contents().content.remote
                    == lockfile.contents().content.remote
                &&& final(lockfile).contents().content.redirects
                    == lockfile.contents().content.redirects
                &&& lockfile.contents().changed ==> final(lockfile).contents().changed
                &&& !no_npm && !no_config ==> held.contains_key(None) && held[None] == deps_of(
                    config.root.deep_view(),
                )
            },
{
    lemma_root_deps(config.deep_view());
}

/// The version requirements of a workspace can be widened exactly where those of every
/// `package.json` in it can.
pub proof fn law_widenable_workspaces(workspace: &Workspace, r: bool)
    requires
        call_ensures(can_widen_workspace, (workspace,), r),
    ensures
        !r <==> exists|i: int|
            0 <= i < workspace.folders().len() && (
            #[trigger] workspace.folders()[i]).configs.pkg_json is Some && !has_widenable_deps(
                workspace.folders()[i].configs.pkg_json->0.deep_view(),
            ),
{
    let folders = workspace.folders();
    if !r {
        let i = choose|i: int|
            0 <= i < folders.len() && !is_widenable_folder((#[trigger] folders[i]).configs);
        assert(folders[i].configs.pkg_json is Some);
    }
    if exists|i: int|
        0 <= i < folders.len() && (#[trigger] folders[i]).configs.pkg_json is Some
            && !has_widenable_deps(folders[i].configs.pkg_json->0.deep_view()) {
        let i = choose|i: int|
            0 <= i < folders.len() && (#[trigger] folders[i]).configs.pkg_json is Some
                && !has_widenable_deps(folders[i].configs.pkg_json->0.deep_view());
        assert(!is_widenable_folder(folders[i].configs));
    }
}

/// Discovering a lockfile with its conditions checked gives what discovering it gives. It
/// gives nothing only where a text that is read is not readable, or a lockfile is there and
/// version requirements in the workspace cannot be widened.
pub proof fn law_checked_discovery(
    flags: &Flags,
    workspace: &Workspace,
    read: FileRead,
    source: Result<LockfileSource, CliError>,
    can_widen: bool,
    expected: Result<Option<CliLockfile>, CliError>,
    r: Option<Result<Option<CliLockfile>, CliError>>,
)
    requires
        call_ensures(discover_lockfile, (flags, workspace, read), r),
        call_ensures(CliLockfile::discover_source, (flags, workspace), source),
        call_ensures(can_widen_workspace, (workspace,), can_widen),
        call_ensures(CliLockfile::discover, (flags, workspace, read), expected),
    ensures
        source is Err ==> r is Some,
        source matches Ok(LockfileSource::Off) ==> r is Some,
        source matches Ok(LockfileSource::Fresh(_)) ==> (r is Some <==> can_widen),
        source matches Ok(LockfileSource::ReadFrom(_)) ==> {
            &&& read is NotFound ==> (r is Some <==> can_widen)
            &&& read is Failed ==> r is Some
            &&& read matches FileRead::Text(text) ==> {
                &&& !is_readable(text@) ==> r is None
                &&& is_readable(text@) && can_widen ==> r is Some
                &&& r is None ==> !is_readable(text@) || !can_widen
            }
        },
        r matches Some(outcome) ==> {
            &&& outcome is Ok <==> expected is Ok
            &&& outcome is Err ==> outcome->Err_0@ == expected->Err_0@
            &&& outcome is Ok ==> (outcome->Ok_0 is Some <==> expected->Ok_0 is Some)
            &&& outcome is Ok && outcome->Ok_0 is Some ==> {
                let found = outcome->Ok_0->0;
                let other = expected->Ok_0->0;
                &&& found.path() == other.path()
                &&& found.is_frozen() == other.is_frozen()
                &&& found.contents().overwrite == other.contents().overwrite
                &&& found.contents().changed == other.contents().changed
                &&& found.contents().content == other.contents().content
            }
        },
{
}

/// What is shown of a lockfile is what it is made of.
pub proof fn law_shown_lockfile(
    lockfile: Lockfile,
    frozen: bool,
    made: CliLockfile,
    path: &str,
    is_frozen: bool,
    overwrites: bool,
    changed: bool,
    inner: &Lockfile,
)
    requires
        call_ensures(CliLockfile::new, (lockfile, frozen), made),
        call_ensures(CliLockfile::filename, (&made,), path),
        call_ensures(CliLockfile::frozen, (&made,), is_frozen),
        call_ensures(CliLockfile::overwrite, (&made,), overwrites),
        call_ensures(CliLockfile::has_content_changed, (&made,), changed),
        call_ensures(CliLockfile::inner, (&made,), inner),
    ensures
        path@ == lockfile_contents(lockfile).path,
        is_frozen == frozen,
        overwrites == lockfile_contents(lockfile).overwrite,
        changed == lockfile_contents(lockfile).changed,
        lockfile_contents(*inner) == lockfile_contents(lockfile),
{
}

/// A lockfile is written out as its content is, and one without content in a fixed form.
/// The error on writing it names the cause.
pub proof fn law_written_out(
    lockfile: &CliLockfile,
    cause: &str,
    can_be_written: bool,
    error: CliError,
    r: String,
)
    requires
        call_ensures(CliLockfile::to_json, (lockfile,), r),
        call_ensures(CliLockfile::can_be_written, (lockfile,), can_be_written),
        call_ensures(write_error, (cause,), error),
    ensures
        r@ == lockfile_text(lockfile.contents().content),
        lockfile.contents().content == empty_content() ==> r@ == "{\n  \"version\": \"4\"\n}\n"@,
        can_be_written <==> (forall|text: Seq<char>| #[trigger]
            is_npm_id(lockfile.contents().content.packages, text) ==> can_be_cut(text, 1)) && (
        forall|text: Seq<char>| #[trigger]
            is_requirement(lockfile.contents().content.packages, text) ==> can_be_cut(text, 5)),
        error.message@ == "Failed writing lockfile."@ && error.cause.deep_view() == Some(cause@),
{
}

} // verus!
