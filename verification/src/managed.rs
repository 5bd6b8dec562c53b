//! The npm resolver that manages packages itself: which snapshot it starts
//! from, when packages are resolved, cached and installed, and what its state
//! is made of.

use std::sync::Arc;

use deno_npm::npm_rc::ResolvedNpmRc;
use deno_npm::resolution::{
    SerializedNpmResolutionSnapshot, ValidSerializedNpmResolutionSnapshot,
};
use deno_semver::package::{PackageNv, PackageReq};
use vstd::prelude::*;

use crate::cache_setting::CacheSetting;
use crate::error::CliError;
use crate::lockfile::CliLockfile;
use crate::npmrc::{is_known_registry, known_registries, resolved_npmrc};
use crate::process_state::{
    is_complete, snapshot_packages, valid_snapshot_packages, NpmProcessState, NpmProcessStateKind,
    ProcessState, SnapshotView,
};
use crate::specifier::ModuleSpecifier;
use crate::text::{concat2, concat3, has_prefix, starts_with_text};

verus! {

/// Where the snapshot that a resolver starts from comes from.
#[derive(Debug)]
pub enum CliNpmResolverManagedSnapshotOption {
    /// A lockfile.
    ResolveFromLockfile(Arc<CliLockfile>),
    /// The given snapshot, or none.
    Specified(Option<ValidSerializedNpmResolutionSnapshot>),
}

/// How to come by the snapshot that a resolver starts from.
#[derive(Debug)]
pub enum SnapshotSource {
    /// The snapshot is at hand, or there is none.
    Ready(Option<ValidSerializedNpmResolutionSnapshot>),
    /// The lockfile pins the packages.
    Lockfile(Arc<CliLockfile>),
}

/// How to come by the snapshot that a resolver starts from. A lockfile that is
/// written anew has nothing to start from.
pub fn resolve_snapshot(snapshot: CliNpmResolverManagedSnapshotOption) -> (r: SnapshotSource)
    ensures
        r == (match snapshot {
            CliNpmResolverManagedSnapshotOption::ResolveFromLockfile(lockfile) =>
                if lockfile.contents().overwrite {
                    SnapshotSource::Ready(None)
                } else {
                    SnapshotSource::Lockfile(lockfile)
                },
            CliNpmResolverManagedSnapshotOption::Specified(snapshot) => SnapshotSource::Ready(
                snapshot,
            ),
        }),
{
    match snapshot {
        CliNpmResolverManagedSnapshotOption::ResolveFromLockfile(lockfile) => {
            if lockfile.overwrite() {
                SnapshotSource::Ready(None)
            } else {
                SnapshotSource::Lockfile(lockfile)
            }
        },
        CliNpmResolverManagedSnapshotOption::Specified(snapshot) => SnapshotSource::Ready(snapshot),
    }
}

/// The snapshot that a resolver starts from, given what resolving the packages
/// of the lockfile led to.
pub fn snapshot_from_lockfile_outcome(
    lockfile: &CliLockfile,
    outcome: Result<ValidSerializedNpmResolutionSnapshot, String>,
) -> (r: Result<Option<ValidSerializedNpmResolutionSnapshot>, CliError>)
    ensures
        match outcome {
            Ok(snapshot) => r == Ok::<
                Option<ValidSerializedNpmResolutionSnapshot>,
                CliError,
            >(Some(snapshot)),
            Err(cause) => r is Err && r->Err_0@ == (
                "failed reading lockfile '"@ + lockfile.path() + "'"@,
                Some(cause@),
            ),
        },
{
    match outcome {
        Ok(snapshot) => Ok(Some(snapshot)),
        Err(cause) => {
            let message: String = concat3("failed reading lockfile '", lockfile.filename(), "'");
            Err(CliError::with_cause(message.as_str(), cause.as_str()))
        },
    }
}

/// The snapshot that the resolver of an editor starts from. There, an error
/// leads to no snapshot and a warning.
pub fn snapshot_or_warning(
    snapshot: Result<Option<ValidSerializedNpmResolutionSnapshot>, CliError>,
) -> (r: (Option<ValidSerializedNpmResolutionSnapshot>, Option<String>))
    ensures
        match snapshot {
            Ok(snapshot) => r.0 == snapshot && r.1 is None,
            Err(error) => r.0 is None && r.1.deep_view() == Some(
                "failed to resolve snapshot: "@ + error@.0,
            ),
        },
{
    match snapshot {
        Ok(snapshot) => (snapshot, None),
        Err(error) => (
            None,
            Some(concat2("failed to resolve snapshot: ", error.message.as_str())),
        ),
    }
}

/// What the cache of packages is set up with.
#[derive(Debug)]
pub struct NpmCachePlan {
    /// The directory that packages are cached in.
    pub root_dir: String,
    /// The registries that packages come from. The default registry is the
    /// first.
    pub registries: Vec<String>,
    pub cache_setting: CacheSetting,
    pub npmrc: Arc<ResolvedNpmRc>,
}

/// What the cache of packages is set up with: it knows every registry that
/// packages may come from.
pub fn create_cache(
    npm_global_cache_dir: String,
    cache_setting: CacheSetting,
    npmrc: Arc<ResolvedNpmRc>,
) -> (r: NpmCachePlan)
    ensures
        r.root_dir == npm_global_cache_dir,
        r.registries.len() > 0 && r.registries@[0]@ == resolved_npmrc(*npmrc).default_url,
        forall|url: Seq<char>|
            r.registries.deep_view().contains(url) <==> is_known_registry(
                resolved_npmrc(*npmrc),
                url,
            ),
        r.cache_setting == cache_setting,
        r.npmrc == npmrc,
{
    let registries: Vec<String> = known_registries(&npmrc);
    NpmCachePlan { root_dir: npm_global_cache_dir, registries, cache_setting, npmrc }
}

/// What adding package requirements led to: an outcome for each of them, and
/// one for the dependencies as a whole.
#[derive(Debug)]
pub struct AddPkgReqsResult<R> {
    pub results: Vec<R>,
    pub dependencies_result: Result<(), CliError>,
}

/// A stage in adding package requirements.
#[derive(Debug)]
pub enum AddStage<R> {
    /// The requirements are to be resolved.
    Resolve,
    /// The packages that they led to are to be cached.
    Cache(Vec<R>),
    /// Nothing is left to do.
    Done(AddPkgReqsResult<R>),
}

/// The first stage in adding package requirements. Without any there is nothing
/// to do.
pub fn add_package_reqs_raw<P, R>(packages: &Vec<P>) -> (r: AddStage<R>)
    ensures
        if packages.len() == 0 {
            r is Done && r->Done_0.results@ == Seq::<R>::empty() && r->Done_0.dependencies_result
                is Ok
        } else {
            r is Resolve
        },
{
    if packages.len() == 0 {
        AddStage::Done(AddPkgReqsResult { results: Vec::new(), dependencies_result: Ok(()) })
    } else {
        AddStage::Resolve
    }
}

/// The stage behind resolving: packages are cached only if their dependencies
/// could be resolved.
pub fn package_reqs_resolved<R>(result: AddPkgReqsResult<R>) -> (r: AddStage<R>)
    ensures
        r == (if result.dependencies_result is Ok {
            AddStage::Cache(result.results)
        } else {
            AddStage::Done(result)
        }),
{
    match result.dependencies_result {
        Ok(_) => AddStage::Cache(result.results),
        Err(error) => AddStage::Done(
            AddPkgReqsResult { results: result.results, dependencies_result: Err(error) },
        ),
    }
}

/// The stage behind caching, which decides over the dependencies.
pub fn packages_cached<R>(results: Vec<R>, cached: Result<(), CliError>) -> (r: AddStage<R>)
    ensures
        r == AddStage::Done(AddPkgReqsResult { results, dependencies_result: cached }),
{
    AddStage::Done(AddPkgReqsResult { results, dependencies_result: cached })
}

/// What adding package requirements led to as a whole.
pub fn add_package_reqs<R>(result: AddPkgReqsResult<R>) -> (r: Result<(), CliError>)
    ensures
        r == result.dependencies_result,
{
    result.dependencies_result
}

/// The stage behind setting the package requirements, which replaces those that
/// were there: they have been resolved, and no package is cached.
pub fn set_package_reqs<R>(resolved: Result<(), CliError>) -> (r: AddStage<R>)
    ensures
        r is Done && r->Done_0.results@ == Seq::<R>::empty() && r->Done_0.dependencies_result
            == resolved,
{
    AddStage::Done(AddPkgReqsResult { results: Vec::new(), dependencies_result: resolved })
}

/// A stage in finding the package that a module belongs to.
#[derive(Debug)]
pub enum PkgIdStage<F, I> {
    /// The package is to be found by its folder in the cache.
    Resolve(F),
    /// The package, if the module belongs to one.
    Done(Result<Option<I>, CliError>),
}

/// The stage behind looking for the folder in the cache that a module lies in:
/// only a module that lies in one belongs to a package.
pub fn resolve_pkg_id_from_specifier<F, I>(cache_folder: Result<Option<F>, CliError>) -> (r:
    PkgIdStage<F, I>)
    ensures
        r == (match cache_folder {
            Ok(Some(folder)) => PkgIdStage::<F, I>::Resolve(folder),
            Ok(None) => PkgIdStage::<F, I>::Done(Ok(None)),
            Err(error) => PkgIdStage::<F, I>::Done(Err(error)),
        }),
{
    match cache_folder {
        Ok(Some(folder)) => PkgIdStage::Resolve(folder),
        Ok(None) => PkgIdStage::Done(Ok(None)),
        Err(error) => PkgIdStage::Done(Err(error)),
    }
}

/// The stage behind finding a package by its folder, which decides.
pub fn pkg_id_resolved<F, I>(resolved: Result<I, CliError>) -> (r: PkgIdStage<F, I>)
    ensures
        r == PkgIdStage::<F, I>::Done(
            (match resolved {
                Ok(id) => Ok(Some(id)),
                Err(error) => Err(error),
            }),
        ),
{
    match resolved {
        Ok(id) => PkgIdStage::Done(Ok(Some(id))),
        Err(error) => PkgIdStage::Done(Err(error)),
    }
}

/// Whether the requirements of the top level `package.json` have to be added,
/// given whether they have been taken care of before: once, and only if one of
/// them cannot be resolved yet. `resolvable` says for each requirement whether it
/// can; without a `package.json` there are none.
pub open spec fn has_to_install(done: bool, resolvable: Option<Seq<bool>>) -> bool {
    resolvable is Some && !done && resolvable->0.contains(false)
}

/// Whether the requirements have been taken care of afterwards.
pub open spec fn is_done_after(done: bool, resolvable: Option<Seq<bool>>) -> bool {
    done || resolvable is Some
}

/// Whether the dependencies of the top level `package.json` have been taken care
/// of.
#[derive(Debug)]
pub struct TopLevelInstall {
    raised: bool,
}

impl TopLevelInstall {
    /// Whether they have been taken care of.
    pub closed spec fn is_done(&self) -> bool {
        self.raised
    }

    /// Nothing has been done yet.
    pub fn new() -> (r: TopLevelInstall)
        ensures
            !r.is_done(),
    {
        TopLevelInstall { raised: false }
    }

    /// Whether the requirements of the top level `package.json` have to be added
    /// now.
    pub fn ensure_top_level_package_json_install(&mut self, resolvable: Option<&Vec<bool>>) -> (r:
        bool)
        ensures
            r == has_to_install(old(self).is_done(), resolvable.deep_view()),
            final(self).is_done() == is_done_after(old(self).is_done(), resolvable.deep_view()),
    {
        let resolvable: &Vec<bool> = match resolvable {
            Some(resolvable) => resolvable,
            None => {
                return false;
            },
        };
        if self.raised {
            return false;
        }
        self.raised = true;
        any_false(resolvable)
    }
}

fn any_false(values: &Vec<bool>) -> (r: bool)
    ensures
        r == values.deep_view().contains(false),
{
    let mut i: usize = 0;
    while i < values.len()
        invariant
            i <= values.len(),
            forall|k: int| 0 <= k < i ==> #[trigger] values@[k],
        decreases values.len() - i,
    {
        if !values[i] {
            assert(values.deep_view()[i as int] == false);
            return true;
        }
        i = i + 1;
    }
    assert(forall|k: int| 0 <= k < values.len() ==> #[trigger] values.deep_view()[k] == values@[k]);
    false
}

/// What looking for the folder of a package led to.
#[derive(Clone, Copy, Debug, PartialEq, Eq, Structural)]
pub enum FolderLookup {
    /// The requirement leads to no package.
    NoPackage,
    /// The package has no folder.
    NoFolder,
    /// The package's folder, which may exist or not.
    Folder(bool),
}

/// Whether the folder of a package is cached.
pub fn is_pkg_req_folder_cached(lookup: FolderLookup) -> (r: bool)
    ensures
        r == (lookup == FolderLookup::Folder(true)),
{
    match lookup {
        FolderLookup::NoPackage => false,
        FolderLookup::NoFolder => false,
        FolderLookup::Folder(exists) => exists,
    }
}

/// Whether a module is in an npm package: its URL begins with that of the folder
/// that packages are in, which ends with a slash.
pub fn in_npm_package(specifier: &ModuleSpecifier, root_dir_url: &ModuleSpecifier) -> (r: bool)
    requires
        root_dir_url@.len() > 0 && root_dir_url@.last() == '/',
    ensures
        r == has_prefix(specifier@, root_dir_url@),
{
    starts_with_text(specifier.as_str(), root_dir_url.as_str())
}

/// `ValidSerializedNpmResolutionSnapshot::into_serialized` of
/// `deno_npm::resolution`: the same packages.
#[verifier::external_body]
fn serialized_snapshot(snapshot: ValidSerializedNpmResolutionSnapshot) -> (r:
    SerializedNpmResolutionSnapshot)
    ensures
        snapshot_packages(r) == valid_snapshot_packages(snapshot),
{
    snapshot.into_serialized()
}

/// Whether a state hands packages on to another process.
pub open spec fn passes_on(state: NpmProcessState, packages: SnapshotView) -> bool {
    state.kind matches NpmProcessStateKind::Snapshot(snapshot) && snapshot_packages(snapshot)
        == packages
}

/// The state of npm to start another process with: the packages that have been
/// resolved, and the local `node_modules` folder.
pub fn get_npm_process_state(
    snapshot: ValidSerializedNpmResolutionSnapshot,
    node_modules_path: Option<&str>,
) -> (r: NpmProcessState)
    ensures
        passes_on(r, valid_snapshot_packages(snapshot)),
        r.local_node_modules_path.deep_view() == node_modules_path.deep_view(),
{
    NpmProcessState {
        kind: NpmProcessStateKind::Snapshot(serialized_snapshot(snapshot)),
        local_node_modules_path: match node_modules_path {
            Some(path) => Some(path.to_owned()),
            None => None,
        },
    }
}

/// A requirement on a package.
#[verifier::external_type_specification]
#[verifier::external_body]
pub struct ExPackageReq(deno_semver::package::PackageReq);

/// The name and the version of a package.
#[verifier::external_type_specification]
#[verifier::external_body]
pub struct ExPackageNv(deno_semver::package::PackageNv);

/// A text that tells a requirement apart from those that differ from it.
pub uninterp spec fn req_identity(req: PackageReq) -> Seq<char>;

/// How two requirements are ordered: less than zero if the first goes before
/// the second, more than zero if it goes behind it.
pub uninterp spec fn req_order(a: Seq<char>, b: Seq<char>) -> int;

/// A requirement with the package that it was resolved to.
#[derive(Debug)]
pub struct PackageEntry {
    pub req: PackageReq,
    pub nv: PackageNv,
}

/// `deno_semver::package::PackageReq::cmp`: a total order on requirements, which
/// depends on them alone.
#[verifier::external_body]
fn goes_before(a: &PackageReq, b: &PackageReq) -> (r: bool)
    ensures
        r == (req_order(req_identity(*a), req_identity(*b)) < 0),
        r ==> req_order(req_identity(*b), req_identity(*a)) > 0,
        !r ==> req_order(req_identity(*b), req_identity(*a)) <= 0,
        r ==> forall|c: Seq<char>|
            #![trigger req_order(req_identity(*a), c)]
            req_order(req_identity(*b), c) <= 0 ==> req_order(req_identity(*a), c) < 0,
        !r ==> forall|c: Seq<char>|
            #![trigger req_order(c, req_identity(*a))]
            req_order(c, req_identity(*b)) <= 0 ==> req_order(c, req_identity(*a)) <= 0,
        !r ==> forall|c: Seq<char>|
            #![trigger req_order(req_identity(*a), c)]
            req_order(req_identity(*b), c) >= 0 ==> req_order(req_identity(*a), c) >= 0,
{
    a < b
}

/// Whether requirements stand in order.
pub open spec fn in_order(entries: Seq<PackageEntry>) -> bool {
    forall|i: int, j: int|
        #![trigger entries[i], entries[j]]
        0 <= i < j < entries.len() ==> req_order(
            req_identity(entries[i].req),
            req_identity(entries[j].req),
        ) <= 0 && req_order(
            req_identity(entries[j].req),
            req_identity(entries[i].req),
        ) >= 0
}

/// What the state of the resolver is made of, in the order in which it is
/// hashed: whether there is a local `node_modules` folder, and the resolved
/// requirements in order.
#[derive(Debug)]
pub struct CheckState {
    pub has_node_modules_path: bool,
    pub packages: Vec<PackageEntry>,
}

/// What the state of the resolver is made of. The requirements are put in order,
/// so that it does not matter in which order they are given.
pub fn check_state_hash(has_node_modules_path: bool, package_reqs: Vec<PackageEntry>) -> (r:
    CheckState)
    ensures
        r.has_node_modules_path == has_node_modules_path,
        in_order(r.packages@),
        r.packages@.to_multiset() == package_reqs@.to_multiset(),
{
    let ghost given = package_reqs@;
    let mut sorted: Vec<PackageEntry> = Vec::new();
    assert(given.take(0) =~= sorted@);
    for entry in it: package_reqs
        invariant
            it.seq() == given,
            in_order(sorted@),
            sorted@.to_multiset() == given.take(it.index()).to_multiset(),
    {
        let ghost i = it.index();
        assert(given.take(i + 1) == given.take(i).push(entry));
        proof {
            given.take(i).to_multiset_ensures();
        }
        insert_in_order(&mut sorted, entry);
    }
    assert(given.take(given.len() as int) == given);
    CheckState { has_node_modules_path, packages: sorted }
}

fn insert_in_order(sorted: &mut Vec<PackageEntry>, entry: PackageEntry)
    requires
        in_order(old(sorted)@),
    ensures
        in_order(final(sorted)@),
        final(sorted)@.to_multiset() == old(sorted)@.to_multiset().insert(entry),
{
    let ghost before = sorted@;
    let mut position: usize = sorted.len();
    while position > 0 && goes_before(&entry.req, &sorted[position - 1].req)
        invariant
            position <= sorted.len(),
            sorted@ == before,
            forall|k: int|
                position <= k < before.len() ==> req_order(
                    req_identity(entry.req),
                    req_identity((#[trigger] before[k]).req),
                ) < 0 && req_order(req_identity(before[k].req), req_identity(entry.req)) > 0,
        decreases position,
    {
        position = position - 1;
    }
    sorted.insert(position, entry);
    proof {
        vstd::seq_lib::to_multiset_insert(before, position as int, entry);
    }
}

/// Whether no two entries have the same requirement.
pub open spec fn has_distinct_reqs(entries: Seq<PackageEntry>) -> bool {
    forall|i: int, j: int|
        #![trigger entries[i], entries[j]]
        0 <= i < entries.len() && 0 <= j < entries.len() && i != j ==> req_order(
            req_identity(entries[i].req),
            req_identity(entries[j].req),
        ) != 0
}

/// The state of a resolver is the same whichever order its requirements are
/// given in: the same entries, put in order, always make the same list.
pub proof fn law_check_state_is_deterministic(a: Seq<PackageEntry>, b: Seq<PackageEntry>)
    requires
        in_order(a),
        in_order(b),
        has_distinct_reqs(a),
        a.to_multiset() == b.to_multiset(),
    ensures
        a == b,
    decreases a.len(),
{
    a.to_multiset_ensures();
    b.to_multiset_ensures();
    if a.len() > 0 {
        let first = a[0];
        assert(a.contains(first));
        assert(b.to_multiset().count(first) > 0);
        assert(b.contains(first));
        assert(b.contains(b[0]));
        assert(a.to_multiset().count(b[0]) > 0);
        assert(a.contains(b[0]));
        let k = choose|k: int| 0 <= k < b.len() && b[k] == first;
        let m = choose|m: int| 0 <= m < a.len() && a[m] == b[0];
        assert(b[0] == first) by {
            if m > 0 {
                assert(a[0] == first && a[m] == b[0]);
                if k > 0 {
                    assert(b[0] == a[m] && b[k] == a[0]);
                    assert(req_order(req_identity(a[0].req), req_identity(a[m].req)) == 0);
                }
            }
        }
        assert(a.remove(0) == a.drop_first());
        assert(b.remove(0) == b.drop_first());
        let a_rest = a.drop_first();
        let b_rest = b.drop_first();
        assert forall|i: int, j: int|
            #![trigger a_rest[i], a_rest[j]]
            0 <= i < j < a_rest.len() implies req_order(
            req_identity(a_rest[i].req),
            req_identity(a_rest[j].req),
        ) <= 0 && req_order(
            req_identity(a_rest[j].req),
            req_identity(a_rest[i].req),
        ) >= 0 by {
            assert(a_rest[i] == a[i + 1] && a_rest[j] == a[j + 1]);
        }
        assert forall|i: int, j: int|
            #![trigger b_rest[i], b_rest[j]]
            0 <= i < j < b_rest.len() implies req_order(
            req_identity(b_rest[i].req),
            req_identity(b_rest[j].req),
        ) <= 0 && req_order(
            req_identity(b_rest[j].req),
            req_identity(b_rest[i].req),
        ) >= 0 by {
            assert(b_rest[i] == b[i + 1] && b_rest[j] == b[j + 1]);
        }
        assert forall|i: int, j: int|
            #![trigger a_rest[i], a_rest[j]]
            0 <= i < a_rest.len() && 0 <= j < a_rest.len() && i != j implies req_order(
            req_identity(a_rest[i].req),
            req_identity(a_rest[j].req),
        ) != 0 by {
            assert(a_rest[i] == a[i + 1] && a_rest[j] == a[j + 1]);
        }
        law_check_state_is_deterministic(a_rest, b_rest);
        assert(a == seq![a[0]] + a_rest);
        assert(b == seq![b[0]] + b_rest);
    } else {
        assert(b.len() == 0);
        assert(a == b);
    }
}

/// The top level dependencies are installed at most once: after a call that
/// finds a `package.json`, no later call asks for an installation.
pub proof fn law_top_level_install_happens_once(
    done: bool,
    first: Seq<bool>,
    later: Option<Seq<bool>>,
)
    ensures
        is_done_after(done, Some(first)),
        !has_to_install(is_done_after(done, Some(first)), later),
        is_done_after(is_done_after(done, Some(first)), later),
{
}

/// A process that is started with the state of another one starts from the
/// packages that the other had resolved, if none of them is missing.
pub proof fn law_packages_are_passed_on(process: ProcessState, packages: SnapshotView)
    requires
        process.npm matches Some(state) && passes_on(state, packages),
        is_complete(packages),
    ensures
        process.inherited_packages() == Some(Some(packages)),
{
}

/// A snapshot that is given is used as it is. A lockfile is read for one unless it is
/// written anew, in which case there is none.
pub proof fn law_snapshot_source(
    option: CliNpmResolverManagedSnapshotOption,
    r: SnapshotSource,
)
    requires
        call_ensures(resolve_snapshot, (option,), r),
    ensures
        option matches CliNpmResolverManagedSnapshotOption::Specified(snapshot) ==> r
            == SnapshotSource::Ready(snapshot),
        option matches CliNpmResolverManagedSnapshotOption::ResolveFromLockfile(lockfile) ==> {
            &&& lockfile.contents().overwrite ==> r == SnapshotSource::Ready(None)
            &&& !lockfile.contents().overwrite ==> r == SnapshotSource::Lockfile(lockfile)
        },
{
}

/// The packages that a lockfile pins are used where they could be resolved; otherwise
/// there is an error that names the lockfile and the cause. An editor goes on with a
/// warning in place of the error.
pub proof fn law_snapshot_of_lockfile(
    lockfile: &CliLockfile,
    outcome: Result<ValidSerializedNpmResolutionSnapshot, String>,
    r: Result<Option<ValidSerializedNpmResolutionSnapshot>, CliError>,
    shown: (Option<ValidSerializedNpmResolutionSnapshot>, Option<String>),
)
    requires
        call_ensures(snapshot_from_lockfile_outcome, (lockfile, outcome), r),
        call_ensures(snapshot_or_warning, (r,), shown),
    ensures
        outcome matches Ok(snapshot) ==> r is Ok && r->Ok_0 == Some(snapshot) && shown.0 == Some(
            snapshot,
        ) && shown.1 is None,
        outcome matches Err(cause) ==> {
            let message = "failed reading lockfile '"@ + lockfile.path() + "'"@;
            &&& r is Err && r->Err_0.message@ == message && r->Err_0.cause.deep_view() == Some(
                cause@,
            )
            &&& shown.0 is None && shown.1.deep_view() == Some(
                "failed to resolve snapshot: "@ + message,
            )
        },
{
}

/// A warning comes exactly with an error.
pub proof fn law_snapshot_or_warning(
    snapshot: Result<Option<ValidSerializedNpmResolutionSnapshot>, CliError>,
    r: (Option<ValidSerializedNpmResolutionSnapshot>, Option<String>),
)
    requires
        call_ensures(snapshot_or_warning, (snapshot,), r),
    ensures
        r.1 is Some <==> snapshot is Err,
        snapshot matches Ok(held) ==> r.0 == held,
        snapshot is Err ==> r.0 is None,
{
}

/// The cache is set up in the given directory and knows the default registry, which is
/// the first, the registries of the scopes, and no others.
pub proof fn law_cache_plan(
    dir: String,
    setting: CacheSetting,
    npmrc: Arc<ResolvedNpmRc>,
    r: NpmCachePlan,
)
    requires
        call_ensures(create_cache, (dir, setting, npmrc), r),
    ensures
        r.root_dir@ == dir@,
        r.cache_setting == setting,
        r.npmrc == npmrc,
        r.registries.len() > 0 && r.registries.deep_view()[0] == resolved_npmrc(*npmrc).default_url,
        forall|scope: Seq<char>| #[trigger]
            resolved_npmrc(*npmrc).scopes.contains_key(scope) ==> r.registries.deep_view().contains(
                resolved_npmrc(*npmrc).scopes[scope],
            ),
        forall|i: int|
            0 <= i < r.registries.len() ==> (#[trigger] r.registries@[i])@ == resolved_npmrc(
                *npmrc,
            ).default_url || resolved_npmrc(*npmrc).scopes.contains_value(r.registries@[i]@),
{
    assert(r.registries.deep_view()[0] == r.registries@[0]@);
    assert forall|scope: Seq<char>| #[trigger] resolved_npmrc(*npmrc).scopes.contains_key(
        scope,
    ) implies r.registries.deep_view().contains(resolved_npmrc(*npmrc).scopes[scope]) by {
        assert(resolved_npmrc(*npmrc).scopes.contains_value(resolved_npmrc(*npmrc).scopes[scope]));
        assert(is_known_registry(resolved_npmrc(*npmrc), resolved_npmrc(*npmrc).scopes[scope]));
    }
    assert forall|i: int| 0 <= i < r.registries.len() implies (#[trigger] r.registries@[i])@
        == resolved_npmrc(*npmrc).default_url || resolved_npmrc(*npmrc).scopes.contains_value(r.registries@[i]@) by {
        assert(r.registries.deep_view()[i] == r.registries@[i]@);
        assert(r.registries.deep_view().contains(r.registries@[i]@));
        assert(is_known_registry(resolved_npmrc(*npmrc), r.registries@[i]@));
    }
}

/// Requirements are resolved if there are any, packages are cached if their dependencies
/// could be resolved, and no result is lost on the way: what is left in the end is what
/// resolving gave, with the outcome of caching, or of resolving where that failed.
pub proof fn law_adding_packages<P, R>(
    packages: &Vec<P>,
    first: AddStage<R>,
    resolved: AddPkgReqsResult<R>,
    second: AddStage<R>,
    cached: Result<(), CliError>,
    third: AddStage<R>,
    whole: Result<(), CliError>,
)
    requires
        call_ensures(add_package_reqs_raw::<P, R>, (packages,), first),
        call_ensures(package_reqs_resolved::<R>, (resolved,), second),
        call_ensures(packages_cached::<R>, (resolved.results, cached), third),
        call_ensures(add_package_reqs::<R>, (resolved,), whole),
    ensures
        packages.len() > 0 ==> first is Resolve,
        packages.len() == 0 ==> first is Done && first->Done_0.results.len() == 0
            && first->Done_0.dependencies_result is Ok,
        resolved.dependencies_result is Ok ==> second is Cache && second->Cache_0
            == resolved.results,
        resolved.dependencies_result is Err ==> second is Done && second->Done_0 == resolved,
        third is Done && third->Done_0.results == resolved.results
            && third->Done_0.dependencies_result == cached,
        whole == resolved.dependencies_result,
{
}

/// Setting requirements is done once they are resolved: nothing is cached, and the
/// outcome of resolving is that of the whole.
pub proof fn law_setting_packages<R>(resolved: Result<(), CliError>, r: AddStage<R>)
    requires
        call_ensures(set_package_reqs::<R>, (resolved,), r),
    ensures
        r is Done && r->Done_0.results.len() == 0 && r->Done_0.dependencies_result == resolved,
{
}

/// A package is looked for exactly where a module lies in a folder of the cache. A module
/// outside belongs to no package, a package that is found is handed on, and every error
/// stands.
pub proof fn law_package_of_module<F, I>(
    folder: Result<Option<F>, CliError>,
    first: PkgIdStage<F, I>,
    found: Result<I, CliError>,
    second: PkgIdStage<F, I>,
)
    requires
        call_ensures(resolve_pkg_id_from_specifier::<F, I>, (folder,), first),
        call_ensures(pkg_id_resolved::<F, I>, (found,), second),
    ensures
        first is Resolve <==> folder is Ok && folder->Ok_0 is Some,
        folder matches Ok(Some(at)) ==> first == PkgIdStage::<F, I>::Resolve(at),
        folder matches Ok(None) ==> first is Done && first->Done_0 is Ok && first->Done_0->Ok_0
            is None,
        folder matches Err(error) ==> first is Done && first->Done_0 is Err
            && first->Done_0->Err_0 == error,
        found matches Ok(id) ==> second is Done && second->Done_0 is Ok && second->Done_0->Ok_0
            == Some(id),
        found matches Err(error) ==> second is Done && second->Done_0 is Err
            && second->Done_0->Err_0 == error,
{
}

/// The requirements of the top level `package.json` are added if there is such a file,
/// they have not been taken care of before, and one of them cannot be resolved. Without
/// the file nothing changes.
pub proof fn law_top_level_install(done: bool, resolvable: Option<Seq<bool>>)
    ensures
        has_to_install(done, resolvable) <==> !done && resolvable is Some && exists|i: int|
            0 <= i < resolvable->0.len() && !(#[trigger] resolvable->0[i]),
        resolvable is None ==> is_done_after(done, resolvable) == done,
        resolvable is Some ==> is_done_after(done, resolvable),
{
    if has_to_install(done, resolvable) {
        let i = choose|i: int| 0 <= i < resolvable->0.len() && resolvable->0[i] == false;
        assert(!resolvable->0[i]);
    }
    if resolvable is Some && exists|i: int|
        0 <= i < resolvable->0.len() && !(#[trigger] resolvable->0[i]) {
        let i = choose|i: int| 0 <= i < resolvable->0.len() && !(#[trigger] resolvable->0[i]);
        assert(resolvable->0[i] == false);
    }
}

/// A package's folder is cached exactly where there is a package, it has a folder, and
/// the folder exists.
pub proof fn law_cached_folder(lookup: FolderLookup, r: bool)
    requires
        call_ensures(is_pkg_req_folder_cached, (lookup,), r),
    ensures
        lookup is NoPackage ==> !r,
        lookup is NoFolder ==> !r,
        lookup matches FolderLookup::Folder(exists_there) ==> r == exists_there,
{
}

/// A module is in an npm package exactly where its URL is that of the packages' folder
/// with something behind it, or that URL itself.
pub proof fn law_in_npm_package(specifier: &ModuleSpecifier, root: &ModuleSpecifier, r: bool)
    requires
        call_ensures(in_npm_package, (specifier, root), r),
    ensures
        r <==> exists|rest: Seq<char>| specifier@ == #[trigger] (root@ + rest),
{
    if r {
        assert(specifier@ == root@ + specifier@.skip(root@.len() as int));
    }
    if exists|rest: Seq<char>| specifier@ == #[trigger] (root@ + rest) {
        let rest = choose|rest: Seq<char>| specifier@ == #[trigger] (root@ + rest);
        assert((root@ + rest).take(root@.len() as int) == root@);
    }
}

/// The state for another process holds the packages that have been resolved, as they
/// are, and the local `node_modules` folder; it never stands for the user's own packages.
pub proof fn law_state_for_processes(
    snapshot: ValidSerializedNpmResolutionSnapshot,
    path: Option<&str>,
    r: NpmProcessState,
)
    requires
        call_ensures(get_npm_process_state, (snapshot, path), r),
    ensures
        !(r.kind is Byonm),
        r.kind matches NpmProcessStateKind::Snapshot(held) && snapshot_packages(held)
            == valid_snapshot_packages(snapshot),
        path is None ==> r.local_node_modules_path is None,
        path matches Some(path) ==> r.local_node_modules_path is Some
            && r.local_node_modules_path->0@ == path@,
{
}

/// The state of a resolver holds every entry that is given, and no other, in order, and
/// whether there is a `node_modules` folder.
pub proof fn law_check_state(has_path: bool, entries: Vec<PackageEntry>, r: CheckState)
    requires
        call_ensures(check_state_hash, (has_path, entries), r),
    ensures
        r.has_node_modules_path == has_path,
        r.packages.len() == entries.len(),
        forall|entry: PackageEntry| r.packages@.contains(entry) <==> entries@.contains(entry),
        forall|i: int, k: int|
            #![trigger r.packages@[i], r.packages@[k]]
            0 <= i < k < r.packages.len() ==> req_order(
                req_identity(r.packages@[i].req),
                req_identity(r.packages@[k].req),
            ) <= 0,
{
    r.packages@.to_multiset_ensures();
    entries@.to_multiset_ensures();
    assert forall|entry: PackageEntry| r.packages@.contains(entry) <==> entries@.contains(entry) by {
        assert(r.packages@.contains(entry) <==> r.packages@.to_multiset().count(entry) > 0);
        assert(entries@.contains(entry) <==> entries@.to_multiset().count(entry) > 0);
    }
}

/// Asking for the installation of the top level dependencies takes care of them exactly
/// where there is a `package.json`, and calls for an installation where they had not been
/// taken care of and one of them cannot be resolved.
pub proof fn law_asking_for_installation(resolvable: Option<&Vec<bool>>, r: bool)
    ensures
        forall|install: &mut TopLevelInstall| #[trigger]
            call_ensures(
                TopLevelInstall::ensure_top_level_package_json_install,
                (install, resolvable),
                r,
            ) ==> {
                &&& resolvable is None ==> !r && final(install).is_done() == install.is_done()
                &&& resolvable is Some ==> final(install).is_done()
                &&& install.is_done() ==> !r
                &&& resolvable matches Some(list) ==> !install.is_done() ==> (r <==> exists|i: int|
                    0 <= i < list.len() && !(#[trigger] list@[i]))
            },
{
    if let Some(list) = resolvable {
        let view = list.deep_view();
        assert(forall|i: int| 0 <= i < list.len() ==> (#[trigger] view[i]) == list@[i]);
        if view.contains(false) {
            let i = choose|i: int| 0 <= i < view.len() && view[i] == false;
            assert(!list@[i]);
        }
        if exists|i: int| 0 <= i < list.len() && !(#[trigger] list@[i]) {
            let i = choose|i: int| 0 <= i < list.len() && !(#[trigger] list@[i]);
            assert(view[i] == false);
        }
    }
}

/// At first the top level dependencies have not been taken care of.
pub proof fn law_nothing_installed(r: TopLevelInstall)
    requires
        call_ensures(TopLevelInstall::new, (), r),
    ensures
        !r.is_done(),
{
}

} // verus!
