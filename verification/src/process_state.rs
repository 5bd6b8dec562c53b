//! What a process inherits from the one that started it.

use deno_npm::resolution::{
    SerializedNpmResolutionSnapshot, ValidSerializedNpmResolutionSnapshot,
};
use serde_json::Value;
use vstd::prelude::*;

use crate::error::CliError;
use crate::json::{
    as_array, as_object, as_text, copy_value, entries_of, entry, find_entry, find_object, is_null,
    is_simple, items_of, json_contents, json_text, json_value, null_value, object_at, object_value,
    parse_value, text_value, write_value, JsonView,
};
use crate::packages::{
    find_reference_requirement, lemma_reference_requirement_is_part, reference_requirement,
};
use crate::text::{goes_behind, is_digit, lemma_part_of_part, same_text};
use crate::versions::{check_npm_beyond, holds_largest, lemma_plain_requirement, npm_goes_beyond};

verus! {

/// A snapshot of npm packages as it was received.
#[verifier::external_type_specification]
#[verifier::external_body]
pub struct ExSerializedNpmResolutionSnapshot(
    deno_npm::resolution::SerializedNpmResolutionSnapshot,
);

/// A snapshot of npm packages that counts as checked.
#[verifier::external_type_specification]
#[verifier::external_body]
pub struct ExValidSerializedNpmResolutionSnapshot(
    deno_npm::resolution::ValidSerializedNpmResolutionSnapshot,
);

/// What identifies an npm package: its name, its version, and the packages that it
/// was resolved beside.
pub ghost struct PackageIdView {
    pub name: Seq<char>,
    pub major: nat,
    pub minor: nat,
    pub patch: nat,
    pub pre: Seq<Seq<char>>,
    pub build: Seq<Seq<char>>,
    pub peers: Seq<PackageIdView>,
}

/// The packages of a snapshot, by their identifiers.
pub ghost struct SnapshotView {
    /// The packages that the snapshot holds.
    pub packages: Set<PackageIdView>,
    /// The packages that the snapshot's requirements and dependencies lead to.
    pub referenced: Set<PackageIdView>,
}

/// Whether a part of a version is a word of letters, digits and hyphens.
pub open spec fn is_version_part(part: Seq<char>) -> bool {
    part.len() > 0 && forall|i: int|
        0 <= i < part.len() ==> is_digit(#[trigger] part[i]) || 'a' <= part[i] <= 'z' || 'A'
            <= part[i] <= 'Z' || part[i] == '-'
}

/// Whether the versions of an identifier are made of such words.
pub open spec fn has_plain_versions(id: PackageIdView) -> bool
    decreases id,
{
    &&& forall|i: int| 0 <= i < id.pre.len() ==> is_version_part(#[trigger] id.pre[i])
    &&& forall|i: int| 0 <= i < id.build.len() ==> is_version_part(#[trigger] id.build[i])
    &&& forall|i: int| 0 <= i < id.peers.len() ==> has_plain_versions(#[trigger] id.peers[i])
}

/// Whether packages were resolved beside others no more than some levels deep.
pub open spec fn nests_within(id: PackageIdView, depth: int) -> bool
    decreases id,
{
    id.peers.len() == 0 || (depth > 0 && forall|i: int|
        0 <= i < id.peers.len() ==> nests_within(#[trigger] id.peers[i], depth - 1))
}

/// Whether the packages of a snapshot have such versions, and were resolved beside
/// others no more than forty levels deep.
pub open spec fn is_plain(snapshot: SnapshotView) -> bool {
    forall|id: PackageIdView|
        #![trigger snapshot.packages.contains(id)]
        #![trigger snapshot.referenced.contains(id)]
        snapshot.packages.contains(id) || snapshot.referenced.contains(id)
            ==> has_plain_versions(id) && nests_within(id, 40)
}

/// Whether a snapshot is another one, but for requirements that it may lack.
pub open spec fn holds_packages_of(found: SnapshotView, snapshot: SnapshotView) -> bool {
    &&& found.packages == snapshot.packages
    &&& found.referenced.subset_of(snapshot.referenced)
}

/// The packages of a snapshot.
pub uninterp spec fn snapshot_packages(snapshot: SerializedNpmResolutionSnapshot) -> SnapshotView;

/// The packages of a snapshot that counts as checked.
pub uninterp spec fn valid_snapshot_packages(
    snapshot: ValidSerializedNpmResolutionSnapshot,
) -> SnapshotView;

/// Whether a snapshot holds every package that it refers to.
pub open spec fn is_complete(snapshot: SnapshotView) -> bool {
    snapshot.referenced.subset_of(snapshot.packages)
}

/// `SerializedNpmResolutionSnapshot::into_valid` of `deno_npm::resolution`, on a
/// copy: succeeds exactly on a complete snapshot, which it hands back as it is.
/// Which of several missing packages the message speaks of is left open.
#[verifier::external_body]
fn validate_snapshot(snapshot: &SerializedNpmResolutionSnapshot) -> (r: Result<
    ValidSerializedNpmResolutionSnapshot,
    String,
>)
    ensures
        r is Ok <==> is_complete(snapshot_packages(*snapshot)),
        r matches Ok(valid) ==> valid_snapshot_packages(valid) == snapshot_packages(*snapshot),
{
    snapshot.clone().into_valid().map_err(|error| error.to_string())
}

/// Where npm packages come from.
#[derive(Debug)]
pub enum NpmProcessStateKind {
    /// The packages of a snapshot.
    Snapshot(SerializedNpmResolutionSnapshot),
    /// The packages that the user put into `node_modules`.
    Byonm,
}

/// The state of npm that a process was started with.
#[derive(Debug)]
pub struct NpmProcessState {
    pub kind: NpmProcessStateKind,
    pub local_node_modules_path: Option<String>,
}

/// Where npm packages come from, as it is passed between processes.
pub ghost enum StoredKind {
    /// The packages of a snapshot, which is written as JSON.
    Snapshot(JsonView),
    Byonm,
}

/// What a value says on where npm packages come from.
pub open spec fn kind_in(value: JsonView) -> Option<StoredKind> {
    match value {
        JsonView::Text(text) => if text == "Byonm"@ {
            Some(StoredKind::Byonm)
        } else {
            None
        },
        JsonView::Object(entries) => if entries.len() != 1 {
            None
        } else if entries[0].0 == "Snapshot"@ {
            Some(StoredKind::Snapshot(entries[0].1))
        } else if entries[0].0 == "Byonm"@ && entries[0].1 is Null {
            Some(StoredKind::Byonm)
        } else {
            None
        },
        _ => None,
    }
}

/// A path that may be missing.
pub open spec fn path_in(value: JsonView) -> Option<Option<Seq<char>>> {
    match value {
        JsonView::Text(path) => Some(Some(path)),
        JsonView::Null => Some(None),
        _ => None,
    }
}

/// The state of npm that a value holds: its entries by name, or in order.
pub open spec fn state_in(value: JsonView) -> Option<(StoredKind, Option<Seq<char>>)> {
    let (kind, path) = match value {
        JsonView::Object(entries) => (
            (match entry(entries, "kind"@) {
                Some(kind) => kind_in(kind),
                None => None,
            }),
            (match entry(entries, "local_node_modules_path"@) {
                Some(path) => path_in(path),
                None => Some(None),
            }),
        ),
        JsonView::Array(items) => if items.len() == 2 {
            (kind_in(items[0]), path_in(items[1]))
        } else {
            (None, None)
        },
        _ => (None, None),
    };
    match (kind, path) {
        (Some(kind), Some(path)) => Some((kind, path)),
        _ => None,
    }
}

/// The state of npm that a text holds.
pub open spec fn stored_state(text: Seq<char>) -> Option<(StoredKind, Option<Seq<char>>)> {
    match json_value(text) {
        Some(value) => state_in(value),
        None => None,
    }
}

/// The packages of the snapshot that a value is; nothing where it is none.
pub uninterp spec fn snapshot_in(json: JsonView) -> Option<SnapshotView>;

/// The requirements of a snapshot, by its JSON: its entries by name, or in order.
pub open spec fn requirements_of(json: JsonView) -> Seq<(Seq<char>, JsonView)> {
    match json {
        JsonView::Object(entries) => object_at(entries, "root_packages"@),
        JsonView::Array(items) => if items.len() > 0 {
            match items[0] {
                JsonView::Object(entries) => entries,
                _ => Seq::empty(),
            }
        } else {
            Seq::empty()
        },
        _ => Seq::empty(),
    }
}

/// Whether a requirement on a package can be read: it does not go beyond the
/// largest version number.
pub open spec fn is_readable_requirement(requirement: Seq<char>) -> bool {
    reference_requirement(requirement) matches Some(version) ==> !npm_goes_beyond(version)
}

/// Whether the requirements of a snapshot can be read.
pub open spec fn is_readable_snapshot(json: JsonView) -> bool {
    forall|i: int|
        0 <= i < requirements_of(json).len() ==> is_readable_requirement(
            (#[trigger] requirements_of(json)[i]).0,
        )
}

/// `serde_json::to_value` of a
/// `deno_npm::resolution::SerializedNpmResolutionSnapshot`. The value holds no
/// numbers; an identifier lies at most four levels deep in it, and takes two more for
/// each level of packages that it was resolved beside. If the value reads back, it
/// holds the same packages: an identifier is written by its name and version, which
/// the versions' grammar gives back part by part. Two requirements that are
/// written alike become one. That each requirement reads back is left unsaid: it is
/// written in a normalized form, which nothing ties to the grammar that reads it.
#[verifier::external_body]
fn snapshot_to_value(snapshot: &SerializedNpmResolutionSnapshot) -> (r: Value)
    ensures
        is_plain(snapshot_packages(*snapshot)) ==> is_simple(json_contents(r), 98),
        is_plain(snapshot_packages(*snapshot)) ==> (snapshot_in(json_contents(r)) matches Some(found)
            ==> holds_packages_of(found, snapshot_packages(*snapshot))),
{
    serde_json::to_value(snapshot).unwrap()
}

/// `serde_json::from_value` into a
/// `deno_npm::resolution::SerializedNpmResolutionSnapshot`: whether the value is one,
/// and its packages, depend on the value alone. The parser of requirements adds one
/// to a number of a version that it widens, which the largest number does not admit.
#[verifier::external_body]
fn snapshot_from_value(value: Value) -> (r: Option<SerializedNpmResolutionSnapshot>)
    requires
        is_readable_snapshot(json_contents(value)),
    ensures
        snapshot_in(json_contents(value)) == (match r {
            Some(snapshot) => Some(snapshot_packages(snapshot)),
            None => None,
        }),
{
    serde_json::from_value(value).ok()
}

fn list_requirements(json: &Value) -> (r: Vec<(String, Value)>)
    ensures
        entries_of(r@) == requirements_of(json_contents(*json)),
{
    if let Some(entries) = as_object(json) {
        return find_object(&entries, "root_packages");
    }
    if let Some(items) = as_array(json) {
        assert(items_of(items@).len() == items.len());
        if items.len() > 0 {
            assert(items_of(items@)[0] == json_contents(items@[0]));
            if let Some(entries) = as_object(&items[0]) {
                return entries;
            }
        }
    }
    let r: Vec<(String, Value)> = Vec::new();
    assert(entries_of(r@) == Seq::<(Seq<char>, JsonView)>::empty());
    r
}

fn check_snapshot(json: &Value) -> (r: bool)
    ensures
        r == is_readable_snapshot(json_contents(*json)),
{
    let requirements: Vec<(String, Value)> = list_requirements(json);
    let ghost view = requirements_of(json_contents(*json));
    let mut i: usize = 0;
    while i < requirements.len()
        invariant
            i <= requirements.len(),
            view == entries_of(requirements@),
            view == requirements_of(json_contents(*json)),
            forall|k: int| 0 <= k < i ==> is_readable_requirement((#[trigger] view[k]).0),
        decreases requirements.len() - i,
    {
        assert(view[i as int].0 == requirements@[i as int].0@);
        let is_readable: bool = match find_reference_requirement(requirements[i].0.as_str()) {
            Some(version) => !check_npm_beyond(version.as_str()),
            None => true,
        };
        if !is_readable {
            return false;
        }
        i = i + 1;
    }
    true
}

fn read_kind(value: &Value) -> (r: Option<Option<Value>>)
    ensures
        kind_in(json_contents(*value)) == (match r {
            Some(Some(snapshot)) => Some(StoredKind::Snapshot(json_contents(snapshot))),
            Some(None) => Some(StoredKind::Byonm),
            None => None,
        }),
{
    if let Some(text) = as_text(value) {
        return if same_text(text.as_str(), "Byonm") {
            Some(None)
        } else {
            None
        };
    }
    if let Some(entries) = as_object(value) {
        assert(entries_of(entries@).len() == entries.len());
        if entries.len() == 1 {
            assert(entries_of(entries@)[0] == (entries@[0].0@, json_contents(entries@[0].1)));
            if same_text(entries[0].0.as_str(), "Snapshot") {
                return Some(Some(copy_value(&entries[0].1)));
            }
            if same_text(entries[0].0.as_str(), "Byonm") && is_null(&entries[0].1) {
                return Some(None);
            }
        }
    }
    None
}

fn read_path(value: &Value) -> (r: Option<Option<String>>)
    ensures
        path_in(json_contents(*value)) == (match r {
            Some(path) => Some(path.deep_view()),
            None => None,
        }),
{
    if let Some(path) = as_text(value) {
        return Some(Some(path));
    }
    if is_null(value) {
        Some(None)
    } else {
        None
    }
}

/// What a value says on where packages come from, and on the path. The first is a
/// snapshot by its JSON, or nothing for the user's own packages.
fn read_state(value: &Value) -> (r: Option<(Option<Value>, Option<String>)>)
    ensures
        state_in(json_contents(*value)) == (match r {
            Some((Some(snapshot), path)) => Some(
                (StoredKind::Snapshot(json_contents(snapshot)), path.deep_view()),
            ),
            Some((None, path)) => Some((StoredKind::Byonm, path.deep_view())),
            None => None,
        }),
{
    let mut kind: Option<Option<Value>> = None;
    let mut path: Option<Option<String>> = None;
    if let Some(entries) = as_object(value) {
        if let Some(i) = find_entry(&entries, "kind") {
            kind = read_kind(&entries[i].1);
        }
        path = match find_entry(&entries, "local_node_modules_path") {
            Some(i) => read_path(&entries[i].1),
            None => Some(None),
        };
    } else if let Some(items) = as_array(value) {
        assert(items_of(items@).len() == items.len());
        if items.len() == 2 {
            assert(items_of(items@)[0] == json_contents(items@[0]));
            assert(items_of(items@)[1] == json_contents(items@[1]));
            kind = read_kind(&items[0]);
            path = read_path(&items[1]);
        }
    }
    match (kind, path) {
        (Some(kind), Some(path)) => Some((kind, path)),
        _ => None,
    }
}

/// The value that a state of npm is written as.
pub open spec fn state_value(kind: StoredKind, path: Option<Seq<char>>) -> JsonView {
    JsonView::Object(
        seq![
            (
                "kind"@,
                (match kind {
                    StoredKind::Snapshot(json) => JsonView::Object(seq![("Snapshot"@, json)]),
                    StoredKind::Byonm => JsonView::Text("Byonm"@),
                }),
            ),
            (
                "local_node_modules_path"@,
                (match path {
                    Some(path) => JsonView::Text(path),
                    None => JsonView::Null,
                }),
            ),
        ],
    )
}

/// What is written of a state of npm reads as that state.
pub proof fn law_state_reads_back(kind: StoredKind, path: Option<Seq<char>>)
    ensures
        state_in(state_value(kind, path)) == Some((kind, path)),
{
    reveal_strlit("kind");
    reveal_strlit("local_node_modules_path");
    reveal_with_fuel(entry, 3);
    let entries = state_value(kind, path)->Object_0;
    assert(entries.last().0 == "local_node_modules_path"@);
    assert(entries.drop_last().last().0 == "kind"@);
    assert("kind"@.len() != "local_node_modules_path"@.len());
}

proof fn lemma_state_is_simple(kind: StoredKind, path: Option<Seq<char>>)
    requires
        kind matches StoredKind::Snapshot(json) ==> is_simple(json, 98),
    ensures
        is_simple(state_value(kind, path), 100),
{
    let entries = state_value(kind, path)->Object_0;
    assert(is_simple(entries[1].1, 99));
    if let StoredKind::Snapshot(json) = kind {
        let inner = entries[0].1->Object_0;
        assert(is_simple(inner[0].1, 98));
    }
    assert(is_simple(entries[0].1, 99));
}

/// Whether a text is what a state with a snapshot is written as, given the
/// snapshot's JSON: it reads as that state, and the JSON as the same packages, if it
/// reads as a snapshot at all.
pub open spec fn is_written_with(
    text: Seq<char>,
    json: JsonView,
    packages: SnapshotView,
    path: Option<Seq<char>>,
) -> bool {
    &&& text == json_text(state_value(StoredKind::Snapshot(json), path))
    &&& is_plain(packages) ==> {
        &&& stored_state(text) == Some((StoredKind::Snapshot(json), path))
        &&& snapshot_in(json) matches Some(found) ==> holds_packages_of(found, packages)
    }
}

/// What is read from a text that was written of a snapshot is that snapshot again,
/// with the same packages and the same path, and never the user's own packages. A
/// complete snapshot is read as a complete one.
pub proof fn law_written_state_is_held(
    text: Seq<char>,
    json: JsonView,
    packages: SnapshotView,
    path: Option<Seq<char>>,
    state: Option<NpmProcessState>,
)
    requires
        is_written_with(text, json, packages, path),
        is_plain(packages),
        is_held(state, text),
    ensures
        state matches Some(state) ==> {
            &&& state.kind matches NpmProcessStateKind::Snapshot(snapshot) && holds_packages_of(
                snapshot_packages(snapshot),
                packages,
            ) && (is_complete(packages) ==> is_complete(snapshot_packages(snapshot)))
            &&& state.local_node_modules_path.deep_view() == path
        },
{
}

/// Whether a state is the one that a text holds.
pub open spec fn is_held(state: Option<NpmProcessState>, text: Seq<char>) -> bool {
    match stored_state(text) {
        None => state is None,
        Some((StoredKind::Byonm, path)) => state is Some && state->0.kind is Byonm
            && state->0.local_node_modules_path.deep_view() == path,
        Some((StoredKind::Snapshot(json), path)) => match (
            if is_readable_snapshot(json) {
                snapshot_in(json)
            } else {
                None
            }
        ) {
            Some(packages) => state matches Some(state) && state.kind
                matches NpmProcessStateKind::Snapshot(snapshot) && snapshot_packages(snapshot)
                == packages && state.local_node_modules_path.deep_view() == path,
            None => state is None,
        },
    }
}

impl NpmProcessState {
    /// The state, written out for another process.
    pub fn to_json(&self) -> (r: String)
        ensures
            match self.kind {
                NpmProcessStateKind::Byonm => r@ == json_text(
                    state_value(StoredKind::Byonm, self.local_node_modules_path.deep_view()),
                ) && stored_state(r@) == Some(
                    (StoredKind::Byonm, self.local_node_modules_path.deep_view()),
                ),
                NpmProcessStateKind::Snapshot(snapshot) => exists|json: JsonView| #[trigger]
                    is_written_with(
                        r@,
                        json,
                        snapshot_packages(snapshot),
                        self.local_node_modules_path.deep_view(),
                    ),
            },
    {
        let ghost path = self.local_node_modules_path.deep_view();
        let path_value: Value = match &self.local_node_modules_path {
            Some(path) => text_value(path.as_str()),
            None => null_value(),
        };
        match &self.kind {
            NpmProcessStateKind::Byonm => {
                let value: Value = make_state(text_value("Byonm"), path_value);
                proof {
                    assert(json_contents(value)->Object_0 == state_value(
                        StoredKind::Byonm,
                        path,
                    )->Object_0);
                    law_state_reads_back(StoredKind::Byonm, path);
                    lemma_state_is_simple(StoredKind::Byonm, path);
                }
                write_value(&value)
            },
            NpmProcessStateKind::Snapshot(snapshot) => {
                let json: Value = snapshot_to_value(snapshot);
                let ghost view = json_contents(json);
                let mut inner: Vec<(String, Value)> = Vec::new();
                inner.push(("Snapshot".to_owned(), json));
                assert(entries_of(inner@) == seq![("Snapshot"@, view)]);
                let value: Value = make_state(object_value(inner), path_value);
                let r: String = write_value(&value);
                proof {
                    let kind = StoredKind::Snapshot(view);
                    assert(json_contents(value)->Object_0 == state_value(
                        kind,
                        path,
                    )->Object_0);
                    law_state_reads_back(kind, path);
                    if is_simple(view, 98) {
                        lemma_state_is_simple(kind, path);
                    }
                    assert(is_written_with(r@, view, snapshot_packages(*snapshot), path));
                }
                r
            },
        }
    }

    /// The state that a text holds. Nothing where the text is no state, or the
    /// snapshot in it cannot be read. Of entries with the same name the last counts.
    pub fn from_json(text: &str) -> (r: Option<NpmProcessState>)
        ensures
            is_held(r, text@),
    {
        let value: Value = match parse_value(text) {
            Some(value) => value,
            None => {
                return None;
            },
        };
        match read_state(&value) {
            Some((Some(json), path)) => {
                if !check_snapshot(&json) {
                    return None;
                }
                match snapshot_from_value(json) {
                    Some(snapshot) => Some(
                        NpmProcessState {
                            kind: NpmProcessStateKind::Snapshot(snapshot),
                            local_node_modules_path: path,
                        },
                    ),
                    None => None,
                }
            },
            Some((None, path)) => Some(
                NpmProcessState { kind: NpmProcessStateKind::Byonm, local_node_modules_path: path },
            ),
            None => None,
        }
    }
}

fn make_state(kind: Value, path: Value) -> (r: Value)
    ensures
        json_contents(r) == JsonView::Object(
            seq![
                ("kind"@, json_contents(kind)),
                ("local_node_modules_path"@, json_contents(path)),
            ],
        ),
{
    let ghost expected = seq![
        ("kind"@, json_contents(kind)),
        ("local_node_modules_path"@, json_contents(path)),
    ];
    let mut entries: Vec<(String, Value)> = Vec::new();
    entries.push(("kind".to_owned(), kind));
    entries.push(("local_node_modules_path".to_owned(), path));
    proof {
        reveal_strlit("kind");
        reveal_strlit("local_node_modules_path");
        assert(goes_behind("local_node_modules_path"@, "kind"@));
        assert(entries_of(entries@) == expected);
    }
    object_value(entries)
}

/// What a process inherits.
#[derive(Debug)]
pub struct ProcessState {
    /// Whether the features of the next major version are on.
    pub deno_future: bool,
    /// The state of npm, where the process was started with one.
    pub npm: Option<NpmProcessState>,
}

impl ProcessState {
    /// Whether packages come from the user's own `node_modules`.
    pub open spec fn is_byonm(&self) -> bool {
        self.npm matches Some(state) && state.kind is Byonm
    }

    /// Whether packages come from the user's own `node_modules`.
    pub fn uses_byonm(&self) -> (r: bool)
        ensures
            r == self.is_byonm(),
    {
        match &self.npm {
            Some(state) => match &state.kind {
                NpmProcessStateKind::Byonm => true,
                NpmProcessStateKind::Snapshot(_) => false,
            },
            None => false,
        }
    }

    /// The packages that the process was started with, if any; nothing where some
    /// are missing.
    pub open spec fn inherited_packages(&self) -> Option<Option<SnapshotView>> {
        match self.npm {
            Some(NpmProcessState { kind: NpmProcessStateKind::Snapshot(snapshot), .. }) =>
                if is_complete(snapshot_packages(snapshot)) {
                    Some(Some(snapshot_packages(snapshot)))
                } else {
                    None
                },
            _ => Some(None),
        }
    }

    /// The snapshot that the process was started with. An incomplete one is an
    /// error.
    pub fn npm_resolution_snapshot(&self) -> (r: Result<
        Option<ValidSerializedNpmResolutionSnapshot>,
        CliError,
    >)
        ensures
            match self.inherited_packages() {
                Some(Some(packages)) => r is Ok && r->Ok_0 is Some && valid_snapshot_packages(
                    r->Ok_0->0,
                ) == packages,
                Some(None) => r is Ok && r->Ok_0 is None,
                None => r is Err,
            },
    {
        if let Some(state) = &self.npm {
            if let NpmProcessStateKind::Snapshot(snapshot) = &state.kind {
                return match validate_snapshot(snapshot) {
                    Ok(valid) => Ok(Some(valid)),
                    Err(message) => Err(CliError::new(message.as_str())),
                };
            }
        }
        Ok(None)
    }
}

/// Packages are the user's own exactly where the inherited state says so.
pub proof fn law_uses_byonm(process: &ProcessState, r: bool)
    requires
        call_ensures(ProcessState::uses_byonm, (process,), r),
    ensures
        process.npm is None ==> !r,
        process.npm matches Some(state) ==> (r <==> state.kind is Byonm),
{
}

/// A process has the snapshot that it inherited if no package in it is missing, an error if
/// one is, and no snapshot if it inherited none.
pub proof fn law_inherited_snapshot(
    process: &ProcessState,
    r: Result<Option<ValidSerializedNpmResolutionSnapshot>, CliError>,
)
    requires
        call_ensures(ProcessState::npm_resolution_snapshot, (process,), r),
    ensures
        process.npm is None ==> r is Ok && r->Ok_0 is None,
        process.npm matches Some(state) ==> {
            &&& state.kind is Byonm ==> r is Ok && r->Ok_0 is None
            &&& state.kind matches NpmProcessStateKind::Snapshot(snapshot) ==> {
                let packages = snapshot_packages(snapshot);
                let is_missing = exists|id: PackageIdView| #[trigger]
                    packages.referenced.contains(id) && !packages.packages.contains(id);
                &&& is_missing ==> r is Err
                &&& !is_missing ==> r is Ok && r->Ok_0 is Some && valid_snapshot_packages(
                    r->Ok_0->0,
                ) == packages
            }
        },
{
    if let Some(state) = process.npm {
        if let NpmProcessStateKind::Snapshot(snapshot) = state.kind {
            let packages = snapshot_packages(snapshot);
            if !is_complete(packages) {
                let id = choose|id: PackageIdView|
                    packages.referenced.contains(id) && !packages.packages.contains(id);
                assert(packages.referenced.contains(id) && !packages.packages.contains(id));
            }
        }
    }
}

/// The object for the user's own packages with a path.
pub open spec fn own_packages_object(path: JsonView) -> JsonView {
    JsonView::Object(
        seq![("kind"@, JsonView::Text("Byonm"@)), ("local_node_modules_path"@, path)],
    )
}

/// The object with the JSON of a snapshot and a path.
pub open spec fn snapshot_object(json: JsonView, path: JsonView) -> JsonView {
    JsonView::Object(
        seq![
            ("kind"@, JsonView::Object(seq![("Snapshot"@, json)])),
            ("local_node_modules_path"@, path),
        ],
    )
}

/// The user's own packages are written as their name and the path; a snapshot is never
/// written so.
pub proof fn law_written_states(state: &NpmProcessState, path: JsonView, r: String)
    requires
        call_ensures(NpmProcessState::to_json, (state,), r),
        state.local_node_modules_path is None ==> path == JsonView::Null,
        state.local_node_modules_path matches Some(at) ==> path == JsonView::Text(at@),
    ensures
        state.kind is Byonm ==> r@ == json_text(own_packages_object(path)),
        state.kind is Snapshot ==> exists|json: JsonView|
            r@ == json_text(#[trigger] snapshot_object(json, path)),
{
    if let NpmProcessStateKind::Snapshot(snapshot) = state.kind {
        let json = choose|json: JsonView| #[trigger]
            is_written_with(
                r@,
                json,
                snapshot_packages(snapshot),
                state.local_node_modules_path.deep_view(),
            );
        let written = state_value(
            StoredKind::Snapshot(json),
            state.local_node_modules_path.deep_view(),
        );
        assert(written->Object_0 =~= snapshot_object(json, path)->Object_0);
        assert(r@ == json_text(snapshot_object(json, path)));
    } else {
        let written = state_value(StoredKind::Byonm, state.local_node_modules_path.deep_view());
        assert(written->Object_0 =~= own_packages_object(path)->Object_0);
        assert(r@ == json_text(own_packages_object(path)));
    }
}

/// A text that is no JSON holds no state. One that is an object holds the user's own
/// packages where its kind is their name, and a snapshot where its kind is an object with
/// the snapshot alone; the path is that of its entry, which may be missing or null. Any
/// other kind or path makes it no state.
pub proof fn law_read_states(text: &str, r: Option<NpmProcessState>)
    requires
        call_ensures(NpmProcessState::from_json, (text,), r),
    ensures
        json_value(text@) is None ==> r is None,
        json_value(text@) matches Some(JsonView::Object(entries)) ==> {
            let kind = entry(entries, "kind"@);
            let path = entry(entries, "local_node_modules_path"@);
            let has_path = path is None || path->0 is Null || path->0 is Text;
            &&& !has_path ==> r is None
            &&& kind is None ==> r is None
            &&& has_path && kind == Some(JsonView::Text("Byonm"@)) ==> r is Some && r->0.kind
                is Byonm
            &&& kind matches Some(JsonView::Text(name)) ==> name != "Byonm"@ ==> r is None
            &&& has_path ==> (kind matches Some(JsonView::Object(inner)) ==> inner.len() == 1
                && inner[0].0 == "Snapshot"@ ==> {
                let json = inner[0].1;
                &&& r is Some <==> is_readable_snapshot(json) && snapshot_in(json) is Some
                &&& r matches Some(state) ==> (state.kind matches NpmProcessStateKind::Snapshot(
                    snapshot,
                ) && Some(snapshot_packages(snapshot)) == snapshot_in(json))
            })
            &&& r matches Some(state) ==> {
                &&& path matches Some(JsonView::Text(at)) ==> state.local_node_modules_path is Some
                    && state.local_node_modules_path->0@ == at
                &&& !(path matches Some(JsonView::Text(_))) ==> state.local_node_modules_path is None
            }
        },
{
}

/// A snapshot can be read unless a requirement in it goes beyond the largest version
/// number, for which it has to hold that number.
pub proof fn law_readable_snapshots(json: JsonView)
    requires
        forall|i: int|
            0 <= i < requirements_of(json).len() ==> !holds_largest(
                (#[trigger] requirements_of(json)[i]).0,
            ),
    ensures
        is_readable_snapshot(json),
{
    assert forall|i: int| 0 <= i < requirements_of(json).len() implies is_readable_requirement(
        (#[trigger] requirements_of(json)[i]).0,
    ) by {
        let text = requirements_of(json)[i].0;
        if let Some(version) = reference_requirement(text) {
            lemma_reference_requirement_is_part(text);
            if holds_largest(version) {
                lemma_part_of_part(text, version, "18446744073709551615"@);
            }
            lemma_plain_requirement(version);
        }
    }
}

/// A state in the form of a list holds the kind and the path, in this order and nothing
/// else. A kind in the form of an object may name the user's own packages with null.
pub proof fn law_states_in_order(text: &str, r: Option<NpmProcessState>)
    requires
        call_ensures(NpmProcessState::from_json, (text,), r),
    ensures
        json_value(text@) matches Some(JsonView::Array(items)) ==> {
            &&& items.len() != 2 ==> r is None
            &&& items.len() == 2 && items[0] == JsonView::Text("Byonm"@) ==> {
                &&& items[1] is Null ==> r is Some && r->0.kind is Byonm
                    && r->0.local_node_modules_path is None
                &&& items[1] matches JsonView::Text(path) ==> r is Some && r->0.kind is Byonm
                    && r->0.local_node_modules_path is Some && r->0.local_node_modules_path->0@
                    == path
                &&& !(items[1] is Null) && !(items[1] is Text) ==> r is None
            }
        },
        !(json_value(text@) matches Some(JsonView::Array(_))) && !(json_value(
            text@,
        ) matches Some(JsonView::Object(_))) ==> r is None,
{
}

} // verus!
