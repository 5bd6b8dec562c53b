//! `package.json` files and the dependencies that they name.

use deno_package_json::PackageJson;
use deno_package_json::PackageJsonDepValue as DepValue;
use serde_json::Value;
use vstd::prelude::*;

use crate::json::{as_object, entries_of, find_object, json_contents, object_at, JsonView};
use crate::packages::{find_last_at, last_at, law_last_at};
use crate::text::{chars_of, has_prefix, starts_with_text};
use crate::versions::{
    check_npm_beyond, holds_largest, law_largest_requirements, lemma_part_behind,
    lemma_plain_requirement, npm_goes_beyond,
};

verus! {

/// A loaded `package.json` file.
#[verifier::external_type_specification]
#[verifier::external_body]
pub struct ExPackageJson(deno_package_json::PackageJson);

/// What a `package.json` file says.
#[derive(Debug)]
pub struct PackageJsonFile {
    pub path: String,
    pub name: Option<String>,
    pub version: Option<String>,
    /// The dependencies: package names with what they are bound to.
    pub dependencies: Vec<(String, String)>,
    pub dev_dependencies: Vec<(String, String)>,
}

/// What a `package.json` file says.
pub ghost struct PackageJsonView {
    pub path: Seq<char>,
    pub name: Option<Seq<char>>,
    pub version: Option<Seq<char>>,
    pub dependencies: Seq<(Seq<char>, Seq<char>)>,
    pub dev_dependencies: Seq<(Seq<char>, Seq<char>)>,
}

impl DeepView for PackageJsonFile {
    type V = PackageJsonView;

    open spec fn deep_view(&self) -> PackageJsonView {
        PackageJsonView {
            path: self.path@,
            name: self.name.deep_view(),
            version: self.version.deep_view(),
            dependencies: self.dependencies.deep_view(),
            dev_dependencies: self.dev_dependencies.deep_view(),
        }
    }
}

/// A dependency of a `package.json`.
#[derive(Debug)]
pub enum DependencyValue {
    /// A requirement on an npm package.
    Req(String),
    /// A requirement on the version of a package of the workspace.
    Workspace(String),
    /// A dependency that could not be read, with the reason.
    Invalid(String),
}

/// A dependency of a `package.json`.
pub ghost enum DependencyView {
    Req(Seq<char>),
    Workspace(Seq<char>),
    Invalid(Seq<char>),
}

impl DeepView for DependencyValue {
    type V = DependencyView;

    open spec fn deep_view(&self) -> DependencyView {
        match *self {
            DependencyValue::Req(text) => DependencyView::Req(text@),
            DependencyValue::Workspace(text) => DependencyView::Workspace(text@),
            DependencyValue::Invalid(text) => DependencyView::Invalid(text@),
        }
    }
}

/// What a loaded `package.json` says.
pub uninterp spec fn package_json_contents(file: PackageJson) -> PackageJsonView;

/// What a `package.json` file at a path says, given the JSON that it holds.
pub uninterp spec fn loaded_package_json(path: Seq<char>, json: JsonView) -> PackageJsonView;

/// The dependencies that the entries of a `package.json` stand for.
pub uninterp spec fn package_json_values(
    dependencies: Seq<(Seq<char>, Seq<char>)>,
    dev_dependencies: Seq<(Seq<char>, Seq<char>)>,
) -> Seq<DependencyView>;

/// Whether a dependency leads elsewhere than to a registry, so that it is not
/// read as a version requirement.
pub open spec fn leads_elsewhere(value: Seq<char>) -> bool {
    has_prefix(value, "file:"@) || has_prefix(value, "git:"@) || has_prefix(value, "http:"@)
        || has_prefix(value, "https:"@)
}

/// The version requirement in the value of a dependency: behind the mark of a
/// package of the workspace, behind the name that an alias leads to, or the value
/// itself.
pub open spec fn dependency_requirement(value: Seq<char>) -> Option<Seq<char>> {
    if has_prefix(value, "workspace:"@) {
        Some(value.skip(10))
    } else if leads_elsewhere(value) {
        None
    } else if has_prefix(value, "npm:"@) {
        match last_at(value.skip(4)) {
            Some(at) if at > 0 => Some(value.skip(4).skip(at + 1)),
            _ => None,
        }
    } else {
        Some(value)
    }
}

/// Whether the version requirement in the value of a dependency can be widened:
/// it does not go beyond the largest number.
pub open spec fn is_widenable(value: Seq<char>) -> bool {
    dependency_requirement(value) matches Some(requirement) ==> !npm_goes_beyond(requirement)
}

/// Whether the version requirements in dependency entries can be widened.
pub open spec fn are_widenable(entries: Seq<(Seq<char>, Seq<char>)>) -> bool {
    forall|i: int| 0 <= i < entries.len() ==> is_widenable((#[trigger] entries[i]).1)
}

/// Whether the version requirements of a `package.json` can be widened.
pub open spec fn has_widenable_deps(file: PackageJsonView) -> bool {
    are_widenable(file.dependencies) && are_widenable(file.dev_dependencies)
}

/// Whether the version requirement in the value of a dependency can be widened.
pub fn can_be_widened(value: &str) -> (r: bool)
    ensures
        r == is_widenable(value@),
{
    proof {
        reveal_strlit("workspace:");
        reveal_strlit("npm:");
    }
    let length: usize = value.unicode_len();
    if starts_with_text(value, "workspace:") {
        let requirement: &str = value.substring_char(10, length);
        assert(requirement@ == value@.skip(10));
        return !check_npm_beyond(requirement);
    }
    if starts_with_text(value, "file:") || starts_with_text(value, "git:") || starts_with_text(
        value,
        "http:",
    ) || starts_with_text(value, "https:") {
        return true;
    }
    if !starts_with_text(value, "npm:") {
        return !check_npm_beyond(value);
    }
    let alias: &str = value.substring_char(4, length);
    assert(alias@ == value@.skip(4));
    match find_last_at(alias) {
        Some(at) => {
            if at == 0 {
                return true;
            }
            let requirement: &str = alias.substring_char(at + 1, length - 4);
            assert(requirement@ == alias@.skip(at + 1));
            !check_npm_beyond(requirement)
        },
        None => true,
    }
}

fn can_widen_entries(entries: &Vec<(String, String)>) -> (r: bool)
    ensures
        r == are_widenable(entries.deep_view()),
{
    let mut i: usize = 0;
    while i < entries.len()
        invariant
            i <= entries.len(),
            forall|k: int| 0 <= k < i ==> is_widenable((#[trigger] entries.deep_view()[k]).1),
        decreases entries.len() - i,
    {
        assert(entries.deep_view()[i as int].1 == entries@[i as int].1@);
        if !can_be_widened(entries[i].1.as_str()) {
            return false;
        }
        i = i + 1;
    }
    true
}

/// Whether the version requirements of a `package.json` can be widened.
pub fn can_widen_deps(file: &PackageJsonFile) -> (r: bool)
    ensures
        r == has_widenable_deps(file.deep_view()),
{
    can_widen_entries(&file.dependencies) && can_widen_entries(&file.dev_dependencies)
}

/// Whether a key of `exports` is a condition, and no path.
pub open spec fn is_condition(key: Seq<char>) -> bool {
    key.len() == 0 || key[0] != '.'
}

/// Whether the keys of `exports` in a `package.json` are all conditions or all paths.
pub open spec fn has_plain_exports(json: JsonView) -> bool {
    json matches JsonView::Object(entries) ==> {
        let exports = object_at(entries, "exports"@);
        forall|i: int, k: int|
            #![trigger exports[i], exports[k]]
            0 <= i < exports.len() && 0 <= k < exports.len() ==> is_condition(exports[i].0)
                == is_condition(exports[k].0)
    }
}

/// Whether the keys of `exports` in a `package.json` are all conditions or all paths.
pub fn check_exports(json: &Value) -> (r: bool)
    ensures
        r == has_plain_exports(json_contents(*json)),
{
    let entries: Vec<(String, Value)> = match as_object(json) {
        Some(entries) => entries,
        None => {
            return true;
        },
    };
    let exports: Vec<(String, Value)> = find_object(&entries, "exports");
    let ghost view = entries_of(exports@);
    let mut has_condition: bool = false;
    let mut has_path: bool = false;
    let mut i: usize = 0;
    while i < exports.len()
        invariant
            i <= exports.len(),
            view == entries_of(exports@),
            has_condition == exists|k: int| 0 <= k < i && is_condition((#[trigger] view[k]).0),
            has_path == exists|k: int| 0 <= k < i && !is_condition((#[trigger] view[k]).0),
        decreases exports.len() - i,
    {
        let key: Vec<char> = chars_of(exports[i].0.as_str());
        assert(view[i as int].0 == key@);
        if key.len() == 0 || key[0] != '.' {
            has_condition = true;
        } else {
            has_path = true;
        }
        i = i + 1;
    }
    !(has_condition && has_path)
}

/// `deno_package_json::PackageJson::load_from_value`: what the file at the path
/// says depends on the path and the JSON alone. It does not take conditions beside
/// paths in `exports`.
#[verifier::external_body]
pub(crate) fn load_package_json_value(path: &str, json: Value) -> (r: PackageJson)
    requires
        has_plain_exports(json_contents(json)),
    ensures
        package_json_contents(r) == loaded_package_json(path@, json_contents(json)),
        package_json_contents(r).path == path@,
{
    PackageJson::load_from_value(path.into(), json)
}

/// The fields of `deno_package_json::PackageJson`: what the file says.
#[verifier::external_body]
pub(crate) fn read_package_json(file: &PackageJson) -> (r: PackageJsonFile)
    ensures
        r.deep_view() == package_json_contents(*file),
{
    PackageJsonFile {
        path: file.path.display().to_string(),
        name: file.name.clone(),
        version: file.version.clone(),
        dependencies: file.dependencies.clone().into_iter().flatten().collect(),
        dev_dependencies: file.dev_dependencies.clone().into_iter().flatten().collect(),
    }
}

/// Entries with one more, which takes the place of an entry with the same name.
pub open spec fn put(
    entries: Seq<(Seq<char>, Seq<char>)>,
    entry: (Seq<char>, Seq<char>),
) -> Seq<(Seq<char>, Seq<char>)> {
    if exists|i: int| 0 <= i < entries.len() && (#[trigger] entries[i]).0 == entry.0 {
        let at = choose|i: int| 0 <= i < entries.len() && (#[trigger] entries[i]).0 == entry.0;
        entries.update(at, entry)
    } else {
        entries.push(entry)
    }
}

/// Entries of which the last counts where there are several with a name.
pub open spec fn merged(entries: Seq<(Seq<char>, Seq<char>)>) -> Seq<(Seq<char>, Seq<char>)>
    decreases entries.len(),
{
    if entries.len() == 0 {
        Seq::empty()
    } else {
        put(merged(entries.drop_last()), entries.last())
    }
}

/// What a `package.json` says once its entries are merged.
pub open spec fn merged_package_json(file: PackageJsonView) -> PackageJsonView {
    PackageJsonView {
        dependencies: merged(file.dependencies),
        dev_dependencies: merged(file.dev_dependencies),
        ..file
    }
}

proof fn lemma_merged_entries_are_widenable(entries: Seq<(Seq<char>, Seq<char>)>)
    requires
        are_widenable(entries),
    ensures
        are_widenable(merged(entries)),
    decreases entries.len(),
{
    if entries.len() > 0 {
        assert(entries.drop_last() == entries.take(entries.len() - 1));
        assert forall|i: int| 0 <= i < entries.drop_last().len() implies is_widenable(
            (#[trigger] entries.drop_last()[i]).1,
        ) by {
            assert(entries.drop_last()[i] == entries[i]);
        }
        lemma_merged_entries_are_widenable(entries.drop_last());
        assert(is_widenable(entries.last().1));
    }
}

/// A `package.json` that can be widened can be widened once its entries are merged.
pub(crate) proof fn lemma_merged_is_widenable(file: PackageJsonView)
    requires
        has_widenable_deps(file),
    ensures
        has_widenable_deps(merged_package_json(file)),
{
    lemma_merged_entries_are_widenable(file.dependencies);
    lemma_merged_entries_are_widenable(file.dev_dependencies);
}

/// `deno_package_json::PackageJson` with the fields of a file. Its dependencies are
/// maps that keep the order of the entries.
#[verifier::external_body]
pub(crate) fn load_package_json(file: &PackageJsonFile) -> (r: PackageJson)
    ensures
        package_json_contents(r) == merged_package_json(file.deep_view()),
{
    let mut loaded = PackageJson::load_from_value((&file.path).into(), Value::Null);
    loaded.name = file.name.clone();
    loaded.version = file.version.clone();
    loaded.dependencies = Some(file.dependencies.iter().cloned().collect());
    loaded.dev_dependencies = Some(file.dev_dependencies.iter().cloned().collect());
    loaded
}

/// `deno_package_json::PackageJson::resolve_local_package_json_deps`: the values
/// depend on the entries alone. The parser adds one to a number of a version that it
/// widens, which the largest number does not admit.
#[verifier::external_body]
pub(crate) fn resolve_package_json_deps(file: &PackageJson) -> (r: Vec<DependencyValue>)
    requires
        has_widenable_deps(package_json_contents(*file)),
    ensures
        r.deep_view() == package_json_values(
            package_json_contents(*file).dependencies,
            package_json_contents(*file).dev_dependencies,
        ),
{
    let values = file.resolve_local_package_json_deps().into_values();
    values.map(|value| match value {
        Ok(DepValue::Req(req)) => DependencyValue::Req(req.to_string()),
        Ok(DepValue::Workspace(req)) => DependencyValue::Workspace(req.to_string()),
        Err(error) => DependencyValue::Invalid(error.to_string()),
    }).collect()
}

/// The requirement in the value of a dependency: all of it behind the mark of a package of
/// the workspace; none of a value that leads elsewhere; what is behind the last `@` of an
/// alias, if a name stands before it; and otherwise the value itself.
pub proof fn law_requirements_of_values(value: Seq<char>, rest: Seq<char>)
    ensures
        value == "workspace:"@ + rest ==> dependency_requirement(value) == Some(rest),
        value == "file:"@ + rest || value == "git:"@ + rest || value == "http:"@ + rest || value
            == "https:"@ + rest ==> dependency_requirement(value) is None,
        value == "npm:"@ + rest ==> {
            &&& !rest.contains('@') ==> dependency_requirement(value) is None
            &&& dependency_requirement(value) matches Some(version) ==> !version.contains('@')
                && exists|name: Seq<char>|
                name.len() > 0 && rest == #[trigger] (name + seq!['@'] + version)
        },
        !has_prefix(value, "workspace:"@) && !has_prefix(value, "file:"@) && !has_prefix(
            value,
            "git:"@,
        ) && !has_prefix(value, "http:"@) && !has_prefix(value, "https:"@) && !has_prefix(
            value,
            "npm:"@,
        ) ==> dependency_requirement(value) == Some(value),
{
    reveal_strlit("workspace:");
    reveal_strlit("file:");
    reveal_strlit("git:");
    reveal_strlit("http:");
    reveal_strlit("https:");
    reveal_strlit("npm:");
    if value == "workspace:"@ + rest {
        assert(value.take(10) == "workspace:"@);
        assert(value.skip(10) == rest);
    }
    if value == "file:"@ + rest {
        assert(value.take(5) == "file:"@);
        assert(value[0] == 'f');
        assert(has_prefix(value, "workspace:"@) ==> value.take(10)[0] == 'w');
    }
    if value == "git:"@ + rest {
        assert(value.take(4) == "git:"@);
        assert(value[0] == 'g');
        assert(has_prefix(value, "workspace:"@) ==> value.take(10)[0] == 'w');
    }
    if value == "http:"@ + rest {
        assert(value.take(5) == "http:"@);
        assert(value[0] == 'h');
        assert(has_prefix(value, "workspace:"@) ==> value.take(10)[0] == 'w');
    }
    if value == "https:"@ + rest {
        assert(value.take(6) == "https:"@);
        assert(value[0] == 'h');
        assert(has_prefix(value, "workspace:"@) ==> value.take(10)[0] == 'w');
    }
    if value == "npm:"@ + rest {
        assert(value.take(4) == "npm:"@);
        assert(value.skip(4) == rest);
        assert(value[0] == 'n');
        assert(has_prefix(value, "workspace:"@) ==> value.take(10)[0] == 'w');
        assert(has_prefix(value, "file:"@) ==> value.take(5)[0] == 'f');
        assert(has_prefix(value, "git:"@) ==> value.take(4)[0] == 'g');
        assert(has_prefix(value, "http:"@) ==> value.take(5)[0] == 'h');
        assert(has_prefix(value, "https:"@) ==> value.take(6)[0] == 'h');
        law_last_at(rest);
        if let Some(at) = last_at(rest) {
            if at > 0 {
                let version = rest.skip(at + 1);
                assert(rest == rest.take(at) + seq!['@'] + version);
            }
        }
    }
}

/// A value that does not hold the largest version number can be widened, and one that is
/// that number cannot.
pub proof fn law_widenable_values(value: &str, r: bool)
    requires
        call_ensures(can_be_widened, (value,), r),
    ensures
        !holds_largest(value@) ==> r,
        value@ == "18446744073709551615"@ ==> !r,
{
    if !holds_largest(value@) {
        if let Some(requirement) = dependency_requirement(value@) {
            lemma_requirement_is_behind(value@);
            if holds_largest(requirement) {
                let from = value@.len() - requirement.len();
                assert(value@.skip(from) == requirement);
                lemma_part_behind(value@, from, "18446744073709551615"@);
            }
            lemma_plain_requirement(requirement);
        }
    }
    if value@ == "18446744073709551615"@ {
        lemma_largest_value();
    }
}

proof fn lemma_largest_value()
    ensures
        !is_widenable("18446744073709551615"@),
{
    reveal_strlit("18446744073709551615");
    reveal_strlit("workspace:");
    reveal_strlit("file:");
    reveal_strlit("git:");
    reveal_strlit("http:");
    reveal_strlit("https:");
    reveal_strlit("npm:");
    let value = "18446744073709551615"@;
    assert(value[0] == '1');
    assert(!has_prefix(value, "workspace:"@)) by {
        assert(value.take(10)[0] == '1');
    }
    assert(!has_prefix(value, "file:"@)) by {
        assert(value.take(5)[0] == '1');
    }
    assert(!has_prefix(value, "git:"@)) by {
        assert(value.take(4)[0] == '1');
    }
    assert(!has_prefix(value, "http:"@)) by {
        assert(value.take(5)[0] == '1');
    }
    assert(!has_prefix(value, "https:"@)) by {
        assert(value.take(6)[0] == '1');
    }
    assert(!has_prefix(value, "npm:"@)) by {
        assert(value.take(4)[0] == '1');
    }
    law_largest_requirements(Seq::empty());
    assert(value + Seq::<char>::empty() == value);
}

proof fn lemma_requirement_is_behind(value: Seq<char>)
    ensures
        dependency_requirement(value) matches Some(requirement) ==> requirement.len() <= value.len()
            && value.skip(value.len() - requirement.len()) == requirement,
{
    reveal_strlit("workspace:");
    reveal_strlit("npm:");
    if let Some(requirement) = dependency_requirement(value) {
        if has_prefix(value, "workspace:"@) {
            assert(value.skip(value.len() - requirement.len()) == requirement);
        } else if has_prefix(value, "npm:"@) {
            law_last_at(value.skip(4));
            assert(value.skip(value.len() - requirement.len()) == requirement);
        } else {
            assert(value.skip(0) == value);
        }
    }
}

/// A `package.json` can be widened exactly where each of its dependencies can.
pub proof fn law_widenable_files(file: &PackageJsonFile, r: bool)
    requires
        call_ensures(can_widen_deps, (file,), r),
    ensures
        r <==> (forall|i: int|
            0 <= i < file.dependencies.len() ==> is_widenable(
                (#[trigger] file.dependencies@[i]).1@,
            )) && (forall|i: int|
            0 <= i < file.dev_dependencies.len() ==> is_widenable(
                (#[trigger] file.dev_dependencies@[i]).1@,
            )),
{
    let deps = file.dependencies.deep_view();
    let dev = file.dev_dependencies.deep_view();
    assert(forall|i: int|
        0 <= i < deps.len() ==> (#[trigger] deps[i]).1 == file.dependencies@[i].1@);
    assert(forall|i: int|
        0 <= i < dev.len() ==> (#[trigger] dev[i]).1 == file.dev_dependencies@[i].1@);
    if !r {
        if !are_widenable(deps) {
            let i = choose|i: int| 0 <= i < deps.len() && !is_widenable((#[trigger] deps[i]).1);
            assert(!is_widenable(file.dependencies@[i].1@));
        } else {
            let i = choose|i: int| 0 <= i < dev.len() && !is_widenable((#[trigger] dev[i]).1);
            assert(!is_widenable(file.dev_dependencies@[i].1@));
        }
    } else {
        assert forall|i: int| 0 <= i < file.dependencies.len() implies is_widenable(
            (#[trigger] file.dependencies@[i]).1@,
        ) by {
            assert(is_widenable(deps[i].1));
        }
        assert forall|i: int| 0 <= i < file.dev_dependencies.len() implies is_widenable(
            (#[trigger] file.dev_dependencies@[i]).1@,
        ) by {
            assert(is_widenable(dev[i].1));
        }
    }
}

/// Exports are fine unless a condition and a path are among their keys.
pub proof fn law_plain_exports(json: &Value, r: bool)
    requires
        call_ensures(check_exports, (json,), r),
    ensures
        !(json_contents(*json) is Object) ==> r,
        json_contents(*json) matches JsonView::Object(entries) ==> {
            let exports = object_at(entries, "exports"@);
            !r <==> exists|i: int, k: int|
                #![trigger exports[i], exports[k]]
                0 <= i < exports.len() && 0 <= k < exports.len() && (exports[i].0.len() > 0
                    && exports[i].0[0] == '.') && !(exports[k].0.len() > 0 && exports[k].0[0]
                    == '.')
        },
{
    if let JsonView::Object(entries) = json_contents(*json) {
        let exports = object_at(entries, "exports"@);
        if !r {
            let (i, k) = choose|i: int, k: int|
                #![trigger exports[i], exports[k]]
                0 <= i < exports.len() && 0 <= k < exports.len() && is_condition(exports[i].0)
                    != is_condition(exports[k].0);
            if is_condition(exports[i].0) {
                assert(exports[k].0.len() > 0 && exports[k].0[0] == '.');
                assert(!(exports[i].0.len() > 0 && exports[i].0[0] == '.'));
            } else {
                assert(exports[i].0.len() > 0 && exports[i].0[0] == '.');
                assert(!(exports[k].0.len() > 0 && exports[k].0[0] == '.'));
            }
        }
        if exists|i: int, k: int|
            #![trigger exports[i], exports[k]]
            0 <= i < exports.len() && 0 <= k < exports.len() && (exports[i].0.len() > 0
                && exports[i].0[0] == '.') && !(exports[k].0.len() > 0 && exports[k].0[0] == '.') {
            let (i, k) = choose|i: int, k: int|
                #![trigger exports[i], exports[k]]
                0 <= i < exports.len() && 0 <= k < exports.len() && (exports[i].0.len() > 0
                    && exports[i].0[0] == '.') && !(exports[k].0.len() > 0 && exports[k].0[0]
                    == '.');
            assert(is_condition(exports[i].0) != is_condition(exports[k].0));
        }
    }
}

/// Merged entries have each name once, hold no other entries than those that are merged,
/// and hold the last entry of each name.
pub proof fn law_merged(entries: Seq<(Seq<char>, Seq<char>)>)
    ensures
        forall|i: int, k: int|
            #![trigger merged(entries)[i], merged(entries)[k]]
            0 <= i < k < merged(entries).len() ==> merged(entries)[i].0 != merged(entries)[k].0,
        forall|i: int|
            0 <= i < merged(entries).len() ==> entries.contains(#[trigger] merged(entries)[i]),
        entries.len() > 0 ==> merged(entries).contains(entries.last()),
    decreases entries.len(),
{
    if entries.len() > 0 {
        let front = entries.drop_last();
        law_merged(front);
        let before = merged(front);
        let all = merged(entries);
        let last = entries.last();
        assert(entries[entries.len() - 1] == last);
        let is_known = exists|i: int| 0 <= i < before.len() && (#[trigger] before[i]).0 == last.0;
        let at = if is_known {
            choose|i: int| 0 <= i < before.len() && (#[trigger] before[i]).0 == last.0
        } else {
            before.len() as int
        };
        assert(all[at] == last);
        assert(forall|i: int| 0 <= i < all.len() && i != at ==> (#[trigger] all[i]) == before[i]);
        assert forall|i: int| 0 <= i < all.len() implies entries.contains(#[trigger] all[i]) by {
            if i != at {
                assert(front.contains(before[i]));
                let k = choose|k: int| 0 <= k < front.len() && front[k] == before[i];
                assert(entries[k] == before[i]);
            }
        }
        assert forall|i: int, k: int|
            #![trigger all[i], all[k]]
            0 <= i < k < all.len() implies all[i].0 != all[k].0 by {
            if i != at && k != at {
                assert(before[i].0 != before[k].0);
            } else if i == at && k < before.len() {
                assert(before[i].0 != before[k].0);
            } else if k == at && is_known {
                assert(before[i].0 != before[k].0);
            }
        }
    }
}

} // verus!
