//! Which texts can be read as lockfiles: the identifiers of packages and the
//! requirements on them are cut behind their first or their fifth byte, which may
//! not be in the middle of a character.

use serde_json::Value;
use vstd::prelude::*;

use crate::json::{
    as_array, as_object, as_text, copy_value, entries_of, entry, find_entry, find_object, items_of,
    json_contents, json_object, json_value, object_at, parse_object, JsonView,
};
use crate::text::{
    chars_of, check_behind, concat2, concat3, goes_behind, has_prefix, same_text, starts_with_text,
};

verus! {

/// How many bytes a character takes.
pub open spec fn width(c: char) -> int {
    if (c as u32) < 0x80 {
        1
    } else if (c as u32) < 0x800 {
        2
    } else if (c as u32) < 0x10000 {
        3
    } else {
        4
    }
}

/// Whether a text can be cut behind a number of bytes, if it has as many: no
/// character goes across.
pub open spec fn can_be_cut(text: Seq<char>, bytes: int) -> bool
    decreases text.len(),
{
    if bytes <= 0 || text.len() == 0 {
        bytes >= 0
    } else {
        can_be_cut(text.drop_first(), bytes - width(text[0]))
    }
}

/// Whether all texts can be cut behind a number of bytes.
pub open spec fn all_can_be_cut(texts: Seq<Seq<char>>, bytes: int) -> bool {
    forall|i: int| 0 <= i < texts.len() ==> can_be_cut(#[trigger] texts[i], bytes)
}

/// Whether a text has fewer bytes than a number.
pub open spec fn is_shorter(text: Seq<char>, bytes: int) -> bool
    decreases text.len(),
{
    if bytes <= 0 || text.len() == 0 {
        bytes > 0
    } else {
        is_shorter(text.drop_first(), bytes - width(text[0]))
    }
}

/// What reading a part of a lockfile comes to.
#[derive(Clone, Copy, Debug, PartialEq, Eq, Structural)]
pub enum Step {
    Fine,
    /// The part is wrong, and nothing behind it is read.
    Wrong,
    /// A character is cut in two.
    Cut,
}

impl DeepView for Step {
    type V = Step;

    open spec fn deep_view(&self) -> Step {
        *self
    }
}

/// What a text comes to that is cut behind a number of bytes.
pub open spec fn text_step(text: Seq<char>, bytes: int, is_right: bool) -> Step {
    if !can_be_cut(text, bytes) {
        Step::Cut
    } else if is_right {
        Step::Fine
    } else {
        Step::Wrong
    }
}

/// Whether a step is taken before another: steps go by their keys, and those under
/// the same key as they stand.
pub open spec fn comes_before(steps: Seq<(Seq<char>, Step)>, first: int, second: int) -> bool {
    goes_behind(steps[second].0, steps[first].0) || (steps[first].0 == steps[second].0 && first
        < second)
}

/// Whether a step cuts a character in two, with nothing wrong before it.
pub open spec fn cuts_at(steps: Seq<(Seq<char>, Step)>, at: int) -> bool {
    steps[at].1 == Step::Cut && forall|i: int|
        0 <= i < steps.len() && (#[trigger] steps[i]).1 == Step::Wrong ==> !comes_before(
            steps,
            i,
            at,
        )
}

/// What steps come to together.
pub open spec fn taken(steps: Seq<(Seq<char>, Step)>) -> Step {
    if exists|at: int| 0 <= at < steps.len() && #[trigger] cuts_at(steps, at) {
        Step::Cut
    } else if forall|i: int| 0 <= i < steps.len() ==> (#[trigger] steps[i]).1 == Step::Fine {
        Step::Fine
    } else {
        Step::Wrong
    }
}

/// Where the version of an identifier starts: at its first `@` behind its first
/// character, from an index on.
pub open spec fn version_mark(id: Seq<char>, from: int) -> Option<int>
    decreases id.len() - from,
{
    if from >= id.len() {
        None
    } else if id[from] == '@' {
        Some(from)
    } else {
        version_mark(id, from + 1)
    }
}

/// The name in an identifier that has a version.
pub open spec fn id_name(id: Seq<char>) -> Option<Seq<char>> {
    match version_mark(id, 1) {
        Some(at) => Some(id.take(at)),
        None => None,
    }
}

/// The version in an identifier that has one.
pub open spec fn id_version(id: Seq<char>) -> Option<Seq<char>> {
    match version_mark(id, 1) {
        Some(at) => Some(id.skip(at + 1)),
        None => None,
    }
}

/// The version among identifiers that a name without one stands for: the last in
/// order.
pub open spec fn last_version(ids: Seq<Seq<char>>, name: Seq<char>) -> Option<Seq<char>>
    decreases ids.len(),
{
    if ids.len() == 0 {
        None
    } else {
        let before = last_version(ids.drop_last(), name);
        if id_name(ids.last()) != Some(name) {
            before
        } else {
            match before {
                Some(version) if goes_behind(version, id_version(ids.last())->0) => before,
                _ => id_version(ids.last()),
            }
        }
    }
}

/// What an identifier comes to, which is cut and has a version.
pub open spec fn id_step(id: Seq<char>) -> Step {
    text_step(id, 1, id_version(id) is Some)
}

/// What a version comes to: as an alias it holds an identifier.
pub open spec fn version_step(version: Seq<char>) -> Step {
    if has_prefix(version, "npm:"@) {
        id_step(version.skip(4))
    } else {
        Step::Fine
    }
}

/// What a dependency on one of the packages with some identifiers comes to. It is
/// cut; its version is its own, or that of the package.
pub open spec fn dep_step(ids: Seq<Seq<char>>, dep: Seq<char>) -> Step {
    if !can_be_cut(dep, 1) {
        Step::Cut
    } else {
        match id_version(dep) {
            Some(version) => version_step(version),
            None => match last_version(ids, dep) {
                Some(version) => version_step(version),
                None => Step::Wrong,
            },
        }
    }
}

/// What a requirement comes to, which is cut behind its scheme.
pub open spec fn requirement_step(requirement: Seq<char>) -> Step {
    text_step(requirement, 5, !is_shorter(requirement, 5))
}

/// What identifiers come to, in order.
pub open spec fn id_steps(ids: Seq<Seq<char>>) -> Seq<(Seq<char>, Step)> {
    ids.map_values(|id: Seq<char>| (id, id_step(id)))
}

/// What requirements come to, in order.
pub open spec fn requirement_steps(requirements: Seq<Seq<char>>) -> Seq<(Seq<char>, Step)> {
    requirements.map_values(|requirement: Seq<char>| (requirement, requirement_step(requirement)))
}

/// What the dependencies of a package come to.
pub open spec fn dep_steps(ids: Seq<Seq<char>>, id: Seq<char>, deps: Seq<Seq<char>>) -> Seq<
    (Seq<char>, Step),
> {
    deps.map_values(|dep: Seq<char>| (id, dep_step(ids, dep)))
}

/// What the dependencies of packages come to, by their packages.
pub open spec fn all_dep_steps(
    ids: Seq<Seq<char>>,
    packages: Seq<(Seq<char>, Seq<Seq<char>>)>,
) -> Seq<(Seq<char>, Step)>
    decreases packages.len(),
{
    if packages.len() == 0 {
        Seq::empty()
    } else {
        all_dep_steps(ids, packages.drop_last()) + dep_steps(
            ids,
            packages.last().0,
            packages.last().1,
        )
    }
}

/// The keys of an object.
pub open spec fn keys_of(entries: Seq<(Seq<char>, JsonView)>) -> Seq<Seq<char>> {
    entries.map_values(|entry: (Seq<char>, JsonView)| entry.0)
}

/// The texts in a list.
pub open spec fn texts_of(items: Seq<JsonView>) -> Seq<Seq<char>>
    decreases items.len(),
{
    if items.len() == 0 {
        Seq::empty()
    } else {
        match items.last() {
            JsonView::Text(text) => texts_of(items.drop_last()).push(text),
            _ => texts_of(items.drop_last()),
        }
    }
}

/// The texts in a value that is a list of texts.
pub open spec fn all_texts(value: JsonView) -> Option<Seq<Seq<char>>> {
    match value {
        JsonView::Array(items) => if texts_of(items).len() == items.len() {
            Some(texts_of(items))
        } else {
            None
        },
        _ => None,
    }
}

/// The dependencies that a package lists beside its checksum: in entries by name, or
/// in order. Nothing where the value is no package.
pub open spec fn listed_deps(package: JsonView) -> Option<Seq<Seq<char>>> {
    match package {
        JsonView::Object(entries) => if entry(entries, "integrity"@) matches Some(
            JsonView::Text(_),
        ) {
            match entry(entries, "dependencies"@) {
                Some(deps) => all_texts(deps),
                None => Some(Seq::empty()),
            }
        } else {
            None
        },
        JsonView::Array(items) => if items.len() == 1 && items[0] is Text {
            Some(Seq::empty())
        } else if items.len() == 2 && items[0] is Text {
            all_texts(items[1])
        } else {
            None
        },
        _ => None,
    }
}

/// Packages by their identifiers, with the dependencies that they list. Nothing where
/// one of the values is no package.
pub open spec fn listed_packages(entries: Seq<(Seq<char>, JsonView)>) -> Option<
    Seq<(Seq<char>, Seq<Seq<char>>)>,
>
    decreases entries.len(),
{
    if entries.len() == 0 {
        Some(Seq::empty())
    } else {
        match (listed_packages(entries.drop_last()), listed_deps(entries.last().1)) {
            (Some(before), Some(deps)) => Some(before.push((entries.last().0, deps))),
            _ => None,
        }
    }
}

/// The packages that a section holds. Nothing where it holds something else.
pub open spec fn packages_in(section: Option<JsonView>) -> Option<
    Seq<(Seq<char>, Seq<Seq<char>>)>,
> {
    match section {
        Some(JsonView::Object(entries)) => listed_packages(entries),
        Some(_) => None,
        None => Some(Seq::empty()),
    }
}

/// The identifiers of packages.
pub open spec fn ids_of(packages: Seq<(Seq<char>, Seq<Seq<char>>)>) -> Seq<Seq<char>> {
    packages.map_values(|package: (Seq<char>, Seq<Seq<char>>)| package.0)
}

/// How many identifiers have a name.
pub open spec fn count_named(ids: Seq<Seq<char>>, name: Seq<char>) -> int
    decreases ids.len(),
{
    if ids.len() == 0 {
        0
    } else {
        count_named(ids.drop_last(), name) + (if id_name(ids.last()) == Some(name) {
            1int
        } else {
            0
        })
    }
}

/// A dependency of an earlier version, under a name, as the current version lists
/// it: the name alone if there is one package of the name, the identifier if there
/// are more or none, or an alias. Nothing of an identifier without a version.
pub open spec fn current_dep(ids: Seq<Seq<char>>, name: Seq<char>, id: Seq<char>) -> Option<
    Seq<char>,
> {
    match id_name(id) {
        None => None,
        Some(id_name) => Some(
            if id_name != name {
                name + "@npm:"@ + id
            } else if count_named(ids, name) == 1 {
                name
            } else {
                id
            },
        ),
    }
}

/// Dependencies of an earlier version, by name, as the current version lists them.
pub open spec fn current_deps(ids: Seq<Seq<char>>, deps: Seq<(Seq<char>, JsonView)>) -> Seq<
    Seq<char>,
>
    decreases deps.len(),
{
    if deps.len() == 0 {
        Seq::empty()
    } else {
        let before = current_deps(ids, deps.drop_last());
        match deps.last().1 {
            JsonView::Text(id) => match current_dep(ids, deps.last().0, id) {
                Some(listed) => before.push(listed),
                None => before,
            },
            _ => before,
        }
    }
}

/// The dependencies of a package of an earlier version by name.
pub open spec fn named_deps(package: JsonView) -> Seq<(Seq<char>, JsonView)> {
    match package {
        JsonView::Object(entries) => object_at(entries, "dependencies"@),
        _ => Seq::empty(),
    }
}

/// The dependencies of a package of an earlier version, as the current version lists
/// them. Nothing where the value is no package.
pub open spec fn earlier_deps(ids: Seq<Seq<char>>, package: JsonView) -> Option<Seq<Seq<char>>> {
    match package {
        JsonView::Object(entries) => if entry(entries, "integrity"@) matches Some(
            JsonView::Text(_),
        ) {
            Some(current_deps(ids, named_deps(package)))
        } else {
            None
        },
        _ => listed_deps(package),
    }
}

/// Packages of an earlier version, as the current version lists them. Nothing where
/// one of the values is no package.
pub open spec fn earlier_packages(
    ids: Seq<Seq<char>>,
    entries: Seq<(Seq<char>, JsonView)>,
) -> Option<Seq<(Seq<char>, Seq<Seq<char>>)>>
    decreases entries.len(),
{
    if entries.len() == 0 {
        Some(Seq::empty())
    } else {
        match (earlier_packages(ids, entries.drop_last()), earlier_deps(ids, entries.last().1)) {
            (Some(before), Some(deps)) => Some(before.push((entries.last().0, deps))),
            _ => None,
        }
    }
}

/// What dependencies by name come to when they are taken over from an earlier
/// version, one behind the other.
pub open spec fn named_steps(deps: Seq<(Seq<char>, JsonView)>) -> Seq<(Seq<char>, Step)>
    decreases deps.len(),
{
    if deps.len() == 0 {
        Seq::empty()
    } else {
        match deps.last().1 {
            JsonView::Text(id) => named_steps(deps.drop_last()).push((Seq::empty(), id_step(id))),
            _ => named_steps(deps.drop_last()),
        }
    }
}

/// What the dependencies of npm packages come to when they are taken over from an
/// earlier version, one behind the other.
pub open spec fn all_named_steps(packages: Seq<(Seq<char>, JsonView)>) -> Seq<(Seq<char>, Step)>
    decreases packages.len(),
{
    if packages.len() == 0 {
        Seq::empty()
    } else {
        all_named_steps(packages.drop_last()) + named_steps(named_deps(packages.last().1))
    }
}

/// What npm packages come to when they are taken over from an earlier version.
pub open spec fn earlier_npm_step(packages: Seq<(Seq<char>, JsonView)>) -> Step {
    if all_can_be_cut(keys_of(packages), 1) {
        taken(all_named_steps(packages))
    } else {
        Step::Cut
    }
}

/// The requirements that a JSR package of an earlier version lists.
pub open spec fn jsr_deps(package: JsonView) -> Seq<Seq<char>> {
    match package {
        JsonView::Object(entries) => match entry(entries, "dependencies"@) {
            Some(JsonView::Array(items)) => texts_of(items),
            _ => Seq::empty(),
        },
        _ => Seq::empty(),
    }
}

/// Whether the requirements that JSR packages list can be cut behind their fifth
/// byte.
pub open spec fn have_cuttable_deps(packages: Seq<(Seq<char>, JsonView)>) -> bool {
    forall|i: int|
        0 <= i < packages.len() ==> all_can_be_cut(jsr_deps((#[trigger] packages[i]).1), 5)
}

/// Whether all entries are texts.
pub open spec fn are_texts(entries: Seq<(Seq<char>, JsonView)>) -> bool {
    forall|i: int| 0 <= i < entries.len() ==> (#[trigger] entries[i]).1 is Text
}

/// The requirements of a lockfile, and whether their section is an object of texts.
pub ghost struct RequirementsView {
    pub keys: Seq<Seq<char>>,
    pub are_right: bool,
}

/// The requirements that a section holds, if it is there.
pub open spec fn requirements_in(section: Option<JsonView>) -> Option<RequirementsView> {
    match section {
        Some(JsonView::Object(entries)) => Some(
            RequirementsView { keys: keys_of(entries), are_right: are_texts(entries) },
        ),
        Some(_) => Some(RequirementsView { keys: Seq::empty(), are_right: false }),
        None => None,
    }
}

/// Given requirements, else those of the current version's section.
pub open spec fn requirements_or(
    given: Option<RequirementsView>,
    top: Seq<(Seq<char>, JsonView)>,
) -> RequirementsView {
    match given {
        Some(given) => given,
        None => match requirements_in(entry(top, "specifiers"@)) {
            Some(own) => own,
            None => RequirementsView { keys: Seq::empty(), are_right: true },
        },
    }
}

/// What an earlier version holds on packages: npm packages, the requirements, and
/// JSR packages, as far as they are there.
pub ghost struct EarlierPackages {
    pub npm: Option<JsonView>,
    pub requirements: Option<RequirementsView>,
    pub jsr: Option<JsonView>,
}

/// The npm requirements of the second version, which lack their scheme.
pub open spec fn npm_requirements_of(entries: Seq<(Seq<char>, JsonView)>) -> Seq<Seq<char>>
    decreases entries.len(),
{
    if entries.len() == 0 {
        Seq::empty()
    } else {
        match entries.last().1 {
            JsonView::Text(_) => npm_requirements_of(entries.drop_last()).push(
                "npm:"@ + entries.last().0,
            ),
            _ => npm_requirements_of(entries.drop_last()),
        }
    }
}

/// What the third version holds on packages, in a section of their own.
pub open spec fn third_packages(top: Seq<(Seq<char>, JsonView)>) -> EarlierPackages {
    let packages = object_at(top, "packages"@);
    EarlierPackages {
        npm: entry(packages, "npm"@),
        requirements: requirements_in(entry(packages, "specifiers"@)),
        jsr: entry(packages, "jsr"@),
    }
}

/// What the second version holds on packages: npm packages in their own section,
/// else what the third version holds.
pub open spec fn second_packages(top: Seq<(Seq<char>, JsonView)>) -> EarlierPackages {
    match entry(top, "npm"@) {
        Some(JsonView::Object(npm)) => EarlierPackages {
            npm: entry(npm, "packages"@),
            requirements: if npm_requirements_of(object_at(npm, "specifiers"@)).len() > 0 {
                Some(
                    RequirementsView {
                        keys: npm_requirements_of(object_at(npm, "specifiers"@)),
                        are_right: true,
                    },
                )
            } else {
                None
            },
            jsr: None,
        },
        _ => third_packages(top),
    }
}

/// What npm packages come to.
pub open spec fn packages_step(packages: Seq<(Seq<char>, Seq<Seq<char>>)>) -> Step {
    match taken(id_steps(ids_of(packages))) {
        Step::Fine => taken(all_dep_steps(ids_of(packages), packages)),
        step => step,
    }
}

/// What sections of the current version come to: requirements, npm packages and JSR
/// packages, the latter two unless they are wrong. Requirements are only cut where
/// there are JSR packages.
pub open spec fn sections_step(
    requirements: RequirementsView,
    npm: Option<Seq<(Seq<char>, Seq<Seq<char>>)>>,
    jsr: Option<Seq<(Seq<char>, Seq<Seq<char>>)>>,
) -> Step {
    if !requirements.are_right || npm is None {
        Step::Wrong
    } else {
        match packages_step(npm->0) {
            Step::Fine => match jsr {
                Some(jsr) if jsr.len() > 0 => taken(requirement_steps(requirements.keys)),
                Some(_) => Step::Fine,
                None => Step::Wrong,
            },
            step => step,
        }
    }
}

/// What the sections of a lockfile of the current version come to.
pub open spec fn current_step(top: Seq<(Seq<char>, JsonView)>) -> Step {
    sections_step(
        requirements_or(None, top),
        packages_in(entry(top, "npm"@)),
        packages_in(entry(top, "jsr"@)),
    )
}

/// What JSR packages come to when they are taken over from an earlier version, with
/// its requirements.
pub open spec fn earlier_jsr_step(
    packages: Seq<(Seq<char>, JsonView)>,
    requirements: Option<RequirementsView>,
) -> Step {
    if (requirements matches Some(given) ==> all_can_be_cut(given.keys, 5)) && have_cuttable_deps(
        packages,
    ) {
        Step::Fine
    } else {
        Step::Cut
    }
}

/// What packages come to when they are taken over from an earlier version.
pub open spec fn taken_over_step(packages: EarlierPackages) -> Step {
    let npm = match packages.npm {
        Some(JsonView::Object(npm)) => earlier_npm_step(npm),
        _ => Step::Fine,
    };
    match (npm, packages.jsr) {
        (Step::Fine, Some(JsonView::Object(jsr))) => earlier_jsr_step(jsr, packages.requirements),
        _ => npm,
    }
}

/// The npm packages that an earlier version leads to: its own, or those of the
/// current version's section if that is kept.
pub open spec fn npm_taken_over(
    own: Option<JsonView>,
    top: Seq<(Seq<char>, JsonView)>,
    keeps_npm: bool,
) -> Option<Seq<(Seq<char>, Seq<Seq<char>>)>> {
    match own {
        Some(JsonView::Object(npm)) => earlier_packages(keys_of(npm), npm),
        _ => if keeps_npm {
            packages_in(entry(top, "npm"@))
        } else {
            Some(Seq::empty())
        },
    }
}

/// The JSR packages that an earlier version leads to: its own, or those of the
/// current version's section.
pub open spec fn jsr_taken_over(own: Option<JsonView>, top: Seq<(Seq<char>, JsonView)>) -> Option<
    Seq<(Seq<char>, Seq<Seq<char>>)>,
> {
    match own {
        Some(JsonView::Object(_)) => packages_in(own),
        _ => packages_in(entry(top, "jsr"@)),
    }
}

/// What a lockfile of an earlier version comes to, given what it holds on packages:
/// they are taken over, and what they lead to is read.
pub open spec fn earlier_step(
    top: Seq<(Seq<char>, JsonView)>,
    packages: EarlierPackages,
    keeps_npm: bool,
) -> Step {
    match taken_over_step(packages) {
        Step::Fine => sections_step(
            requirements_or(packages.requirements, top),
            npm_taken_over(packages.npm, top, keeps_npm),
            jsr_taken_over(packages.jsr, top),
        ),
        step => step,
    }
}

/// Whether a text can be read as a lockfile, or found to be none, without cutting a
/// character in two. The first version holds no packages.
pub open spec fn is_readable(text: Seq<char>) -> bool {
    match json_object(text) {
        None => true,
        Some(top) => match entry(top, "version"@) {
            Some(JsonView::Text(version)) => if version == "4"@ {
                current_step(top) != Step::Cut
            } else if version == "3"@ {
                earlier_step(top, third_packages(top), true) != Step::Cut
            } else if version == "2"@ {
                earlier_step(top, second_packages(top), false) != Step::Cut
            } else {
                true
            },
            _ => true,
        },
    }
}

fn width_of(c: char) -> (r: usize)
    ensures
        r == width(c),
{
    let code: u32 = c as u32;
    if code < 0x80 {
        1
    } else if code < 0x800 {
        2
    } else if code < 0x10000 {
        3
    } else {
        4
    }
}

/// Whether a text can be cut behind a number of bytes, if it has as many.
pub fn check_cut(text: &str, bytes: usize) -> (r: bool)
    ensures
        r == can_be_cut(text@, bytes as int),
{
    let chars: Vec<char> = chars_of(text);
    let mut left: usize = bytes;
    let mut i: usize = 0;
    assert(text@.skip(0) == text@);
    while i < chars.len() && left > 0
        invariant
            i <= chars.len(),
            chars@ == text@,
            can_be_cut(text@, bytes as int) == can_be_cut(text@.skip(i as int), left as int),
        decreases chars.len() - i,
    {
        let taken: usize = width_of(chars[i]);
        assert(text@.skip(i as int).drop_first() == text@.skip(i + 1));
        if taken > left {
            assert(!can_be_cut(text@.skip(i + 1), left - taken));
            return false;
        }
        left = left - taken;
        i = i + 1;
    }
    true
}

fn check_cuts(texts: &Vec<String>, bytes: usize) -> (r: bool)
    ensures
        r == all_can_be_cut(texts.deep_view(), bytes as int),
{
    let mut i: usize = 0;
    while i < texts.len()
        invariant
            i <= texts.len(),
            forall|k: int| 0 <= k < i ==> can_be_cut(#[trigger] texts.deep_view()[k], bytes as int),
        decreases texts.len() - i,
    {
        assert(texts.deep_view()[i as int] == texts@[i as int]@);
        if !check_cut(texts[i].as_str(), bytes) {
            return false;
        }
        i = i + 1;
    }
    true
}

/// The name and the version in an identifier that has a version.
fn split_id(id: &str) -> (r: Option<(String, String)>)
    ensures
        match r {
            Some((name, version)) => id_name(id@) == Some(name@) && id_version(id@) == Some(
                version@,
            ),
            None => id_name(id@) is None && id_version(id@) is None,
        },
{
    let chars: Vec<char> = chars_of(id);
    let mut i: usize = 1;
    while i < chars.len()
        invariant
            1 <= i,
            chars@ == id@,
            version_mark(id@, 1) == version_mark(id@, i as int),
        decreases chars.len() - i,
    {
        if chars[i] == '@' {
            let name: String = id.substring_char(0, i).to_owned();
            let version: String = id.substring_char(i + 1, chars.len()).to_owned();
            assert(name@ == id@.take(i as int));
            assert(version@ == id@.skip(i + 1));
            return Some((name, version));
        }
        i = i + 1;
    }
    None
}

/// Identifiers, split into their names and versions.
struct SplitIds {
    parts: Vec<Option<(String, String)>>,
    ids: Ghost<Seq<Seq<char>>>,
}

spec fn is_split(parts: Option<(String, String)>, id: Seq<char>) -> bool {
    match parts {
        Some((name, version)) => id_name(id) == Some(name@) && id_version(id) == Some(version@),
        None => id_name(id) is None && id_version(id) is None,
    }
}

impl SplitIds {
    #[verifier::type_invariant]
    spec fn are_split(self) -> bool {
        &&& self.parts.len() == self.ids@.len()
        &&& forall|i: int|
            0 <= i < self.parts.len() ==> is_split(#[trigger] self.parts@[i], self.ids@[i])
    }

    fn new(ids: &Vec<String>) -> (r: SplitIds)
        ensures
            r.ids@ == ids.deep_view(),
    {
        let mut parts: Vec<Option<(String, String)>> = Vec::new();
        let mut i: usize = 0;
        while i < ids.len()
            invariant
                i <= ids.len(),
                parts.len() == i,
                forall|k: int|
                    0 <= k < i ==> is_split(#[trigger] parts@[k], ids.deep_view()[k]),
            decreases ids.len() - i,
        {
            assert(ids.deep_view()[i as int] == ids@[i as int]@);
            parts.push(split_id(ids[i].as_str()));
            i = i + 1;
        }
        SplitIds { parts, ids: Ghost(ids.deep_view()) }
    }

    fn find_last_version(&self, name: &str) -> (r: Option<String>)
        ensures
            r.deep_view() == last_version(self.ids@, name@),
    {
        let wanted: String = name.to_owned();
        let mut found: Option<String> = None;
        let mut i: usize = 0;
        let ghost view = self.ids@;
        proof {
            use_type_invariant(self);
        }
        assert(view.take(0) == Seq::<Seq<char>>::empty());
        while i < self.parts.len()
            invariant
                i <= self.parts.len(),
                wanted@ == name@,
                view == self.ids@,
                self.are_split(),
                found.deep_view() == last_version(view.take(i as int), name@),
            decreases self.parts.len() - i,
        {
            assert(view.take(i + 1).drop_last() == view.take(i as int));
            assert(is_split(self.parts@[i as int], view.take(i + 1).last()));
            if let Some((id_name, version)) = &self.parts[i] {
                if *id_name == wanted {
                    let stays: bool = match &found {
                        Some(before) => check_behind(before.as_str(), version.as_str()),
                        None => false,
                    };
                    if !stays {
                        found = Some(version.clone());
                    }
                }
            }
            i = i + 1;
        }
        assert(view.take(i as int) == view);
        found
    }

    fn is_named_once(&self, name: &str) -> (r: bool)
        ensures
            r == (count_named(self.ids@, name@) == 1),
    {
        let wanted: String = name.to_owned();
        let mut count: usize = 0;
        let mut i: usize = 0;
        let ghost view = self.ids@;
        proof {
            use_type_invariant(self);
        }
        assert(view.take(0) == Seq::<Seq<char>>::empty());
        while i < self.parts.len()
            invariant
                i <= self.parts.len(),
                count <= i,
                wanted@ == name@,
                view == self.ids@,
                self.are_split(),
                count == count_named(view.take(i as int), name@),
            decreases self.parts.len() - i,
        {
            assert(view.take(i + 1).drop_last() == view.take(i as int));
            assert(is_split(self.parts@[i as int], view.take(i + 1).last()));
            if let Some((id_name, _)) = &self.parts[i] {
                if *id_name == wanted {
                    count = count + 1;
                }
            }
            i = i + 1;
        }
        assert(view.take(i as int) == view);
        count == 1
    }
}

fn check_shorter(text: &str, bytes: usize) -> (r: bool)
    ensures
        r == is_shorter(text@, bytes as int),
{
    let chars: Vec<char> = chars_of(text);
    let mut left: usize = bytes;
    let mut i: usize = 0;
    assert(text@.skip(0) == text@);
    while i < chars.len() && left > 0
        invariant
            i <= chars.len(),
            chars@ == text@,
            is_shorter(text@, bytes as int) == is_shorter(text@.skip(i as int), left as int),
        decreases chars.len() - i,
    {
        let width: usize = width_of(chars[i]);
        assert(text@.skip(i as int).drop_first() == text@.skip(i + 1));
        if width >= left {
            assert(!is_shorter(text@.skip(i + 1), left - width));
            return false;
        }
        left = left - width;
        i = i + 1;
    }
    left > 0
}

fn check_before(steps: &Vec<(String, Step)>, first: usize, second: usize) -> (r: bool)
    requires
        first < steps.len(),
        second < steps.len(),
    ensures
        r == comes_before(steps.deep_view(), first as int, second as int),
{
    assert(steps.deep_view()[first as int].0 == steps@[first as int].0@);
    assert(steps.deep_view()[second as int].0 == steps@[second as int].0@);
    let key: &str = steps[first].0.as_str();
    check_behind(steps[second].0.as_str(), key) || (first < second && same_text(
        key,
        steps[second].0.as_str(),
    ))
}

fn check_cuts_at(steps: &Vec<(String, Step)>, at: usize) -> (r: bool)
    requires
        at < steps.len(),
    ensures
        r == cuts_at(steps.deep_view(), at as int),
{
    let ghost view = steps.deep_view();
    assert(view[at as int].1 == steps@[at as int].1);
    if steps[at].1 != Step::Cut {
        return false;
    }
    let mut i: usize = 0;
    while i < steps.len()
        invariant
            i <= steps.len(),
            at < steps.len(),
            view == steps.deep_view(),
            forall|k: int|
                0 <= k < i && (#[trigger] view[k]).1 == Step::Wrong ==> !comes_before(
                    view,
                    k,
                    at as int,
                ),
        decreases steps.len() - i,
    {
        assert(view[i as int].1 == steps@[i as int].1);
        if steps[i].1 == Step::Wrong && check_before(steps, i, at) {
            return false;
        }
        i = i + 1;
    }
    true
}

fn take_steps(steps: &Vec<(String, Step)>) -> (r: Step)
    ensures
        r == taken(steps.deep_view()),
{
    let ghost view = steps.deep_view();
    let mut are_fine: bool = true;
    let mut i: usize = 0;
    while i < steps.len()
        invariant
            i <= steps.len(),
            view == steps.deep_view(),
            are_fine == forall|k: int| 0 <= k < i ==> (#[trigger] view[k]).1 == Step::Fine,
            forall|k: int| 0 <= k < i ==> !#[trigger] cuts_at(view, k),
        decreases steps.len() - i,
    {
        assert(view[i as int].1 == steps@[i as int].1);
        if check_cuts_at(steps, i) {
            return Step::Cut;
        }
        if steps[i].1 != Step::Fine {
            are_fine = false;
        }
        i = i + 1;
    }
    if are_fine {
        Step::Fine
    } else {
        Step::Wrong
    }
}

fn find_id_step(id: &str) -> (r: Step)
    ensures
        r == id_step(id@),
{
    if !check_cut(id, 1) {
        return Step::Cut;
    }
    match split_id(id) {
        Some(_) => Step::Fine,
        None => Step::Wrong,
    }
}

fn find_version_step(version: &str) -> (r: Step)
    ensures
        r == version_step(version@),
{
    proof {
        reveal_strlit("npm:");
    }
    if starts_with_text(version, "npm:") {
        let rest: &str = version.substring_char(4, version.unicode_len());
        assert(rest@ == version@.skip(4));
        find_id_step(rest)
    } else {
        Step::Fine
    }
}

fn find_dep_step(ids: &SplitIds, dep: &str) -> (r: Step)
    ensures
        r == dep_step(ids.ids@, dep@),
{
    if !check_cut(dep, 1) {
        return Step::Cut;
    }
    match split_id(dep) {
        Some((_, version)) => find_version_step(version.as_str()),
        None => match ids.find_last_version(dep) {
            Some(version) => find_version_step(version.as_str()),
            None => Step::Wrong,
        },
    }
}

fn find_requirement_step(requirement: &str) -> (r: Step)
    ensures
        r == requirement_step(requirement@),
{
    if !check_cut(requirement, 5) {
        Step::Cut
    } else if check_shorter(requirement, 5) {
        Step::Wrong
    } else {
        Step::Fine
    }
}

fn add_step(steps: &mut Vec<(String, Step)>, key: &str, step: Step)
    ensures
        final(steps).deep_view() == old(steps).deep_view().push((key@, step)),
{
    steps.push((key.to_owned(), step));
    assert(steps.deep_view() == old(steps).deep_view().push((key@, step)));
}

fn no_steps() -> (r: Vec<(String, Step)>)
    ensures
        r.deep_view() == Seq::<(Seq<char>, Step)>::empty(),
{
    let r: Vec<(String, Step)> = Vec::new();
    assert(r.deep_view() == Seq::<(Seq<char>, Step)>::empty());
    r
}

fn list_id_steps(ids: &Vec<String>) -> (r: Vec<(String, Step)>)
    ensures
        r.deep_view() == id_steps(ids.deep_view()),
{
    let ghost view = id_steps(ids.deep_view());
    let mut steps: Vec<(String, Step)> = no_steps();
    let mut i: usize = 0;
    assert(steps.deep_view() == view.take(0));
    while i < ids.len()
        invariant
            i <= ids.len(),
            view == id_steps(ids.deep_view()),
            steps.deep_view() == view.take(i as int),
        decreases ids.len() - i,
    {
        let id: &str = ids[i].as_str();
        assert(ids.deep_view()[i as int] == id@);
        add_step(&mut steps, id, find_id_step(id));
        assert(view.take(i + 1) == view.take(i as int).push(view[i as int]));
        i = i + 1;
    }
    assert(view.take(i as int) == view);
    steps
}

fn list_requirement_steps(requirements: &Vec<String>) -> (r: Vec<(String, Step)>)
    ensures
        r.deep_view() == requirement_steps(requirements.deep_view()),
{
    let ghost view = requirement_steps(requirements.deep_view());
    let mut steps: Vec<(String, Step)> = no_steps();
    let mut i: usize = 0;
    assert(steps.deep_view() == view.take(0));
    while i < requirements.len()
        invariant
            i <= requirements.len(),
            view == requirement_steps(requirements.deep_view()),
            steps.deep_view() == view.take(i as int),
        decreases requirements.len() - i,
    {
        let requirement: &str = requirements[i].as_str();
        assert(requirements.deep_view()[i as int] == requirement@);
        add_step(&mut steps, requirement, find_requirement_step(requirement));
        assert(view.take(i + 1) == view.take(i as int).push(view[i as int]));
        i = i + 1;
    }
    assert(view.take(i as int) == view);
    steps
}

fn add_dep_steps(steps: &mut Vec<(String, Step)>, ids: &SplitIds, id: &str, deps: &Vec<String>)
    ensures
        final(steps).deep_view() == old(steps).deep_view() + dep_steps(
            ids.ids@,
            id@,
            deps.deep_view(),
        ),
{
    let ghost view = dep_steps(ids.ids@, id@, deps.deep_view());
    let ghost start = steps.deep_view();
    let mut i: usize = 0;
    assert(start + view.take(0) == start);
    while i < deps.len()
        invariant
            i <= deps.len(),
            view == dep_steps(ids.ids@, id@, deps.deep_view()),
            steps.deep_view() == start + view.take(i as int),
        decreases deps.len() - i,
    {
        let dep: &str = deps[i].as_str();
        assert(deps.deep_view()[i as int] == dep@);
        add_step(steps, id, find_dep_step(ids, dep));
        assert(start + view.take(i + 1) == (start + view.take(i as int)).push(view[i as int]));
        i = i + 1;
    }
    assert(view.take(i as int) == view);
}

fn list_keys(entries: &Vec<(String, Value)>) -> (r: Vec<String>)
    ensures
        r.deep_view() == keys_of(entries_of(entries@)),
{
    let ghost view = keys_of(entries_of(entries@));
    let mut keys: Vec<String> = Vec::new();
    let mut i: usize = 0;
    assert(keys.deep_view() == view.take(0));
    while i < entries.len()
        invariant
            i <= entries.len(),
            view == keys_of(entries_of(entries@)),
            keys.deep_view() == view.take(i as int),
        decreases entries.len() - i,
    {
        let ghost before = keys.deep_view();
        let key: String = entries[i].0.clone();
        assert(view[i as int] == key@);
        keys.push(key);
        assert(keys.deep_view() == before.push(key@));
        assert(view.take(i + 1) == view.take(i as int).push(view[i as int]));
        i = i + 1;
    }
    assert(view.take(i as int) == view);
    keys
}

fn list_texts(items: &Vec<Value>) -> (r: Vec<String>)
    ensures
        r.deep_view() == texts_of(items_of(items@)),
{
    let ghost view = items_of(items@);
    let mut texts: Vec<String> = Vec::new();
    let mut i: usize = 0;
    assert(view.take(0) == Seq::<JsonView>::empty());
    assert(texts.deep_view() == Seq::<Seq<char>>::empty());
    while i < items.len()
        invariant
            i <= items.len(),
            view == items_of(items@),
            texts.deep_view() == texts_of(view.take(i as int)),
        decreases items.len() - i,
    {
        let ghost before = texts.deep_view();
        assert(view.take(i + 1).drop_last() == view.take(i as int));
        assert(view.take(i + 1).last() == json_contents(items@[i as int]));
        if let Some(text) = as_text(&items[i]) {
            texts.push(text);
            assert(texts.deep_view() == before.push(text@));
        }
        i = i + 1;
    }
    assert(view.take(i as int) == view);
    texts
}

fn list_all_texts(value: &Value) -> (r: Option<Vec<String>>)
    ensures
        r.deep_view() == all_texts(json_contents(*value)),
{
    match as_array(value) {
        Some(items) => {
            let texts: Vec<String> = list_texts(&items);
            assert(texts.deep_view().len() == texts.len());
            assert(items_of(items@).len() == items.len());
            if texts.len() == items.len() {
                Some(texts)
            } else {
                None
            }
        },
        None => None,
    }
}

fn no_texts() -> (r: Vec<String>)
    ensures
        r.deep_view() == Seq::<Seq<char>>::empty(),
{
    let r: Vec<String> = Vec::new();
    assert(r.deep_view() == Seq::<Seq<char>>::empty());
    r
}

fn has_integrity(entries: &Vec<(String, Value)>) -> (r: bool)
    ensures
        r == (entry(entries_of(entries@), "integrity"@) matches Some(JsonView::Text(_))),
{
    match find_entry(entries, "integrity") {
        Some(i) => as_text(&entries[i].1).is_some(),
        None => false,
    }
}

fn list_deps(package: &Value) -> (r: Option<Vec<String>>)
    ensures
        r.deep_view() == listed_deps(json_contents(*package)),
{
    if let Some(entries) = as_object(package) {
        if !has_integrity(&entries) {
            return None;
        }
        return match find_entry(&entries, "dependencies") {
            Some(i) => list_all_texts(&entries[i].1),
            None => Some(no_texts()),
        };
    }
    if let Some(items) = as_array(package) {
        assert(items_of(items@).len() == items.len());
        if items.len() == 0 || items.len() > 2 {
            return None;
        }
        assert(items_of(items@)[0] == json_contents(items@[0]));
        if as_text(&items[0]).is_none() {
            return None;
        }
        if items.len() == 2 {
            assert(items_of(items@)[1] == json_contents(items@[1]));
            return list_all_texts(&items[1]);
        }
        return Some(no_texts());
    }
    None
}

fn list_packages(entries: &Vec<(String, Value)>) -> (r: Option<Vec<(String, Vec<String>)>>)
    ensures
        r.deep_view() == listed_packages(entries_of(entries@)),
{
    let ghost view = entries_of(entries@);
    let mut packages: Option<Vec<(String, Vec<String>)>> = Some(Vec::new());
    let mut i: usize = 0;
    assert(view.take(0) == Seq::<(Seq<char>, JsonView)>::empty());
    assert(packages.deep_view()->0 == Seq::<(Seq<char>, Seq<Seq<char>>)>::empty());
    while i < entries.len()
        invariant
            i <= entries.len(),
            view == entries_of(entries@),
            packages.deep_view() == listed_packages(view.take(i as int)),
        decreases entries.len() - i,
    {
        assert(view.take(i + 1).drop_last() == view.take(i as int));
        assert(view.take(i + 1).last() == (entries@[i as int].0@, json_contents(
            entries@[i as int].1,
        )));
        packages = add_package(packages, entries[i].0.as_str(), list_deps(&entries[i].1));
        i = i + 1;
    }
    assert(view.take(i as int) == view);
    packages
}

/// Packages with one more behind them; nothing where there is nothing of either.
fn add_package(
    packages: Option<Vec<(String, Vec<String>)>>,
    id: &str,
    deps: Option<Vec<String>>,
) -> (r: Option<Vec<(String, Vec<String>)>>)
    ensures
        r.deep_view() == (match (packages.deep_view(), deps.deep_view()) {
            (Some(before), Some(deps)) => Some(before.push((id@, deps))),
            _ => None,
        }),
{
    match (packages, deps) {
        (Some(before), Some(deps)) => {
            let ghost view = before.deep_view();
            let ghost package = (id@, deps.deep_view());
            let mut packages: Vec<(String, Vec<String>)> = before;
            packages.push((id.to_owned(), deps));
            assert(packages.deep_view() == view.push(package));
            Some(packages)
        },
        _ => None,
    }
}

fn no_packages() -> (r: Vec<(String, Vec<String>)>)
    ensures
        r.deep_view() == Seq::<(Seq<char>, Seq<Seq<char>>)>::empty(),
{
    let r: Vec<(String, Vec<String>)> = Vec::new();
    assert(r.deep_view() == Seq::<(Seq<char>, Seq<Seq<char>>)>::empty());
    r
}

fn read_packages(entries: &Vec<(String, Value)>, key: &str) -> (r: Option<
    Vec<(String, Vec<String>)>,
>)
    ensures
        r.deep_view() == packages_in(entry(entries_of(entries@), key@)),
{
    match find_entry(entries, key) {
        Some(i) => match as_object(&entries[i].1) {
            Some(packages) => list_packages(&packages),
            None => None,
        },
        None => Some(no_packages()),
    }
}

fn name_deps(package: &Value) -> (r: Vec<(String, Value)>)
    ensures
        entries_of(r@) == named_deps(json_contents(*package)),
{
    match as_object(package) {
        Some(entries) => find_object(&entries, "dependencies"),
        None => {
            let r: Vec<(String, Value)> = Vec::new();
            assert(entries_of(r@) == Seq::<(Seq<char>, JsonView)>::empty());
            r
        },
    }
}

fn list_current_dep(ids: &SplitIds, name: &str, id: String) -> (r: Option<String>)
    ensures
        r.deep_view() == current_dep(ids.ids@, name@, id@),
{
    match split_id(id.as_str()) {
        Some((id_name, _)) => Some(
            if !same_text(id_name.as_str(), name) {
                concat3(name, "@npm:", id.as_str())
            } else if ids.is_named_once(name) {
                name.to_owned()
            } else {
                id
            },
        ),
        None => None,
    }
}

fn list_current_deps(ids: &SplitIds, deps: &Vec<(String, Value)>) -> (r: Vec<String>)
    ensures
        r.deep_view() == current_deps(ids.ids@, entries_of(deps@)),
{
    let ghost view = entries_of(deps@);
    let mut listed: Vec<String> = no_texts();
    let mut i: usize = 0;
    assert(view.take(0) == Seq::<(Seq<char>, JsonView)>::empty());
    while i < deps.len()
        invariant
            i <= deps.len(),
            view == entries_of(deps@),
            listed.deep_view() == current_deps(ids.ids@, view.take(i as int)),
        decreases deps.len() - i,
    {
        let ghost before = listed.deep_view();
        assert(view.take(i + 1).drop_last() == view.take(i as int));
        assert(view.take(i + 1).last() == (deps@[i as int].0@, json_contents(deps@[i as int].1)));
        if let Some(id) = as_text(&deps[i].1) {
            if let Some(dep) = list_current_dep(ids, deps[i].0.as_str(), id) {
                listed.push(dep);
                assert(listed.deep_view() == before.push(dep@));
            }
        }
        i = i + 1;
    }
    assert(view.take(i as int) == view);
    listed
}

fn list_earlier_deps(ids: &SplitIds, package: &Value) -> (r: Option<Vec<String>>)
    ensures
        r.deep_view() == earlier_deps(ids.ids@, json_contents(*package)),
{
    match as_object(package) {
        Some(entries) => if has_integrity(&entries) {
            Some(list_current_deps(ids, &name_deps(package)))
        } else {
            None
        },
        None => list_deps(package),
    }
}

fn list_earlier_packages(ids: &SplitIds, entries: &Vec<(String, Value)>) -> (r: Option<
    Vec<(String, Vec<String>)>,
>)
    ensures
        r.deep_view() == earlier_packages(ids.ids@, entries_of(entries@)),
{
    let ghost view = entries_of(entries@);
    let mut packages: Option<Vec<(String, Vec<String>)>> = Some(no_packages());
    let mut i: usize = 0;
    assert(view.take(0) == Seq::<(Seq<char>, JsonView)>::empty());
    while i < entries.len()
        invariant
            i <= entries.len(),
            view == entries_of(entries@),
            packages.deep_view() == earlier_packages(ids.ids@, view.take(i as int)),
        decreases entries.len() - i,
    {
        assert(view.take(i + 1).drop_last() == view.take(i as int));
        assert(view.take(i + 1).last() == (entries@[i as int].0@, json_contents(
            entries@[i as int].1,
        )));
        let deps: Option<Vec<String>> = list_earlier_deps(ids, &entries[i].1);
        packages = add_package(packages, entries[i].0.as_str(), deps);
        i = i + 1;
    }
    assert(view.take(i as int) == view);
    packages
}

fn add_named_steps(steps: &mut Vec<(String, Step)>, deps: &Vec<(String, Value)>)
    ensures
        final(steps).deep_view() == old(steps).deep_view() + named_steps(entries_of(deps@)),
{
    let ghost view = entries_of(deps@);
    let ghost start = steps.deep_view();
    proof {
        reveal_strlit("");
    }
    let mut i: usize = 0;
    assert(view.take(0) == Seq::<(Seq<char>, JsonView)>::empty());
    assert(start + named_steps(view.take(0)) == start);
    while i < deps.len()
        invariant
            i <= deps.len(),
            ""@ == Seq::<char>::empty(),
            view == entries_of(deps@),
            steps.deep_view() == start + named_steps(view.take(i as int)),
        decreases deps.len() - i,
    {
        assert(view.take(i + 1).drop_last() == view.take(i as int));
        assert(view.take(i + 1).last().1 == json_contents(deps@[i as int].1));
        if let Some(id) = as_text(&deps[i].1) {
            let step: Step = find_id_step(id.as_str());
            add_step(steps, "", step);
            let ghost before = named_steps(view.take(i as int));
            assert(start + before.push((Seq::empty(), step)) == (start + before).push(
                (Seq::empty(), step),
            ));
        }
        i = i + 1;
    }
    assert(view.take(i as int) == view);
}

fn find_earlier_npm_step(packages: &Vec<(String, Value)>) -> (r: Step)
    ensures
        r == earlier_npm_step(entries_of(packages@)),
{
    if !check_cuts(&list_keys(packages), 1) {
        return Step::Cut;
    }
    let ghost view = entries_of(packages@);
    let mut steps: Vec<(String, Step)> = no_steps();
    let mut i: usize = 0;
    assert(view.take(0) == Seq::<(Seq<char>, JsonView)>::empty());
    while i < packages.len()
        invariant
            i <= packages.len(),
            view == entries_of(packages@),
            steps.deep_view() == all_named_steps(view.take(i as int)),
        decreases packages.len() - i,
    {
        assert(view.take(i + 1).drop_last() == view.take(i as int));
        assert(view.take(i + 1).last().1 == json_contents(packages@[i as int].1));
        add_named_steps(&mut steps, &name_deps(&packages[i].1));
        i = i + 1;
    }
    assert(view.take(i as int) == view);
    take_steps(&steps)
}

fn list_ids(packages: &Vec<(String, Vec<String>)>) -> (r: Vec<String>)
    ensures
        r.deep_view() == ids_of(packages.deep_view()),
{
    let ghost view = ids_of(packages.deep_view());
    let mut ids: Vec<String> = no_texts();
    let mut i: usize = 0;
    assert(ids.deep_view() == view.take(0));
    while i < packages.len()
        invariant
            i <= packages.len(),
            view == ids_of(packages.deep_view()),
            ids.deep_view() == view.take(i as int),
        decreases packages.len() - i,
    {
        let ghost before = ids.deep_view();
        let id: String = packages[i].0.clone();
        assert(view[i as int] == id@);
        ids.push(id);
        assert(ids.deep_view() == before.push(id@));
        assert(view.take(i + 1) == view.take(i as int).push(id@));
        i = i + 1;
    }
    assert(view.take(i as int) == view);
    ids
}

fn find_packages_step(packages: &Vec<(String, Vec<String>)>) -> (r: Step)
    ensures
        r == packages_step(packages.deep_view()),
{
    let ids: Vec<String> = list_ids(packages);
    let step: Step = take_steps(&list_id_steps(&ids));
    if step != Step::Fine {
        return step;
    }
    let split: SplitIds = SplitIds::new(&ids);
    let ghost view = packages.deep_view();
    let mut steps: Vec<(String, Step)> = no_steps();
    let mut i: usize = 0;
    assert(view.take(0) == Seq::<(Seq<char>, Seq<Seq<char>>)>::empty());
    while i < packages.len()
        invariant
            i <= packages.len(),
            view == packages.deep_view(),
            split.ids@ == ids_of(view),
            steps.deep_view() == all_dep_steps(ids_of(view), view.take(i as int)),
        decreases packages.len() - i,
    {
        assert(view.take(i + 1).drop_last() == view.take(i as int));
        assert(view.take(i + 1).last() == (packages@[i as int].0@, packages@[i as int].1.deep_view()));
        add_dep_steps(&mut steps, &split, packages[i].0.as_str(), &packages[i].1);
        i = i + 1;
    }
    assert(view.take(i as int) == view);
    take_steps(&steps)
}

fn list_jsr_deps(package: &Value) -> (r: Vec<String>)
    ensures
        r.deep_view() == jsr_deps(json_contents(*package)),
{
    if let Some(entries) = as_object(package) {
        if let Some(i) = find_entry(&entries, "dependencies") {
            if let Some(items) = as_array(&entries[i].1) {
                return list_texts(&items);
            }
        }
    }
    no_texts()
}

fn check_jsr_packages(packages: &Vec<(String, Value)>) -> (r: bool)
    ensures
        r == have_cuttable_deps(entries_of(packages@)),
{
    let mut i: usize = 0;
    while i < packages.len()
        invariant
            i <= packages.len(),
            forall|k: int|
                0 <= k < i ==> all_can_be_cut(jsr_deps((#[trigger] entries_of(packages@)[k]).1), 5),
        decreases packages.len() - i,
    {
        assert(entries_of(packages@)[i as int].1 == json_contents(packages@[i as int].1));
        if !check_cuts(&list_jsr_deps(&packages[i].1), 5) {
            return false;
        }
        i = i + 1;
    }
    true
}

fn check_texts(entries: &Vec<(String, Value)>) -> (r: bool)
    ensures
        r == are_texts(entries_of(entries@)),
{
    let mut i: usize = 0;
    while i < entries.len()
        invariant
            i <= entries.len(),
            forall|k: int| 0 <= k < i ==> (#[trigger] entries_of(entries@)[k]).1 is Text,
        decreases entries.len() - i,
    {
        assert(entries_of(entries@)[i as int].1 == json_contents(entries@[i as int].1));
        if as_text(&entries[i].1).is_none() {
            return false;
        }
        i = i + 1;
    }
    true
}

/// The requirements of a lockfile, and whether their section is an object of texts.
struct Requirements {
    keys: Vec<String>,
    are_right: bool,
}

impl Requirements {
    spec fn view(&self) -> RequirementsView {
        RequirementsView { keys: self.keys.deep_view(), are_right: self.are_right }
    }
}

spec fn requirements_of(requirements: Option<Requirements>) -> Option<RequirementsView> {
    match requirements {
        Some(requirements) => Some(requirements.view()),
        None => None,
    }
}

/// What an earlier version holds on packages.
struct Earlier {
    npm: Option<Value>,
    requirements: Option<Requirements>,
    jsr: Option<Value>,
}

impl Earlier {
    spec fn view(&self) -> EarlierPackages {
        EarlierPackages {
            npm: contents_of(self.npm),
            requirements: requirements_of(self.requirements),
            jsr: contents_of(self.jsr),
        }
    }
}

spec fn contents_of(value: Option<Value>) -> Option<JsonView> {
    match value {
        Some(value) => Some(json_contents(value)),
        None => None,
    }
}

fn take_entry(entries: &Vec<(String, Value)>, key: &str) -> (r: Option<Value>)
    ensures
        contents_of(r) == entry(entries_of(entries@), key@),
{
    match find_entry(entries, key) {
        Some(i) => Some(copy_value(&entries[i].1)),
        None => None,
    }
}

fn find_requirements(entries: &Vec<(String, Value)>) -> (r: Option<Requirements>)
    ensures
        requirements_of(r) == requirements_in(entry(entries_of(entries@), "specifiers"@)),
{
    match find_entry(entries, "specifiers") {
        Some(i) => Some(
            match as_object(&entries[i].1) {
                Some(object) => Requirements {
                    keys: list_keys(&object),
                    are_right: check_texts(&object),
                },
                None => Requirements { keys: no_texts(), are_right: false },
            },
        ),
        None => None,
    }
}

fn list_npm_requirements(entries: &Vec<(String, Value)>) -> (r: Vec<String>)
    ensures
        r.deep_view() == npm_requirements_of(entries_of(entries@)),
{
    let ghost view = entries_of(entries@);
    let mut requirements: Vec<String> = Vec::new();
    let mut i: usize = 0;
    assert(view.take(0) == Seq::<(Seq<char>, JsonView)>::empty());
    assert(requirements.deep_view() == Seq::<Seq<char>>::empty());
    while i < entries.len()
        invariant
            i <= entries.len(),
            view == entries_of(entries@),
            requirements.deep_view() == npm_requirements_of(view.take(i as int)),
        decreases entries.len() - i,
    {
        let ghost before = requirements.deep_view();
        assert(view.take(i + 1).drop_last() == view.take(i as int));
        assert(view.take(i + 1).last() == (entries@[i as int].0@, json_contents(
            entries@[i as int].1,
        )));
        if as_text(&entries[i].1).is_some() {
            let requirement: String = concat2("npm:", entries[i].0.as_str());
            requirements.push(requirement);
            assert(requirements.deep_view() == before.push(requirement@));
        }
        i = i + 1;
    }
    assert(view.take(i as int) == view);
    requirements
}

fn read_third(top: &Vec<(String, Value)>) -> (r: Earlier)
    ensures
        r.view() == third_packages(entries_of(top@)),
{
    let packages: Vec<(String, Value)> = find_object(top, "packages");
    Earlier {
        npm: take_entry(&packages, "npm"),
        requirements: find_requirements(&packages),
        jsr: take_entry(&packages, "jsr"),
    }
}

fn read_second(top: &Vec<(String, Value)>) -> (r: Earlier)
    ensures
        r.view() == second_packages(entries_of(top@)),
{
    if let Some(i) = find_entry(top, "npm") {
        if let Some(npm) = as_object(&top[i].1) {
            let requirements: Vec<String> = list_npm_requirements(&find_object(&npm, "specifiers"));
            assert(requirements.deep_view().len() == requirements.len());
            return Earlier {
                npm: take_entry(&npm, "packages"),
                requirements: if requirements.len() > 0 {
                    Some(Requirements { keys: requirements, are_right: true })
                } else {
                    None
                },
                jsr: None,
            };
        }
    }
    read_third(top)
}

fn choose_requirements(given: Option<Requirements>, top: &Vec<(String, Value)>) -> (r: Requirements)
    ensures
        r.view() == requirements_or(requirements_of(given), entries_of(top@)),
{
    match given {
        Some(given) => given,
        None => match find_requirements(top) {
            Some(own) => own,
            None => Requirements { keys: no_texts(), are_right: true },
        },
    }
}

fn find_sections_step(
    requirements: &Requirements,
    npm: &Option<Vec<(String, Vec<String>)>>,
    jsr: &Option<Vec<(String, Vec<String>)>>,
) -> (r: Step)
    ensures
        r == sections_step(requirements.view(), npm.deep_view(), jsr.deep_view()),
{
    if !requirements.are_right {
        return Step::Wrong;
    }
    let step: Step = match npm {
        Some(npm) => find_packages_step(npm),
        None => Step::Wrong,
    };
    if step != Step::Fine {
        return step;
    }
    match jsr {
        Some(jsr) => {
            assert(jsr.deep_view().len() == jsr.len());
            if jsr.len() > 0 {
                take_steps(&list_requirement_steps(&requirements.keys))
            } else {
                Step::Fine
            }
        },
        None => Step::Wrong,
    }
}

fn find_current_step(top: &Vec<(String, Value)>) -> (r: Step)
    ensures
        r == current_step(entries_of(top@)),
{
    let requirements: Requirements = choose_requirements(None, top);
    find_sections_step(&requirements, &read_packages(top, "npm"), &read_packages(top, "jsr"))
}

fn object_in(value: &Option<Value>) -> (r: Option<Vec<(String, Value)>>)
    ensures
        match r {
            Some(entries) => contents_of(*value) == Some(JsonView::Object(entries_of(entries@))),
            None => !(contents_of(*value) matches Some(JsonView::Object(_))),
        },
{
    match value {
        Some(value) => as_object(value),
        None => None,
    }
}

fn find_earlier_step(top: &Vec<(String, Value)>, packages: Earlier, keeps_npm: bool) -> (r: Step)
    ensures
        r == earlier_step(entries_of(top@), packages.view(), keeps_npm),
{
    let npm: Option<Vec<(String, Value)>> = object_in(&packages.npm);
    if let Some(npm) = &npm {
        let step: Step = find_earlier_npm_step(npm);
        if step != Step::Fine {
            return step;
        }
    }
    let jsr: Option<Vec<(String, Value)>> = object_in(&packages.jsr);
    if let Some(jsr) = &jsr {
        let are_given_cuttable: bool = match &packages.requirements {
            Some(given) => check_cuts(&given.keys, 5),
            None => true,
        };
        if !are_given_cuttable || !check_jsr_packages(jsr) {
            return Step::Cut;
        }
    }
    let npm_packages: Option<Vec<(String, Vec<String>)>> = match npm {
        Some(npm) => list_earlier_packages(&SplitIds::new(&list_keys(&npm)), &npm),
        None => if keeps_npm {
            read_packages(top, "npm")
        } else {
            Some(no_packages())
        },
    };
    let jsr_packages: Option<Vec<(String, Vec<String>)>> = match jsr {
        Some(jsr) => list_packages(&jsr),
        None => read_packages(top, "jsr"),
    };
    let requirements: Requirements = choose_requirements(packages.requirements, top);
    find_sections_step(&requirements, &npm_packages, &jsr_packages)
}

/// Whether a text can be read as a lockfile, or found to be none, without cutting a
/// character in two.
pub fn can_be_read(text: &str) -> (r: bool)
    ensures
        r == is_readable(text@),
{
    let top: Vec<(String, Value)> = match parse_object(text) {
        Some(top) => top,
        None => {
            return true;
        },
    };
    let version: String = match find_entry(&top, "version") {
        Some(i) => match as_text(&top[i].1) {
            Some(version) => version,
            None => {
                return true;
            },
        },
        None => {
            return true;
        },
    };
    if same_text(version.as_str(), "4") {
        find_current_step(&top) != Step::Cut
    } else if same_text(version.as_str(), "3") {
        let packages: Earlier = read_third(&top);
        find_earlier_step(&top, packages, true) != Step::Cut
    } else if same_text(version.as_str(), "2") {
        let packages: Earlier = read_second(&top);
        find_earlier_step(&top, packages, false) != Step::Cut
    } else {
        true
    }
}

/// Whether a text is made of characters of one byte.
pub open spec fn is_ascii(text: Seq<char>) -> bool {
    forall|i: int| 0 <= i < text.len() ==> (#[trigger] text[i]) as u32 <= 0x7f
}

/// Whether all texts are made of characters of one byte.
pub open spec fn are_ascii(texts: Seq<Seq<char>>) -> bool {
    forall|i: int| 0 <= i < texts.len() ==> is_ascii(#[trigger] texts[i])
}

proof fn lemma_ascii_can_be_cut(text: Seq<char>, bytes: int)
    requires
        is_ascii(text),
        bytes >= 0,
    ensures
        can_be_cut(text, bytes),
    decreases text.len(),
{
    if bytes > 0 && text.len() > 0 {
        assert((text[0]) as u32 <= 0x7f);
        assert(is_ascii(text.drop_first())) by {
            assert forall|i: int| 0 <= i < text.drop_first().len() implies (
            #[trigger] text.drop_first()[i]) as u32 <= 0x7f by {
                assert(text[i + 1] as u32 <= 0x7f);
            }
        }
        lemma_ascii_can_be_cut(text.drop_first(), bytes - 1);
    }
}

/// A text can be cut behind some bytes exactly where it is no longer than that, or its
/// first characters take exactly as many.
pub proof fn law_cuts(text: &str, bytes: usize, r: bool)
    requires
        call_ensures(check_cut, (text, bytes), r),
    ensures
        is_ascii(text@) ==> r,
        r <==> is_shorter(text@, bytes as int) || exists|count: int|
            0 <= count <= text@.len() && #[trigger] bytes_of(text@, count) == bytes,
{
    if is_ascii(text@) {
        lemma_ascii_can_be_cut(text@, bytes as int);
    }
    lemma_cut(text@, bytes as int);
}

/// How many bytes the first characters of a text take.
pub open spec fn bytes_of(text: Seq<char>, count: int) -> int
    decreases count,
{
    if count <= 0 {
        0
    } else {
        bytes_of(text, count - 1) + width(text[count - 1])
    }
}

proof fn lemma_bytes_of_rest(text: Seq<char>, count: int)
    requires
        text.len() > 0,
        0 <= count < text.len(),
    ensures
        bytes_of(text, count + 1) == width(text[0]) + bytes_of(text.drop_first(), count),
    decreases count,
{
    if count > 0 {
        lemma_bytes_of_rest(text, count - 1);
        assert(text.drop_first()[count - 1] == text[count]);
    } else {
        reveal_with_fuel(bytes_of, 2);
    }
}

proof fn lemma_cut(text: Seq<char>, bytes: int)
    ensures
        can_be_cut(text, bytes) <==> is_shorter(text, bytes) || exists|count: int|
            0 <= count <= text.len() && #[trigger] bytes_of(text, count) == bytes,
    decreases text.len(),
{
    if bytes <= 0 {
        lemma_bytes_grow(text);
        if bytes == 0 {
            assert(bytes_of(text, 0) == 0);
        }
    } else if text.len() == 0 {
        assert(is_shorter(text, bytes));
    } else {
        let rest = text.drop_first();
        let left = bytes - width(text[0]);
        lemma_cut(rest, left);
        if exists|count: int| 0 <= count <= rest.len() && #[trigger] bytes_of(rest, count) == left {
            let count = choose|count: int|
                0 <= count <= rest.len() && #[trigger] bytes_of(rest, count) == left;
            lemma_bytes_of_rest(text, count);
            assert(bytes_of(text, count + 1) == bytes);
        }
        if exists|count: int| 0 <= count <= text.len() && #[trigger] bytes_of(text, count) == bytes {
            let count = choose|count: int|
                0 <= count <= text.len() && #[trigger] bytes_of(text, count) == bytes;
            assert(count > 0);
            lemma_bytes_of_rest(text, count - 1);
            assert(bytes_of(rest, count - 1) == left);
        }
    }
}

proof fn lemma_bytes_grow(text: Seq<char>)
    ensures
        forall|count: int| 0 <= count <= text.len() ==> #[trigger] bytes_of(text, count) >= 0,
{
    assert forall|count: int| 0 <= count <= text.len() implies #[trigger] bytes_of(text, count)
        >= 0 by {
        lemma_bytes_are_no_debt(text, count);
    }
}

proof fn lemma_bytes_are_no_debt(text: Seq<char>, count: int)
    ensures
        bytes_of(text, count) >= 0,
    decreases count,
{
    if count > 0 {
        lemma_bytes_are_no_debt(text, count - 1);
    }
}

proof fn lemma_nothing_is_cut(steps: Seq<(Seq<char>, Step)>)
    requires
        forall|i: int| 0 <= i < steps.len() ==> (#[trigger] steps[i]).1 != Step::Cut,
    ensures
        taken(steps) != Step::Cut,
{
    assert forall|at: int| 0 <= at < steps.len() implies !#[trigger] cuts_at(steps, at) by {
        assert(steps[at].1 != Step::Cut);
    }
}

proof fn lemma_ascii_behind(text: Seq<char>, from: int)
    requires
        is_ascii(text),
        0 <= from <= text.len(),
    ensures
        is_ascii(text.skip(from)),
{
    assert forall|i: int| 0 <= i < text.skip(from).len() implies (#[trigger] text.skip(from)[i])
        as u32 <= 0x7f by {
        assert(text[from + i] as u32 <= 0x7f);
    }
}

proof fn lemma_mark_is_bounded(id: Seq<char>, from: int)
    requires
        0 <= from,
    ensures
        version_mark(id, from) matches Some(at) ==> from <= at < id.len(),
    decreases id.len() - from,
{
    if from < id.len() && id[from] != '@' {
        lemma_mark_is_bounded(id, from + 1);
    }
}

proof fn lemma_ascii_version(id: Seq<char>)
    requires
        is_ascii(id),
    ensures
        id_version(id) matches Some(version) ==> is_ascii(version),
{
    lemma_mark_is_bounded(id, 1);
    if let Some(at) = version_mark(id, 1) {
        lemma_ascii_behind(id, at + 1);
    }
}

proof fn lemma_ascii_last_version(ids: Seq<Seq<char>>, name: Seq<char>)
    requires
        are_ascii(ids),
    ensures
        last_version(ids, name) matches Some(version) ==> is_ascii(version),
    decreases ids.len(),
{
    if ids.len() > 0 {
        let front = ids.drop_last();
        assert forall|i: int| 0 <= i < front.len() implies is_ascii(#[trigger] front[i]) by {
            assert(is_ascii(ids[i]));
        }
        lemma_ascii_last_version(front, name);
        assert(is_ascii(ids[ids.len() - 1]));
        lemma_ascii_version(ids.last());
        lemma_mark_is_bounded(ids.last(), 1);
    }
}

proof fn lemma_ascii_dep(ids: Seq<Seq<char>>, dep: Seq<char>)
    requires
        are_ascii(ids),
        is_ascii(dep),
    ensures
        dep_step(ids, dep) != Step::Cut,
{
    lemma_ascii_can_be_cut(dep, 1);
    lemma_ascii_version(dep);
    lemma_ascii_last_version(ids, dep);
    let version = match id_version(dep) {
        Some(version) => Some(version),
        None => last_version(ids, dep),
    };
    if let Some(version) = version {
        reveal_strlit("npm:");
        if has_prefix(version, "npm:"@) {
            lemma_ascii_behind(version, 4);
            lemma_ascii_can_be_cut(version.skip(4), 1);
        }
    }
}

/// A lockfile of the current version can be read where the identifiers, dependencies and
/// requirements in it are made of characters of one byte, whatever else is wrong with it.
pub proof fn law_ordinary_lockfiles(text: &str, top: Seq<(Seq<char>, JsonView)>, r: bool)
    requires
        call_ensures(can_be_read, (text,), r),
        json_value(text@) == Some(JsonView::Object(top)),
        entry(top, "version"@) == Some(JsonView::Text("4"@)),
        ({
            let npm = packages_in(entry(top, "npm"@));
            npm matches Some(packages) ==> are_ascii(ids_of(packages)) && forall|i: int|
                0 <= i < packages.len() ==> are_ascii((#[trigger] packages[i]).1)
        }),
        are_ascii(keys_of(object_at(top, "specifiers"@))),
    ensures
        r,
{
    let npm = packages_in(entry(top, "npm"@));
    let requirements = requirements_or(None, top);
    assert(are_ascii(requirements.keys));
    let steps = requirement_steps(requirements.keys);
    assert forall|i: int| 0 <= i < steps.len() implies (#[trigger] steps[i]).1 != Step::Cut by {
        assert(is_ascii(requirements.keys[i]));
        lemma_ascii_can_be_cut(requirements.keys[i], 5);
    }
    lemma_nothing_is_cut(steps);
    if let Some(packages) = npm {
        let ids = ids_of(packages);
        let id_list = id_steps(ids);
        assert forall|i: int| 0 <= i < id_list.len() implies (#[trigger] id_list[i]).1 != Step::Cut by {
            assert(is_ascii(ids[i]));
            lemma_ascii_can_be_cut(ids[i], 1);
        }
        lemma_nothing_is_cut(id_list);
        lemma_ascii_packages(ids, packages);
        lemma_nothing_is_cut(all_dep_steps(ids, packages));
    }
}

proof fn lemma_ascii_packages(ids: Seq<Seq<char>>, packages: Seq<(Seq<char>, Seq<Seq<char>>)>)
    requires
        are_ascii(ids),
        forall|i: int| 0 <= i < packages.len() ==> are_ascii((#[trigger] packages[i]).1),
    ensures
        forall|i: int|
            0 <= i < all_dep_steps(ids, packages).len() ==> (#[trigger] all_dep_steps(
                ids,
                packages,
            )[i]).1 != Step::Cut,
    decreases packages.len(),
{
    if packages.len() > 0 {
        let front = packages.drop_last();
        assert forall|i: int| 0 <= i < front.len() implies are_ascii((#[trigger] front[i]).1) by {
            assert(are_ascii(packages[i].1));
        }
        lemma_ascii_packages(ids, front);
        assert(are_ascii(packages[packages.len() - 1].1));
        let last = packages.last();
        let before = all_dep_steps(ids, front);
        let steps = dep_steps(ids, last.0, last.1);
        let all = all_dep_steps(ids, packages);
        assert forall|i: int| 0 <= i < all.len() implies (#[trigger] all[i]).1 != Step::Cut by {
            if i < before.len() {
                assert(all[i] == before[i]);
            } else {
                let k = i - before.len();
                assert(all[i] == steps[k]);
                assert(is_ascii(last.1[k]));
                lemma_ascii_dep(ids, last.1[k]);
            }
        }
    }
}

/// A text that is no JSON object, or one of a version that is none of the second to
/// fourth, is always read, be it only to be refused.
pub proof fn law_other_lockfiles(text: &str, r: bool)
    requires
        call_ensures(can_be_read, (text,), r),
    ensures
        !(json_value(text@) matches Some(JsonView::Object(_))) ==> r,
        json_value(text@) matches Some(JsonView::Object(top)) ==> (!(entry(
            top,
            "version"@,
        ) matches Some(JsonView::Text(_))) ==> r),
        json_value(text@) matches Some(JsonView::Object(top)) ==> (entry(
            top,
            "version"@,
        ) matches Some(JsonView::Text(version)) ==> version != "4"@ && version != "3"@ && version
            != "2"@ ==> r),
{
}

/// A lockfile of the current version whose sections are right cannot be read where an
/// identifier is cut in the middle of a character and no identifier is wrong.
pub proof fn law_cut_identifiers(
    text: &str,
    top: Seq<(Seq<char>, JsonView)>,
    packages: Seq<(Seq<char>, Seq<Seq<char>>)>,
    at: int,
    r: bool,
)
    requires
        call_ensures(can_be_read, (text,), r),
        json_value(text@) == Some(JsonView::Object(top)),
        entry(top, "version"@) == Some(JsonView::Text("4"@)),
        entry(top, "specifiers"@) is None,
        packages_in(entry(top, "npm"@)) == Some(packages),
        0 <= at < packages.len(),
        !can_be_cut(packages[at].0, 1),
        forall|i: int|
            0 <= i < packages.len() && can_be_cut((#[trigger] packages[i]).0, 1) ==> id_version(
                packages[i].0,
            ) is Some,
    ensures
        !r,
{
    let ids = ids_of(packages);
    let steps = id_steps(ids);
    assert(steps[at] == (ids[at], id_step(ids[at])));
    assert(cuts_at(steps, at)) by {
        assert forall|i: int|
            0 <= i < steps.len() && (#[trigger] steps[i]).1 == Step::Wrong implies !comes_before(
            steps,
            i,
            at,
        ) by {
            assert(can_be_cut(packages[i].0, 1));
        }
    }
}

} // verus!
