//! References to npm packages, and the packages that a workspace consists of.

use vstd::prelude::*;

use crate::config::{DenoJson, ConfigFolder, Workspace};
use crate::config_file::exports_of;
use crate::error::CliError;
use crate::specifier::{
    lemma_one_part, lemma_split_not_empty, text_outcome, url_joined, ModuleSpecifier,
};
use crate::text::{
    chars_of, concat3, has_part, has_prefix, lemma_part_of_part, lemma_split_part_is_part,
    split_parts, split_text, starts_with_text,
};
use crate::versions::{
    check_specifier_beyond, holds_largest, law_largest_requirements, lemma_part_behind,
    lemma_plain_requirement, specifier_goes_beyond,
};

verus! {

/// Where the last `@` in a text stands.
pub open spec fn last_at(text: Seq<char>) -> Option<int>
    decreases text.len(),
{
    if text.len() == 0 {
        None
    } else if text.last() == '@' {
        Some(text.len() - 1)
    } else {
        last_at(text.drop_last())
    }
}

/// The version requirement in a segment of a reference: what stands behind its
/// last `@`.
pub open spec fn segment_requirement(segment: Seq<char>) -> Option<Seq<char>> {
    match last_at(segment) {
        Some(at) => Some(segment.skip(at + 1)),
        None => None,
    }
}

/// The version requirement of a package reference without its scheme: that of its
/// first segment, or of the second if the first is a scope. A slash in front does
/// not count.
pub open spec fn reference_requirement(reference: Seq<char>) -> Option<Seq<char>> {
    let parts = split_parts(
        (if reference.len() > 0 && reference[0] == '/' {
            reference.skip(1)
        } else {
            reference
        }),
        '/',
    );
    if parts[0].len() > 0 && parts[0][0] == '@' {
        if parts.len() > 1 {
            segment_requirement(parts[1])
        } else {
            None
        }
    } else {
        segment_requirement(parts[0])
    }
}

/// Whether a package reference, behind a scheme of three letters, asks for more
/// than the largest version number.
pub open spec fn asks_beyond_largest(text: Seq<char>) -> bool {
    text.len() >= 4 && (reference_requirement(text.skip(4)) matches Some(requirement)
        && specifier_goes_beyond(requirement))
}

/// Whether one of the segments of a text asks for more than the largest version
/// number.
pub open spec fn has_segment_beyond_largest(text: Seq<char>) -> bool {
    exists|i: int|
        0 <= i < split_parts(text, '/').len() && segment_asks_beyond(
            #[trigger] split_parts(text, '/')[i],
        )
}

/// Whether a segment asks for more than the largest version number.
pub open spec fn segment_asks_beyond(segment: Seq<char>) -> bool {
    segment_requirement(segment) matches Some(requirement) && specifier_goes_beyond(requirement)
}

/// Where the last `@` in a text stands.
pub(crate) fn find_last_at(text: &str) -> (r: Option<usize>)
    ensures
        match r {
            Some(at) => last_at(text@) == Some(at as int) && at < text@.len(),
            None => last_at(text@) is None,
        },
{
    let chars: Vec<char> = chars_of(text);
    let mut end: usize = chars.len();
    assert(text@.take(end as int) == text@);
    while end > 0
        invariant
            end <= chars.len(),
            chars@ == text@,
            last_at(text@) == last_at(text@.take(end as int)),
        decreases end,
    {
        assert(text@.take(end as int).drop_last() == text@.take(end - 1));
        if chars[end - 1] == '@' {
            return Some(end - 1);
        }
        end = end - 1;
    }
    None
}

fn find_segment_requirement(segment: &str) -> (r: Option<String>)
    ensures
        r.deep_view() == segment_requirement(segment@),
{
    let length: usize = segment.unicode_len();
    match find_last_at(segment) {
        Some(at) => {
            let requirement: &str = segment.substring_char(at + 1, length);
            assert(requirement@ == segment@.skip(at + 1));
            Some(requirement.to_owned())
        },
        None => None,
    }
}

fn check_segment(segment: &str) -> (r: bool)
    ensures
        r == segment_asks_beyond(segment@),
{
    match find_segment_requirement(segment) {
        Some(requirement) => check_specifier_beyond(&chars_of(requirement.as_str())),
        None => false,
    }
}

/// The version requirement of a package reference without its scheme.
pub(crate) fn find_reference_requirement(reference: &str) -> (r: Option<String>)
    ensures
        r.deep_view() == reference_requirement(reference@),
{
    let chars: Vec<char> = chars_of(reference);
    let path: &str = if chars.len() > 0 && chars[0] == '/' {
        reference.substring_char(1, chars.len())
    } else {
        reference
    };
    proof {
        if chars.len() > 0 && chars@[0] == '/' {
            assert(path@ == reference@.skip(1));
        }
        lemma_split_not_empty(path@, '/');
    }
    let parts: Vec<String> = split_text(path, '/');
    assert(parts.deep_view()[0] == parts@[0]@);
    let first: Vec<char> = chars_of(parts[0].as_str());
    if first.len() > 0 && first[0] == '@' {
        if parts.len() > 1 {
            assert(parts.deep_view()[1] == parts@[1]@);
            find_segment_requirement(parts[1].as_str())
        } else {
            None
        }
    } else {
        find_segment_requirement(parts[0].as_str())
    }
}

/// Whether a package reference, behind a scheme of three letters, asks for more
/// than the largest version number.
pub fn check_asks_beyond_largest(text: &str) -> (r: bool)
    ensures
        r == asks_beyond_largest(text@),
{
    let length: usize = text.unicode_len();
    if length < 4 {
        return false;
    }
    let reference: &str = text.substring_char(4, length);
    assert(reference@ == text@.skip(4));
    match find_reference_requirement(reference) {
        Some(requirement) => check_specifier_beyond(&chars_of(requirement.as_str())),
        None => false,
    }
}

/// Whether one of the segments of a text asks for more than the largest version
/// number.
pub(crate) fn check_segments(text: &str) -> (r: bool)
    ensures
        r == has_segment_beyond_largest(text@),
{
    let parts: Vec<String> = split_text(text, '/');
    let mut i: usize = 0;
    while i < parts.len()
        invariant
            i <= parts.len(),
            parts.deep_view() == split_parts(text@, '/'),
            forall|k: int| 0 <= k < i ==> !segment_asks_beyond(#[trigger] parts.deep_view()[k]),
        decreases parts.len() - i,
    {
        assert(parts.deep_view()[i as int] == parts@[i as int]@);
        if check_segment(parts[i].as_str()) {
            return true;
        }
        i = i + 1;
    }
    false
}

/// Whether a text can be read as an npm specifier, if it is one: it does not ask
/// for more than the largest version number.
pub open spec fn is_readable_reference(text: Seq<char>) -> bool {
    !(has_prefix(text, "npm:"@) && asks_beyond_largest(text))
}

/// Whether a text can be read as an npm specifier, if it is one.
pub fn can_read_reference(text: &str) -> (r: bool)
    ensures
        r == is_readable_reference(text@),
{
    !(starts_with_text(text, "npm:") && check_asks_beyond_largest(text))
}

/// The package name and the path below the package that an npm specifier such
/// as `npm:chalk@5/source` refers to; nothing where the text is no npm specifier.
pub uninterp spec fn npm_reference(text: Seq<char>) -> Option<(Seq<char>, Option<Seq<char>>)>;

/// A version in its normal form, or the message on a text that is none.
pub uninterp spec fn standard_version(text: Seq<char>) -> Result<Seq<char>, Seq<char>>;

/// A reference to an npm package.
#[derive(Debug)]
pub struct NpmPackageReqReference {
    pub name: String,
    pub sub_path: Option<String>,
}

impl DeepView for NpmPackageReqReference {
    type V = (Seq<char>, Option<Seq<char>>);

    open spec fn deep_view(&self) -> (Seq<char>, Option<Seq<char>>) {
        (self.name@, self.sub_path.deep_view())
    }
}

/// `deno_semver::npm::NpmPackageReqReference::from_str`: the name and the sub
/// path of the reference depend on the text alone, and only a text that begins
/// with `npm:` is a reference. The parser adds one to a number of a version that
/// it widens, which the largest number does not admit.
#[verifier::external_body]
fn parse_npm_reference(text: &str) -> (r: Option<NpmPackageReqReference>)
    requires
        is_readable_reference(text@),
    ensures
        r.deep_view() == npm_reference(text@),
        r is Some ==> has_prefix(text@, "npm:"@),
{
    let reference = deno_semver::npm::NpmPackageReqReference::from_str(text).ok()?;
    Some(
        NpmPackageReqReference {
            name: reference.req().name.clone(),
            sub_path: reference.sub_path().map(String::from),
        },
    )
}

/// `deno_semver::Version::parse_standard`: the version, written out again, and
/// the message of the error depend on the text alone.
#[verifier::external_body]
fn parse_standard_version(text: &str) -> (r: Result<String, String>)
    ensures
        text_outcome(r) == standard_version(text@),
{
    match deno_semver::Version::parse_standard(text) {
        Ok(version) => Ok(version.to_string()),
        Err(error) => Err(error.to_string()),
    }
}

impl NpmPackageReqReference {
    /// Reads an npm specifier.
    pub fn parse(text: &str) -> (r: Option<NpmPackageReqReference>)
        requires
            is_readable_reference(text@),
        ensures
            r.deep_view() == npm_reference(text@),
            r is Some ==> has_prefix(text@, "npm:"@),
    {
        parse_npm_reference(text)
    }
}

/// The command that a package reference runs: its sub path, or else the name of
/// the package.
pub open spec fn binary_command(reference: (Seq<char>, Option<Seq<char>>)) -> Seq<char> {
    match reference.1 {
        Some(sub_path) => sub_path,
        None => reference.0,
    }
}

/// The command that a package reference runs: its sub path, or else the name of
/// the package.
pub fn npm_pkg_req_ref_to_binary_command(req_ref: &NpmPackageReqReference) -> (r: String)
    ensures
        r@ == binary_command(req_ref.deep_view()),
{
    match &req_ref.sub_path {
        Some(sub_path) => sub_path.clone(),
        None => req_ref.name.clone(),
    }
}

/// A package of the workspace, as a module graph sees it.
#[derive(Debug)]
pub struct WorkspaceMember {
    /// The URL of the package's folder.
    pub base: ModuleSpecifier,
    pub name: String,
    /// The version, in its normal form.
    pub version: String,
    /// The export names with the modules they stand for.
    pub exports: Vec<(String, String)>,
}

/// A package of the workspace.
pub ghost struct MemberView {
    pub base: Seq<char>,
    pub name: Seq<char>,
    pub version: Seq<char>,
    pub exports: Seq<(Seq<char>, Seq<char>)>,
}

impl DeepView for WorkspaceMember {
    type V = MemberView;

    open spec fn deep_view(&self) -> MemberView {
        MemberView {
            base: self.base@,
            name: self.name@,
            version: self.version@,
            exports: self.exports.deep_view(),
        }
    }
}

/// The error on a configuration file whose folder has no URL.
pub open spec fn no_folder_message(specifier: Seq<char>) -> Seq<char> {
    "The folder of \""@ + specifier + "\" has no URL."@
}

/// The package that a configuration file describes: the file needs a name, a
/// version that parses, a folder and valid exports, and the first of these that
/// is amiss is the error.
pub open spec fn described_member(config: DenoJson) -> Result<MemberView, Seq<char>> {
    match config.json.name {
        None => Err("Missing 'name' field in config file."@),
        Some(name) => match config.json.version {
            None => Err("Missing 'version' field in config file."@),
            Some(version) => match standard_version(version@) {
                Err(message) => Err(message),
                Ok(version) => match url_joined(config.specifier@, "./"@) {
                    None => Err(no_folder_message(config.specifier@)),
                    Some(base) => match config.exported() {
                        Err(message) => Err(message),
                        Ok(exports) => Ok(MemberView { base, name: name@, version, exports }),
                    },
                },
            },
        },
    }
}

/// The package that a configuration file describes.
pub fn config_to_deno_graph_workspace_member(config: &DenoJson) -> (r: Result<
    WorkspaceMember,
    CliError,
>)
    ensures
        match described_member(*config) {
            Ok(member) => r is Ok && r->Ok_0.deep_view() == member,
            Err(message) => r is Err && r->Err_0@ == (message, None::<Seq<char>>),
        },
{
    let name: &String = match &config.json.name {
        Some(name) => name,
        None => {
            return Err(CliError::new("Missing 'name' field in config file."));
        },
    };
    let version: String = match &config.json.version {
        Some(version) => match parse_standard_version(version.as_str()) {
            Ok(version) => version,
            Err(message) => {
                return Err(CliError::new(message.as_str()));
            },
        },
        None => {
            return Err(CliError::new("Missing 'version' field in config file."));
        },
    };
    let base: ModuleSpecifier = match config.specifier.join("./") {
        Some(base) => base,
        None => {
            let message: String = concat3(
                "The folder of \"",
                config.specifier.as_str(),
                "\" has no URL.",
            );
            return Err(CliError::new(message.as_str()));
        },
    };
    match exports_of(&config.text, &config.specifier) {
        Ok(exports) => Ok(WorkspaceMember { base, name: name.clone(), version, exports }),
        Err(message) => Err(CliError::new(message.as_str())),
    }
}

/// The packages among `folders`, in order, or the first error among them.
pub open spec fn described_members(folders: Seq<ConfigFolder>) -> Result<
    Seq<MemberView>,
    Seq<char>,
>
    decreases folders.len(),
{
    if folders.len() == 0 {
        Ok(Seq::empty())
    } else {
        match described_members(folders.drop_last()) {
            Err(message) => Err(message),
            Ok(members) => match folders.last().configs.deno_json {
                Some(deno_json) => if deno_json.describes_package() {
                    match described_member(deno_json) {
                        Ok(member) => Ok(members.push(member)),
                        Err(message) => Err(message),
                    }
                } else {
                    Ok(members)
                },
                None => Ok(members),
            },
        }
    }
}

proof fn lemma_first_error_stays(folders: Seq<ConfigFolder>, count: int)
    requires
        0 <= count <= folders.len(),
        described_members(folders.take(count)) is Err,
    ensures
        described_members(folders) == described_members(folders.take(count)),
    decreases folders.len() - count,
{
    if count == folders.len() {
        assert(folders.take(count) == folders);
    } else {
        assert(folders.take(count + 1).drop_last() == folders.take(count));
        lemma_first_error_stays(folders, count + 1);
    }
}

/// The packages of a workspace, in the order of its folders.
pub fn workspace_members(workspace: &Workspace) -> (r: Result<Vec<WorkspaceMember>, CliError>)
    ensures
        match described_members(workspace.folders()) {
            Ok(members) => r is Ok && r->Ok_0.deep_view() == members,
            Err(message) => r is Err && r->Err_0@ == (message, None::<Seq<char>>),
        },
{
    let folders: &Vec<ConfigFolder> = workspace.config_folders();
    let mut members: Vec<WorkspaceMember> = Vec::new();
    let mut i: usize = 0;
    assert(folders@.take(0) == Seq::<ConfigFolder>::empty());
    assert(members.deep_view() == Seq::<MemberView>::empty());
    while i < folders.len()
        invariant
            i <= folders.len(),
            folders@ == workspace.folders(),
            described_members(folders@.take(i as int)) == Ok::<Seq<MemberView>, Seq<char>>(
                members.deep_view(),
            ),
        decreases folders.len() - i,
    {
        let ghost before = members.deep_view();
        assert(folders@.take(i + 1).drop_last() == folders@.take(i as int));
        assert(folders@.take(i + 1).last() == folders@[i as int]);
        if let Some(deno_json) = &folders[i].configs.deno_json {
            if deno_json.is_package() {
                match config_to_deno_graph_workspace_member(deno_json) {
                    Ok(member) => {
                        members.push(member);
                        assert(members.deep_view() == before.push(member.deep_view()));
                    },
                    Err(error) => {
                        proof {
                            lemma_first_error_stays(folders@, i + 1);
                        }
                        return Err(error);
                    },
                }
            }
        }
        i = i + 1;
    }
    assert(folders@.take(i as int) == folders@);
    Ok(members)
}

/// A reference is named after its sub path, or after its package without one.
pub proof fn law_binary_command(reference: &NpmPackageReqReference, r: String)
    requires
        call_ensures(npm_pkg_req_ref_to_binary_command, (reference,), r),
    ensures
        reference.sub_path is None ==> r@ == reference.name@,
        reference.sub_path matches Some(path) ==> r@ == path@,
{
}

/// A configuration file describes a package if it has a name, a version that parses, a
/// folder and exports that are fine; the package then has these. Otherwise the first of
/// them that is missing or wrong is the error.
pub proof fn law_described_package(config: &DenoJson, r: Result<WorkspaceMember, CliError>)
    requires
        call_ensures(config_to_deno_graph_workspace_member, (config,), r),
    ensures
        r matches Ok(member) ==> {
            &&& config.json.name is Some && member.name@ == config.json.name->0@
            &&& config.json.version is Some && standard_version(config.json.version->0@) == Ok::<
                Seq<char>,
                Seq<char>,
            >(member.version@)
            &&& url_joined(config.specifier@, "./"@) == Some(member.base@)
            &&& config.exported() == Ok::<Seq<(Seq<char>, Seq<char>)>, Seq<char>>(
                member.exports.deep_view(),
            )
        },
        config.json.name is None ==> r is Err && r->Err_0.message@
            == "Missing 'name' field in config file."@,
        config.json.name is Some && config.json.version is None ==> r is Err
            && r->Err_0.message@ == "Missing 'version' field in config file."@,
        config.json.name is Some && config.json.version is Some ==> {
            let version = standard_version(config.json.version->0@);
            let base = url_joined(config.specifier@, "./"@);
            &&& version is Err ==> r is Err && r->Err_0.message@ == version->Err_0
            &&& version is Ok && base is None ==> r is Err
            &&& version is Ok && base is Some && config.exported() is Err ==> r is Err
                && r->Err_0.message@ == config.exported()->Err_0
            &&& version is Ok && base is Some && config.exported() is Ok ==> r is Ok
        },
{
}

/// Whether a folder's configuration file describes a package.
pub open spec fn holds_package(folder: ConfigFolder) -> bool {
    &&& folder.configs.deno_json is Some
    &&& folder.configs.deno_json->0.json.name is Some
    &&& folder.configs.deno_json->0.json.exports is Some
}

/// The packages of a workspace are those of exactly the folders whose configuration file
/// has a name and exports, in the order of the folders. The first of them that is amiss
/// is the error.
pub proof fn law_workspace_packages(
    workspace: &Workspace,
    r: Result<Vec<WorkspaceMember>, CliError>,
)
    requires
        call_ensures(workspace_members, (workspace,), r),
    ensures
        ({
            let packages = workspace.folders().filter(|folder: ConfigFolder| holds_package(folder));
            &&& r matches Ok(members) ==> members.len() == packages.len() && forall|i: int|
                0 <= i < members.len() ==> described_member(packages[i].configs.deno_json->0)
                    == Ok::<MemberView, Seq<char>>((#[trigger] members@[i]).deep_view())
            &&& r matches Err(error) ==> exists|i: int|
                0 <= i < packages.len() && described_member(
                    (#[trigger] packages[i]).configs.deno_json->0,
                ) == Err::<MemberView, Seq<char>>(error.message@) && forall|k: int|
                    0 <= k < i ==> described_member((#[trigger] packages[k]).configs.deno_json->0)
                        is Ok
        }),
{
    let packages = workspace.folders().filter(|folder: ConfigFolder| holds_package(folder));
    lemma_described_members(workspace.folders());
    if let Ok(members) = r {
        assert forall|i: int| 0 <= i < members.len() implies described_member(
            packages[i].configs.deno_json->0,
        ) == Ok::<MemberView, Seq<char>>((#[trigger] members@[i]).deep_view()) by {
            assert(members.deep_view()[i] == members@[i].deep_view());
        }
    }
}

proof fn lemma_described_members(folders: Seq<ConfigFolder>)
    ensures
        ({
            let packages = folders.filter(|folder: ConfigFolder| holds_package(folder));
            &&& described_members(folders) matches Ok(members) ==> members.len() == packages.len()
                && forall|i: int|
                0 <= i < members.len() ==> described_member(packages[i].configs.deno_json->0)
                    == Ok::<MemberView, Seq<char>>(#[trigger] members[i])
            &&& described_members(folders) matches Err(message) ==> exists|i: int|
                0 <= i < packages.len() && described_member(
                    (#[trigger] packages[i]).configs.deno_json->0,
                ) == Err::<MemberView, Seq<char>>(message) && forall|k: int|
                    0 <= k < i ==> described_member((#[trigger] packages[k]).configs.deno_json->0)
                        is Ok
        }),
    decreases folders.len(),
{
    reveal(Seq::filter);
    if folders.len() > 0 {
        let keep = |folder: ConfigFolder| holds_package(folder);
        let front = folders.drop_last();
        let last = folders.last();
        lemma_described_members(front);
        let before = front.filter(keep);
        let packages = folders.filter(keep);
        if holds_package(last) {
            assert(packages == before.push(last));
        } else {
            assert(packages == before);
        }
        assert(forall|k: int| 0 <= k < before.len() ==> (#[trigger] packages[k]) == before[k]);
        match described_members(front) {
            Err(message) => {
                let i = choose|i: int|
                    0 <= i < before.len() && described_member(
                        (#[trigger] before[i]).configs.deno_json->0,
                    ) == Err::<MemberView, Seq<char>>(message) && forall|k: int|
                        0 <= k < i ==> described_member((#[trigger] before[k]).configs.deno_json->0)
                            is Ok;
                assert(packages[i] == before[i]);
                assert forall|k: int| 0 <= k < i implies described_member(
                    (#[trigger] packages[k]).configs.deno_json->0,
                ) is Ok by {
                    assert(packages[k] == before[k]);
                }
            },
            Ok(members) => {
                assert forall|k: int| 0 <= k < before.len() implies described_member(
                    (#[trigger] packages[k]).configs.deno_json->0,
                ) is Ok by {
                    assert(packages[k] == before[k]);
                    assert(described_member(before[k].configs.deno_json->0) == Ok::<
                        MemberView,
                        Seq<char>,
                    >(members[k]));
                }
                if holds_package(last) {
                    assert(packages[before.len() as int] == last);
                }
            },
        }
    }
}

/// A text that does not begin with `npm:` can always be read, and so can a reference
/// without a version.
pub proof fn law_readable_references(text: &str, r: bool)
    requires
        call_ensures(can_read_reference, (text,), r),
    ensures
        !has_prefix(text@, "npm:"@) ==> r,
        !text@.contains('@') ==> r,
{
    if !text@.contains('@') && text@.len() >= 4 {
        let reference = text@.skip(4);
        lemma_no_requirement(reference);
    }
}

proof fn lemma_no_requirement(reference: Seq<char>)
    requires
        forall|i: int| 0 <= i < reference.len() ==> #[trigger] reference[i] != '@',
    ensures
        reference_requirement(reference) is None,
{
    let path = if reference.len() > 0 && reference[0] == '/' {
        reference.skip(1)
    } else {
        reference
    };
    assert(forall|i: int| 0 <= i < path.len() ==> #[trigger] path[i] != '@');
    lemma_split_not_empty(path, '/');
    lemma_parts_lack(path, '/', '@');
    let parts = split_parts(path, '/');
    lemma_last_at(parts[0]);
    assert(!parts[0].contains('@'));
    if parts[0].len() > 0 {
        assert(parts[0].contains(parts[0][0]));
    }
}

proof fn lemma_parts_lack(s: Seq<char>, sep: char, c: char)
    requires
        forall|i: int| 0 <= i < s.len() ==> #[trigger] s[i] != c,
    ensures
        forall|i: int|
            0 <= i < split_parts(s, sep).len() ==> !(#[trigger] split_parts(s, sep)[i]).contains(c),
    decreases s.len(),
{
    if s.len() > 0 {
        let front = s.drop_last();
        assert(forall|i: int| 0 <= i < front.len() ==> (#[trigger] front[i]) == s[i]);
        lemma_parts_lack(front, sep, c);
        lemma_split_not_empty(front, sep);
        let before = split_parts(front, sep);
        let parts = split_parts(s, sep);
        assert(s[s.len() - 1] != c);
        assert forall|i: int| 0 <= i < parts.len() implies !(#[trigger] parts[i]).contains(c) by {
            if s.last() == sep {
                if i < before.len() {
                    assert(parts[i] == before[i]);
                }
            } else if i < before.len() - 1 {
                assert(parts[i] == before[i]);
            } else {
                let last = before.last();
                assert(!before[before.len() - 1].contains(c));
                if last.push(s.last()).contains(c) {
                    let k = choose|k: int|
                        0 <= k < last.len() + 1 && last.push(s.last())[k] == c;
                    assert(last[k] == c);
                }
            }
        }
    }
}

proof fn lemma_last_at(text: Seq<char>)
    ensures
        last_at(text) is None <==> !text.contains('@'),
        last_at(text) matches Some(at) ==> 0 <= at < text.len() && text[at] == '@' && forall|
            i: int,
        |
            at < i < text.len() ==> #[trigger] text[i] != '@',
    decreases text.len(),
{
    if text.len() > 0 {
        let front = text.drop_last();
        lemma_last_at(front);
        assert(forall|i: int| 0 <= i < front.len() ==> (#[trigger] text[i]) == front[i]);
        if text.last() == '@' {
            assert(text.contains(text[text.len() - 1]));
        } else {
            if text.contains('@') {
                let k = choose|k: int| 0 <= k < text.len() && text[k] == '@';
                assert(front[k] == '@');
            }
            if front.contains('@') {
                let k = choose|k: int| 0 <= k < front.len() && front[k] == '@';
                assert(text[k] == '@');
            }
        }
    }
}

/// The last `@` in a text is where one stands and none stands behind it.
pub proof fn law_last_at(text: Seq<char>)
    ensures
        last_at(text) is None <==> !text.contains('@'),
        last_at(text) matches Some(at) ==> 0 <= at < text.len() && text[at] == '@'
            && !text.skip(at + 1).contains('@'),
{
    lemma_last_at(text);
    if let Some(at) = last_at(text) {
        let rest = text.skip(at + 1);
        if rest.contains('@') {
            let k = choose|k: int| 0 <= k < rest.len() && rest[k] == '@';
            assert(text[at + 1 + k] == '@');
        }
    }
}

/// The requirement in a reference is a part of it.
pub(crate) proof fn lemma_reference_requirement_is_part(reference: Seq<char>)
    ensures
        reference_requirement(reference) matches Some(version) ==> has_part(reference, version),
{
    let path = if reference.len() > 0 && reference[0] == '/' {
        reference.skip(1)
    } else {
        reference
    };
    lemma_split_not_empty(path, '/');
    let parts = split_parts(path, '/');
    if let Some(version) = reference_requirement(reference) {
        let at = if parts[0].len() > 0 && parts[0][0] == '@' {
            1int
        } else {
            0
        };
        lemma_split_part_is_part(path, '/', at);
        lemma_last_at(parts[at]);
        let segment = parts[at];
        assert(has_part(segment, version)) by {
            let from = segment.len() - version.len();
            assert(segment.subrange(from, from + version.len()) == version);
        }
        lemma_part_of_part(path, segment, version);
        if path != reference {
            let i = choose|i: int|
                0 <= i && i + version.len() <= path.len() && #[trigger] path.subrange(
                    i,
                    i + version.len(),
                ) == version;
            assert(reference.subrange(i + 1, i + 1 + version.len()) == version);
        }
    }
}

/// A reference that does not hold the largest version number can be read, and an npm
/// package in that version alone cannot.
pub proof fn law_ordinary_references(text: &str, name: Seq<char>, r: bool)
    requires
        call_ensures(can_read_reference, (text,), r),
    ensures
        !holds_largest(text@) ==> r,
        text@ == "npm:"@ + name + "@18446744073709551615"@ && name.len() > 0 && !name.contains('/')
            && name[0] != '@' ==> !r,
{
    if !holds_largest(text@) && text@.len() >= 4 {
        let reference = text@.skip(4);
        if let Some(version) = reference_requirement(reference) {
            lemma_reference_requirement_is_part(reference);
            if holds_largest(version) {
                lemma_part_of_part(reference, version, "18446744073709551615"@);
                lemma_part_behind(text@, 4, "18446744073709551615"@);
            }
            lemma_plain_requirement(version);
        }
    }
    if text@ == "npm:"@ + name + "@18446744073709551615"@ && name.len() > 0 && !name.contains('/')
        && name[0] != '@' {
        lemma_largest_reference(name);
    }
}

proof fn lemma_largest_reference(name: Seq<char>)
    requires
        name.len() > 0,
        !name.contains('/'),
        name[0] != '@',
    ensures
        !is_readable_reference("npm:"@ + name + "@18446744073709551615"@),
{
    reveal_strlit("npm:");
    reveal_strlit("@18446744073709551615");
    reveal_strlit("18446744073709551615");
    let text = "npm:"@ + name + "@18446744073709551615"@;
    let number = "18446744073709551615"@;
    let tail = "@18446744073709551615"@;
    assert(tail == seq!['@'] + number);
    let reference = text.skip(4);
    assert(reference == name + tail);
    assert(text.take(4) == "npm:"@);
    lemma_requirement_of_named(name, number);
    law_largest_requirements(Seq::empty());
    assert(number + Seq::<char>::empty() == number);
}

proof fn lemma_requirement_of_named(name: Seq<char>, version: Seq<char>)
    requires
        name.len() > 0,
        !name.contains('/'),
        name[0] != '@',
        !version.contains('/'),
        !version.contains('@'),
    ensures
        reference_requirement(name + (seq!['@'] + version)) == Some(version),
{
    let tail = seq!['@'] + version;
    let reference = name + tail;
    assert(name.contains(name[0]));
    assert(reference[0] == name[0]);
    assert(!reference.contains('/')) by {
        if reference.contains('/') {
            let k = choose|k: int| 0 <= k < reference.len() && reference[k] == '/';
            if k < name.len() {
                assert(name[k] == '/');
            } else if k > name.len() {
                assert(version[k - name.len() - 1] == '/');
            }
        }
    }
    lemma_one_part(reference, '/');
    lemma_last_at(reference);
    assert(reference[name.len() as int] == '@');
    assert(reference.contains(reference[name.len() as int]));
    let at = last_at(reference)->0;
    assert(at == name.len()) by {
        if at > name.len() {
            assert(version[at - name.len() - 1] == '@');
        }
    }
    assert(reference.skip(at + 1) == version);
}

/// An npm specifier is read as the reference that it is, and a text that does not begin
/// with `npm:` as none.
pub proof fn law_npm_references(text: &str, r: Option<NpmPackageReqReference>)
    requires
        is_readable_reference(text@),
        call_ensures(NpmPackageReqReference::parse, (text,), r),
    ensures
        r is Some <==> npm_reference(text@) is Some,
        r matches Some(reference) ==> {
            &&& reference.name@ == (npm_reference(text@)->0).0
            &&& reference.sub_path.deep_view() == (npm_reference(text@)->0).1
        },
        !has_prefix(text@, "npm:"@) ==> r is None,
{
}

} // verus!
