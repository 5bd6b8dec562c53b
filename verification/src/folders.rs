//! The folders that modules and packages are kept in.

use vstd::prelude::*;

use crate::config::DenoJson;
use crate::flags::Flags;
use crate::options::overridden;
use crate::package_json::PackageJsonFile;
use crate::path::{join, parent, path_join, path_parent};
use crate::process_state::NpmProcessState;
use crate::specifier::url_file_path;

verus! {

/// A folder that may be in use.
#[derive(Debug)]
pub enum FolderChoice {
    /// None is used.
    Off,
    /// The folder at this path.
    At(String),
    /// The folder at the canonical form of this path.
    Canonical(String),
}

/// A folder that may be in use.
pub ghost enum FolderChoiceView {
    Off,
    At(Seq<char>),
    Canonical(Seq<char>),
}

impl DeepView for FolderChoice {
    type V = FolderChoiceView;

    open spec fn deep_view(&self) -> FolderChoiceView {
        match *self {
            FolderChoice::Off => FolderChoiceView::Off,
            FolderChoice::At(path) => FolderChoiceView::At(path@),
            FolderChoice::Canonical(path) => FolderChoiceView::Canonical(path@),
        }
    }
}

/// Whether a local `node_modules` folder is asked for: by the flag for it, by
/// the configuration file, or else by either of these for a vendor folder.
pub open spec fn wants_node_modules(flags: Flags, config_file: Option<DenoJson>) -> Option<bool> {
    overridden(
        flags.node_modules_dir,
        overridden(
            match config_file {
                Some(config_file) => config_file.json.node_modules_dir,
                None => None,
            },
            wants_vendor(flags, config_file),
        ),
    )
}

/// Whether a vendor folder is asked for, by the flag or the configuration file.
pub open spec fn wants_vendor(flags: Flags, config_file: Option<DenoJson>) -> Option<bool> {
    overridden(
        flags.vendor,
        match config_file {
            Some(config_file) => config_file.json.vendor,
            None => None,
        },
    )
}

/// A folder next to the configuration file, if that is a local file, else in the
/// current directory.
pub open spec fn beside_config(
    cwd: Seq<char>,
    config_file: Option<DenoJson>,
    name: Seq<char>,
) -> Seq<char> {
    let dir = match config_file {
        Some(config_file) => match url_file_path(config_file.specifier@) {
            Some(path) => path_parent(path),
            None => None,
        },
        None => None,
    };
    match dir {
        Some(dir) => path_join(dir, name),
        None => path_join(cwd, name),
    }
}

/// The local `node_modules` folder. One that is turned off is not used; the one
/// of the process's npm state goes first, then the one next to the
/// `package.json`, and where it is asked for the one next to the configuration
/// file or in the current directory.
pub open spec fn node_modules_choice(
    cwd: Seq<char>,
    flags: Flags,
    config_file: Option<DenoJson>,
    package_json: Option<PackageJsonFile>,
    state: Option<NpmProcessState>,
) -> FolderChoiceView {
    let wanted = wants_node_modules(flags, config_file);
    if wanted == Some(false) {
        FolderChoiceView::Off
    } else if state is Some {
        match state->0.local_node_modules_path {
            Some(path) => FolderChoiceView::At(path@),
            None => FolderChoiceView::Off,
        }
    } else if package_json is Some && path_parent(package_json->0.path@) is Some {
        FolderChoiceView::Canonical(
            path_join(path_parent(package_json->0.path@)->0, "node_modules"@),
        )
    } else if wanted is None {
        FolderChoiceView::Off
    } else {
        FolderChoiceView::Canonical(beside_config(cwd, config_file, "node_modules"@))
    }
}

fn vendor_wanted(flags: &Flags, maybe_config_file: &Option<DenoJson>) -> (r: Option<bool>)
    ensures
        r == wants_vendor(*flags, *maybe_config_file),
{
    match flags.vendor {
        Some(wanted) => Some(wanted),
        None => match maybe_config_file {
            Some(config_file) => config_file.json.vendor,
            None => None,
        },
    }
}

fn node_modules_wanted(flags: &Flags, maybe_config_file: &Option<DenoJson>) -> (r: Option<bool>)
    ensures
        r == wants_node_modules(*flags, *maybe_config_file),
{
    match flags.node_modules_dir {
        Some(wanted) => Some(wanted),
        None => {
            let configured: Option<bool> = match maybe_config_file {
                Some(config_file) => config_file.json.node_modules_dir,
                None => None,
            };
            match configured {
                Some(wanted) => Some(wanted),
                None => vendor_wanted(flags, maybe_config_file),
            }
        },
    }
}

fn folder_beside_config(cwd: &str, maybe_config_file: &Option<DenoJson>, name: &str) -> (r: String)
    ensures
        r@ == beside_config(cwd@, *maybe_config_file, name@),
{
    if let Some(config_file) = maybe_config_file {
        if let Some(path) = config_file.specifier.to_file_path() {
            if let Some(dir) = parent(path.as_str()) {
                return join(dir.as_str(), name);
            }
        }
    }
    join(cwd, name)
}

/// Resolves the local `node_modules` folder to use.
pub fn resolve_node_modules_folder(
    cwd: &str,
    flags: &Flags,
    maybe_config_file: &Option<DenoJson>,
    maybe_package_json: &Option<PackageJsonFile>,
    state: &Option<NpmProcessState>,
) -> (r: FolderChoice)
    ensures
        r.deep_view() == node_modules_choice(
            cwd@,
            *flags,
            *maybe_config_file,
            *maybe_package_json,
            *state,
        ),
{
    let use_node_modules_dir: Option<bool> = node_modules_wanted(flags, maybe_config_file);
    if let Some(false) = use_node_modules_dir {
        return FolderChoice::Off;
    }
    if let Some(state) = state {
        return match &state.local_node_modules_path {
            Some(path) => FolderChoice::At(path.clone()),
            None => FolderChoice::Off,
        };
    }
    if let Some(package_json) = maybe_package_json {
        // a `package.json` always brings its own folder along
        if let Some(dir) = parent(package_json.path.as_str()) {
            return FolderChoice::Canonical(join(dir.as_str(), "node_modules"));
        }
    }
    if use_node_modules_dir.is_none() {
        return FolderChoice::Off;
    }
    FolderChoice::Canonical(folder_beside_config(cwd, maybe_config_file, "node_modules"))
}

/// The vendor folder, where one is asked for.
pub open spec fn vendor_folder(
    cwd: Seq<char>,
    flags: Flags,
    config_file: Option<DenoJson>,
) -> Option<Seq<char>> {
    if wants_vendor(flags, config_file) == Some(true) {
        Some(beside_config(cwd, config_file, "vendor"@))
    } else {
        None
    }
}

/// Resolves the vendor folder to use. It is only a cache, so that its path need
/// not be canonical.
pub fn resolve_vendor_folder(
    cwd: &str,
    flags: &Flags,
    maybe_config_file: &Option<DenoJson>,
) -> (r: Option<String>)
    ensures
        r.deep_view() == vendor_folder(cwd@, *flags, *maybe_config_file),
{
    match vendor_wanted(flags, maybe_config_file) {
        Some(true) => Some(folder_beside_config(cwd, maybe_config_file, "vendor")),
        _ => None,
    }
}

/// A flag decides over the `node_modules` and vendor folders whatever the
/// configuration file says, and turning the first off leaves it off whatever
/// else there is.
pub proof fn law_folder_flags_take_precedence(
    cwd: Seq<char>,
    flags: Flags,
    config_file: Option<DenoJson>,
    package_json: Option<PackageJsonFile>,
    state: Option<NpmProcessState>,
)
    ensures
        flags.node_modules_dir is Some ==> wants_node_modules(flags, config_file)
            == flags.node_modules_dir,
        flags.vendor is Some ==> wants_vendor(flags, config_file) == flags.vendor,
        flags.node_modules_dir == Some(false) ==> node_modules_choice(
            cwd,
            flags,
            config_file,
            package_json,
            state,
        ) == FolderChoiceView::Off,
        flags.vendor == Some(false) ==> vendor_folder(cwd, flags, config_file) is None,
{
}

/// Whether an answer is the first that one of several sources gives.
pub open spec fn is_first_answer(answers: Seq<Option<bool>>, answer: Option<bool>) -> bool {
    match answer {
        Some(_) => exists|i: int|
            0 <= i < answers.len() && #[trigger] answers[i] == answer && forall|k: int|
                0 <= k < i ==> #[trigger] answers[k] is None,
        None => forall|k: int| 0 <= k < answers.len() ==> #[trigger] answers[k] is None,
    }
}

/// What a configuration file says on a local `node_modules` folder.
pub open spec fn configured_node_modules(config_file: Option<DenoJson>) -> Option<bool> {
    if config_file is Some {
        config_file->0.json.node_modules_dir
    } else {
        None
    }
}

/// What a configuration file says on a vendor folder.
pub open spec fn configured_vendor(config_file: Option<DenoJson>) -> Option<bool> {
    if config_file is Some {
        config_file->0.json.vendor
    } else {
        None
    }
}

/// Whether a directory is the one that a local configuration file is in.
pub open spec fn is_config_dir(config_file: Option<DenoJson>, dir: Seq<char>) -> bool {
    &&& config_file is Some
    &&& url_file_path(config_file->0.specifier@) is Some
    &&& path_parent(url_file_path(config_file->0.specifier@)->0) == Some(dir)
}

/// Of the flag for `node_modules`, the configuration file's entry for it, the flag
/// for a vendor folder and the configuration file's entry for that, the first that is
/// given decides whether there is a `node_modules` folder. If it turns the folder off,
/// there is none whatever else there is. Otherwise an inherited state names the folder
/// or says that there is none; else the folder is beside the `package.json`; else it
/// has to be asked for, and is beside a local configuration file, or in the current
/// directory.
pub proof fn law_node_modules_folder(
    cwd: &str,
    flags: &Flags,
    config_file: &Option<DenoJson>,
    package_json: &Option<PackageJsonFile>,
    state: &Option<NpmProcessState>,
    answer: Option<bool>,
    r: FolderChoice,
)
    requires
        call_ensures(
            resolve_node_modules_folder,
            (cwd, flags, config_file, package_json, state),
            r,
        ),
        is_first_answer(
            seq![
                flags.node_modules_dir,
                configured_node_modules(*config_file),
                flags.vendor,
                configured_vendor(*config_file),
            ],
            answer,
        ),
    ensures
        answer == Some(false) ==> r.deep_view() is Off,
        answer != Some(false) && (*state matches Some(state) && state.local_node_modules_path is Some)
            ==> r.deep_view() == FolderChoiceView::At((*state)->0.local_node_modules_path->0@),
        (*state matches Some(state) && state.local_node_modules_path is None) ==> r.deep_view()
            is Off,
        answer != Some(false) && *state is None ==> (*package_json matches Some(file) ==> forall|
            dir: Seq<char>,
        |
            path_parent(file.path@) == Some(dir) ==> r.deep_view() == FolderChoiceView::Canonical(
                #[trigger] path_join(dir, "node_modules"@),
            )),
        answer is None && *state is None && *package_json is None ==> r.deep_view() is Off,
        answer == Some(true) && *state is None && *package_json is None ==> {
            &&& forall|dir: Seq<char>|
                is_config_dir(*config_file, dir) ==> r.deep_view() == FolderChoiceView::Canonical(
                    #[trigger] path_join(dir, "node_modules"@),
                )
            &&& (forall|dir: Seq<char>| !is_config_dir(*config_file, dir)) ==> r.deep_view()
                == FolderChoiceView::Canonical(path_join(cwd@, "node_modules"@))
        },
{
    let answers = seq![
        flags.node_modules_dir,
        configured_node_modules(*config_file),
        flags.vendor,
        configured_vendor(*config_file),
    ];
    assert(answers[0] == flags.node_modules_dir);
    assert(answers[1] == configured_node_modules(*config_file));
    assert(answers[2] == flags.vendor);
    assert(answers[3] == configured_vendor(*config_file));
    assert(wants_node_modules(*flags, *config_file) == answer);
    if answer == Some(true) && *state is None && *package_json is None {
        if (forall|dir: Seq<char>| !is_config_dir(*config_file, dir)) {
            if config_file is Some && url_file_path((*config_file)->0.specifier@) is Some
                && path_parent(url_file_path((*config_file)->0.specifier@)->0) is Some {
                assert(is_config_dir(
                    *config_file,
                    path_parent(url_file_path((*config_file)->0.specifier@)->0)->0,
                ));
            }
        }
    }
}

/// There is a vendor folder exactly where the flag asks for one, or is not given and
/// the configuration file asks for one. It is beside a local configuration file, or in
/// the current directory.
pub proof fn law_vendor_folder(
    cwd: &str,
    flags: &Flags,
    config_file: &Option<DenoJson>,
    r: Option<String>,
)
    requires
        call_ensures(resolve_vendor_folder, (cwd, flags, config_file), r),
    ensures
        r is Some <==> flags.vendor == Some(true) || (flags.vendor is None && configured_vendor(
            *config_file,
        ) == Some(true)),
        r matches Some(folder) ==> {
            &&& forall|dir: Seq<char>|
                is_config_dir(*config_file, dir) ==> folder@ == #[trigger] path_join(
                    dir,
                    "vendor"@,
                )
            &&& (forall|dir: Seq<char>| !is_config_dir(*config_file, dir)) ==> folder@ == path_join(
                cwd@,
                "vendor"@,
            )
        },
{
    if (forall|dir: Seq<char>| !is_config_dir(*config_file, dir)) {
        if config_file is Some && url_file_path((*config_file)->0.specifier@) is Some
            && path_parent(url_file_path((*config_file)->0.specifier@)->0) is Some {
            assert(is_config_dir(
                *config_file,
                path_parent(url_file_path((*config_file)->0.specifier@)->0)->0,
            ));
        }
    }
}

} // verus!
