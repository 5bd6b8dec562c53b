//! Which files a subcommand works on.

use deno_config::glob::PathOrPatternSet;
use vstd::prelude::*;

use crate::error::CliError;
use crate::flags::FileFlags;

verus! {

/// A set of paths and glob patterns. The later an entry stands, the higher its
/// priority.
#[verifier::external_type_specification]
#[verifier::external_body]
pub struct ExPathOrPatternSet(deno_config::glob::PathOrPatternSet);

/// The entries of a set, in order: a path and a pattern by its text, a negated
/// one with `!` in front, a remote module by its URL.
pub uninterp spec fn pattern_items(set: PathOrPatternSet) -> Seq<Seq<char>>;

/// The entries of the set that file arguments make up, seen from a base path,
/// or the message on an argument that is invalid.
pub uninterp spec fn included_items(base: Seq<char>, entries: Seq<Seq<char>>) -> Result<
    Seq<Seq<char>>,
    Seq<char>,
>;

/// The entries of the set that exclusions make up, seen from a base path, or the
/// message on an exclusion that is invalid or never reached.
pub uninterp spec fn excluded_items(base: Seq<char>, entries: Seq<Seq<char>>) -> Result<
    Seq<Seq<char>>,
    Seq<char>,
>;

/// The entries of a set, or the message of the error that came in its place.
pub open spec fn set_outcome(r: Result<PathOrPatternSet, String>) -> Result<
    Seq<Seq<char>>,
    Seq<char>,
> {
    match r {
        Ok(set) => Ok(pattern_items(set)),
        Err(message) => Err(message@),
    }
}

/// `deno_config::glob::PathOrPatternSet::new` on no entries: the set is empty.
#[verifier::external_body]
fn empty_set() -> (r: PathOrPatternSet)
    ensures
        pattern_items(r) == Seq::<Seq<char>>::empty(),
{
    PathOrPatternSet::new(Vec::new())
}

/// `deno_config::glob::PathOrPatternSet::from_include_relative_path_or_patterns`:
/// the result depends on the base and the entries alone, and a set has one item
/// for each entry.
#[verifier::external_body]
fn include_set(base: &str, entries: &Vec<String>) -> (r: Result<PathOrPatternSet, String>)
    ensures
        set_outcome(r) == included_items(base@, entries.deep_view()),
        r matches Ok(set) ==> pattern_items(set).len() == entries.len(),
{
    PathOrPatternSet::from_include_relative_path_or_patterns(std::path::Path::new(base), entries)
        .map_err(|error| error.to_string())
}

/// `deno_config::glob::PathOrPatternSet::from_exclude_relative_path_or_patterns`:
/// the result depends on the base and the entries alone, and a set has one item
/// for each entry.
#[verifier::external_body]
fn exclude_set(base: &str, entries: &Vec<String>) -> (r: Result<PathOrPatternSet, String>)
    ensures
        set_outcome(r) == excluded_items(base@, entries.deep_view()),
        r matches Ok(set) ==> pattern_items(set).len() == entries.len(),
{
    PathOrPatternSet::from_exclude_relative_path_or_patterns(std::path::Path::new(base), entries)
        .map_err(|error| error.to_string())
}

/// Files to work on: those that `includes` covers, all below `base` if there is
/// none, without those that `exclude` covers.
#[derive(Debug)]
pub struct FilePatterns {
    pub base: String,
    pub includes: Option<PathOrPatternSet>,
    pub exclude: PathOrPatternSet,
}

/// Files to work on.
pub ghost struct FilePatternsView {
    pub base: Seq<char>,
    pub includes: Option<Seq<Seq<char>>>,
    pub exclude: Seq<Seq<char>>,
}

impl DeepView for FilePatterns {
    type V = FilePatternsView;

    open spec fn deep_view(&self) -> FilePatternsView {
        FilePatternsView {
            base: self.base@,
            includes: match self.includes {
                Some(set) => Some(pattern_items(set)),
                None => None,
            },
            exclude: pattern_items(self.exclude),
        }
    }
}

/// Every file below `base`.
pub open spec fn all_files_below(base: Seq<char>) -> FilePatternsView {
    FilePatternsView { base, includes: None, exclude: Seq::empty() }
}

impl FilePatterns {
    /// Every file below `base`.
    pub fn new_with_base(base: String) -> (r: FilePatterns)
        ensures
            r.deep_view() == all_files_below(base@),
    {
        FilePatterns { base, includes: None, exclude: empty_set() }
    }
}

/// The files that the command line alone asks for, seen from `base`.
pub open spec fn flag_files(
    includes: Seq<Seq<char>>,
    ignores: Seq<Seq<char>>,
    base: Seq<char>,
) -> Result<FilePatternsView, Seq<char>> {
    if includes.len() == 0 {
        match excluded_items(base, ignores) {
            Ok(exclude) => Ok(FilePatternsView { base, includes: None, exclude }),
            Err(message) => Err(message),
        }
    } else {
        match included_items(base, includes) {
            Ok(set) => match excluded_items(base, ignores) {
                Ok(exclude) => Ok(FilePatternsView { base, includes: Some(set), exclude }),
                Err(message) => Err(message),
            },
            Err(message) => Err(message),
        }
    }
}

/// The files of a configuration file as the command line changes them: files
/// named there replace the configured ones, files ignored there replace the
/// configured exclusions, and both are seen from `flags_base`, or else from the
/// configuration's own base.
pub open spec fn resolved_files(
    config: FilePatternsView,
    includes: Seq<Seq<char>>,
    ignores: Seq<Seq<char>>,
    flags_base: Option<Seq<char>>,
) -> Result<FilePatternsView, Seq<char>> {
    let base = match flags_base {
        Some(base) => base,
        None => config.base,
    };
    let new_includes = if includes.len() == 0 {
        Ok(config.includes)
    } else {
        match included_items(base, includes) {
            Ok(set) => Ok(Some(set)),
            Err(message) => Err(message),
        }
    };
    let new_exclude = if ignores.len() == 0 {
        Ok(config.exclude)
    } else {
        excluded_items(base, ignores)
    };
    match new_includes {
        Err(message) => Err(message),
        Ok(includes) => match new_exclude {
            Err(message) => Err(message),
            Ok(exclude) => Ok(FilePatternsView { base: config.base, includes, exclude }),
        },
    }
}

/// Whether an operation gave what a model of it says: the value, seen through
/// `deep_view`, or an error with the message and no cause.
pub open spec fn gives<T: DeepView>(
    r: Result<T, CliError>,
    model: Result<T::V, Seq<char>>,
) -> bool {
    match model {
        Ok(value) => r is Ok && r->Ok_0.deep_view() == value,
        Err(message) => r is Err && r->Err_0@ == (message, None::<Seq<char>>),
    }
}

impl FileFlags {
    /// The files that the command line alone asks for, seen from `base`.
    pub fn as_file_patterns(&self, base: &str) -> (r: Result<FilePatterns, CliError>)
        ensures
            gives(r, flag_files(self.includes.deep_view(), self.ignores.deep_view(), base@)),
    {
        let includes: Option<PathOrPatternSet> = if self.includes.len() == 0 {
            None
        } else {
            match include_set(base, &self.includes) {
                Ok(set) => Some(set),
                Err(message) => {
                    return Err(CliError::new(message.as_str()));
                },
            }
        };
        match exclude_set(base, &self.ignores) {
            Ok(exclude) => Ok(FilePatterns { base: base.to_owned(), includes, exclude }),
            Err(message) => Err(CliError::new(message.as_str())),
        }
    }
}

/// Collects included and ignored files. What the command line gives takes
/// precedence over the configuration file: if both name files to ignore, those
/// of the command line alone are taken into account.
pub fn resolve_files(
    files_config: FilePatterns,
    file_flags: &FileFlags,
    maybe_flags_base: Option<&str>,
) -> (r: Result<FilePatterns, CliError>)
    ensures
        gives(
            r,
            resolved_files(
                files_config.deep_view(),
                file_flags.includes.deep_view(),
                file_flags.ignores.deep_view(),
                maybe_flags_base.deep_view(),
            ),
        ),
{
    let mut files: FilePatterns = files_config;
    let base: String = match maybe_flags_base {
        Some(base) => base.to_owned(),
        None => files.base.clone(),
    };
    if file_flags.includes.len() > 0 {
        match include_set(base.as_str(), &file_flags.includes) {
            Ok(set) => {
                files.includes = Some(set);
            },
            Err(message) => {
                return Err(CliError::new(message.as_str()));
            },
        }
    }
    if file_flags.ignores.len() > 0 {
        match exclude_set(base.as_str(), &file_flags.ignores) {
            Ok(set) => {
                files.exclude = set;
            },
            Err(message) => {
                return Err(CliError::new(message.as_str()));
            },
        }
    }
    Ok(files)
}

/// Without file arguments the configuration stands as it is; with them, what
/// the configuration says on the same point plays no part.
pub proof fn law_file_flags_take_precedence(
    config: FilePatternsView,
    other: FilePatternsView,
    includes: Seq<Seq<char>>,
    ignores: Seq<Seq<char>>,
    flags_base: Seq<char>,
)
    ensures
        resolved_files(config, Seq::empty(), Seq::empty(), Some(flags_base)) == Ok::<
            FilePatternsView,
            Seq<char>,
        >(config),
        config.base == other.base && includes.len() > 0 && ignores.len() > 0 ==> resolved_files(
            config,
            includes,
            ignores,
            Some(flags_base),
        ) == resolved_files(other, includes, ignores, Some(flags_base)),
        config.base == other.base && config.includes == other.includes && ignores.len() > 0
            ==> resolved_files(config, includes, ignores, Some(flags_base)) == resolved_files(
            other,
            includes,
            ignores,
            Some(flags_base),
        ),
        config.base == other.base && config.exclude == other.exclude && includes.len() > 0
            ==> resolved_files(config, includes, ignores, Some(flags_base)) == resolved_files(
            other,
            includes,
            ignores,
            Some(flags_base),
        ),
{
}

/// The base path that file arguments are seen from.
pub open spec fn is_flags_base(
    base: Seq<char>,
    flags_base: Option<&str>,
    config_base: Seq<char>,
) -> bool {
    &&& flags_base is Some ==> base == flags_base->0@
    &&& flags_base is None ==> base == config_base
}

/// Whether files are those of a configuration as the command line changes them: what
/// it does not give stays as configured, what it gives is taken from it, and the base
/// of the configuration stays.
pub open spec fn are_files_of(
    files: FilePatternsView,
    config: FilePatternsView,
    flags: FileFlags,
    base: Seq<char>,
) -> bool {
    &&& files.base == config.base
    &&& flags.includes@.len() == 0 ==> files.includes == config.includes
    &&& flags.ignores@.len() == 0 ==> files.exclude == config.exclude
    &&& flags.includes@.len() > 0 ==> files.includes is Some && included_items(
        base,
        flags.includes.deep_view(),
    ) == Ok::<Seq<Seq<char>>, Seq<char>>(files.includes->0)
    &&& flags.ignores@.len() > 0 ==> excluded_items(base, flags.ignores.deep_view()) == Ok::<
        Seq<Seq<char>>,
        Seq<char>,
    >(files.exclude)
}

/// Whether the command line names files to take in that are invalid.
pub open spec fn has_invalid_includes(flags: FileFlags, base: Seq<char>) -> bool {
    flags.includes@.len() > 0 && included_items(base, flags.includes.deep_view()) is Err
}

/// Whether the command line names files to ignore that are invalid.
pub open spec fn has_invalid_ignores(flags: FileFlags, base: Seq<char>) -> bool {
    flags.ignores@.len() > 0 && excluded_items(base, flags.ignores.deep_view()) is Err
}

/// Whether an error is the one on the first invalid files of the command line.
pub open spec fn is_error_on_files(error: CliError, flags: FileFlags, base: Seq<char>) -> bool {
    &&& error.cause is None
    &&& has_invalid_includes(flags, base) ==> error.message@ == included_items(
        base,
        flags.includes.deep_view(),
    )->Err_0
    &&& !has_invalid_includes(flags, base) ==> has_invalid_ignores(flags, base)
        && error.message@ == excluded_items(base, flags.ignores.deep_view())->Err_0
}

/// Includes and exclusions are decided apart: whichever of them the command line does
/// not give stays as the configuration has it, and whichever it gives replaces what the
/// configuration has, seen from the base of the flags. The base of the configuration
/// always stays. It fails exactly where something that the command line gives is
/// invalid, with the message on that, and that on the includes comes first.
pub proof fn law_resolved_files(
    config: FilePatterns,
    flags: &FileFlags,
    flags_base: Option<&str>,
    base: Seq<char>,
    r: Result<FilePatterns, CliError>,
)
    requires
        call_ensures(resolve_files, (config, flags, flags_base), r),
        is_flags_base(base, flags_base, config.base@),
    ensures
        r matches Ok(files) ==> are_files_of(files.deep_view(), config.deep_view(), *flags, base),
        r is Err <==> has_invalid_includes(*flags, base) || has_invalid_ignores(*flags, base),
        r matches Err(error) ==> is_error_on_files(error, *flags, base),
{
}

/// Without a configuration, the files are those that the command line names, or all
/// below the base if it names none, without those that it ignores.
pub proof fn law_flag_files(flags: &FileFlags, base: &str, r: Result<FilePatterns, CliError>)
    requires
        call_ensures(FileFlags::as_file_patterns, (flags, base), r),
    ensures
        r matches Ok(files) ==> {
            &&& files.base@ == base@
            &&& files.includes is None <==> flags.includes@.len() == 0
            &&& files.includes matches Some(set) ==> included_items(
                base@,
                flags.includes.deep_view(),
            ) == Ok::<Seq<Seq<char>>, Seq<char>>(pattern_items(set))
            &&& excluded_items(base@, flags.ignores.deep_view()) == Ok::<
                Seq<Seq<char>>,
                Seq<char>,
            >(pattern_items(files.exclude))
        },
        r is Err <==> (flags.includes@.len() > 0 && included_items(
            base@,
            flags.includes.deep_view(),
        ) is Err) || excluded_items(base@, flags.ignores.deep_view()) is Err,
        r matches Err(error) ==> error.cause is None && (if flags.includes@.len() > 0
            && included_items(base@, flags.includes.deep_view()) is Err {
            error.message@ == included_items(base@, flags.includes.deep_view())->Err_0
        } else {
            error.message@ == excluded_items(base@, flags.ignores.deep_view())->Err_0
        }),
{
}

/// All files below a base: nothing is named, and nothing left out.
pub proof fn law_all_files(base: String, r: FilePatterns)
    requires
        call_ensures(FilePatterns::new_with_base, (base,), r),
    ensures
        r.base@ == base@,
        r.includes is None,
        pattern_items(r.exclude).len() == 0,
{
}

} // verus!
