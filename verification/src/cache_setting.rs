//! How cached source files are handled.

use vstd::prelude::*;

use crate::text::{concat2, contains_text};

verus! {

/// Indicates how cached source files should be handled.
#[derive(Debug)]
pub enum CacheSetting {
    /// Only the cached files should be used. Any file that is not in the cache
    /// is an error.
    Only,
    /// No cached source file should be used, and all files should be reloaded.
    ReloadAll,
    /// Cached source files should be used, except for the listed specifiers.
    ReloadSome(Vec<String>),
    /// The usability of a cached value is determined by its headers and other
    /// metadata; values that are no longer fresh are reloaded.
    RespectHeaders,
    /// The cached source files should be used.
    Use,
}

/// Whether a list of specifiers to reload covers an npm package: by `npm:`,
/// which stands for all of them, or by the package's own `npm:` specifier.
pub open spec fn reloads_npm_package(list: Seq<Seq<char>>, package_name: Seq<char>) -> bool {
    list.contains("npm:"@) || list.contains("npm:"@ + package_name)
}

impl CacheSetting {
    /// Whether the cached files of an npm package should be used.
    pub fn should_use_for_npm_package(&self, package_name: &str) -> (r: bool)
        ensures
            r == (match *self {
                CacheSetting::ReloadAll => false,
                CacheSetting::ReloadSome(list) => !reloads_npm_package(
                    list.deep_view(),
                    package_name@,
                ),
                _ => true,
            }),
    {
        match self {
            CacheSetting::ReloadAll => false,
            CacheSetting::ReloadSome(list) => {
                if contains_text(list, "npm:") {
                    return false;
                }
                let specifier: String = concat2("npm:", package_name);
                !contains_text(list, specifier.as_str())
            },
            _ => true,
        }
    }
}

/// Cached files of an npm package are used unless all files are reloaded, all npm
/// packages are, or this one is.
pub proof fn law_npm_cache_use(setting: &CacheSetting, package_name: &str, r: bool)
    requires
        call_ensures(CacheSetting::should_use_for_npm_package, (setting, package_name), r),
    ensures
        *setting is ReloadAll ==> !r,
        *setting is Only || *setting is RespectHeaders || *setting is Use ==> r,
        *setting matches CacheSetting::ReloadSome(list) ==> (!r <==> exists|i: int|
            0 <= i < list.len() && ((#[trigger] list@[i])@ == "npm:"@ || list@[i]@ == "npm:"@
                + package_name@)),
{
    if let CacheSetting::ReloadSome(list) = *setting {
        let view = list.deep_view();
        if !r {
            let item = if view.contains("npm:"@) {
                "npm:"@
            } else {
                "npm:"@ + package_name@
            };
            let i = choose|i: int| 0 <= i < view.len() && view[i] == item;
            assert(list@[i]@ == item);
        }
        if exists|i: int|
            0 <= i < list.len() && ((#[trigger] list@[i])@ == "npm:"@ || list@[i]@ == "npm:"@
                + package_name@) {
            let i = choose|i: int|
                0 <= i < list.len() && ((#[trigger] list@[i])@ == "npm:"@ || list@[i]@ == "npm:"@
                    + package_name@);
            assert(view[i] == list@[i]@);
        }
    }
}

} // verus!
