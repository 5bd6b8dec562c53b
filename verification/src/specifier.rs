//! Module specifiers: URLs, and the operations of the `url` crate on them. File
//! URLs stand for POSIX paths.

use url::Url;
use vstd::prelude::*;
use vstd::string::*;

use crate::text::{
    concat2, has_prefix, law_split_parts, law_trimmed_end, same_text, split_parts, split_text,
    trim_end_char, trimmed_end,
};

verus! {

/// What a fallible operation on text gave, character by character.
pub open spec fn text_outcome(r: Result<String, String>) -> Result<Seq<char>, Seq<char>> {
    match r {
        Ok(t) => Ok(t@),
        Err(e) => Err(e@),
    }
}

/// A URL.
#[verifier::external_type_specification]
#[verifier::external_body]
pub struct ExUrl(url::Url);

/// The serialization of a URL.
pub uninterp spec fn url_text(url: Url) -> Seq<char>;

/// The serialization of a URL, if there is one.
pub open spec fn url_texts(url: Option<Url>) -> Option<Seq<char>> {
    match url {
        Some(url) => Some(url_text(url)),
        None => None,
    }
}

/// The serialization of the URL that a text parses to, or the text of the parse
/// error.
pub uninterp spec fn url_parsed(text: Seq<char>) -> Result<Seq<char>, Seq<char>>;

/// Whether a serialized URL has the scheme `http` or `https`.
pub open spec fn is_web(href: Seq<char>) -> bool {
    has_prefix(href, "https://"@) || has_prefix(href, "http://"@)
}

/// Where a text first holds one of two characters, from an index on; its length
/// where it holds neither there.
pub open spec fn first_of(s: Seq<char>, from: int, a: char, b: char) -> int
    decreases s.len() - from,
{
    if from >= s.len() || s[from] == a || s[from] == b {
        from
    } else {
        first_of(s, from + 1, a, b)
    }
}

/// Where the path of a serialized web URL starts: at the first slash behind the
/// pair of slashes.
pub open spec fn path_start(href: Seq<char>) -> int {
    first_of(
        href,
        if has_prefix(href, "https://"@) {
            8
        } else {
            7
        },
        '/',
        '/',
    )
}

/// Where the path of a serialized web URL ends: at its query or its fragment.
pub open spec fn path_end(href: Seq<char>) -> int {
    first_of(href, path_start(href), '?', '#')
}

/// The path of a serialized web URL.
pub open spec fn web_path(href: Seq<char>) -> Seq<char> {
    href.subrange(path_start(href), path_end(href))
}

/// The scheme, the credentials, the host and the port of a serialized web URL.
pub open spec fn web_site(href: Seq<char>) -> Seq<char> {
    href.take(path_start(href))
}

/// A serialized web URL with another path.
pub open spec fn with_web_path(href: Seq<char>, path: Seq<char>) -> Seq<char> {
    web_site(href) + path + href.skip(path_end(href))
}

/// Whether a path is the name of a folder: letters with a slash behind them.
pub open spec fn is_folder_path(path: Seq<char>) -> bool {
    &&& path.len() > 1
    &&& path.last() == '/'
    &&& forall|i: int| 0 <= i < path.len() - 1 ==> 'a' <= #[trigger] path[i] <= 'z'
}

/// The serialization of `relative` resolved against the URL `base`; nothing
/// where it cannot be.
pub uninterp spec fn url_joined(base: Seq<char>, relative: Seq<char>) -> Option<Seq<char>>;

/// The text of the URL that `text` parses to, with `path` as its path.
pub uninterp spec fn url_with_path(text: Seq<char>, path: Seq<char>) -> Option<Seq<char>>;

/// The relative reference that leads from the URL `base` to the URL `target`.
pub uninterp spec fn url_relative(base: Seq<char>, target: Seq<char>) -> Option<Seq<char>>;

/// The file path that the URL `text` names.
pub uninterp spec fn url_file_path(text: Seq<char>) -> Option<Seq<char>>;

/// The serialization of the file URL of the directory at `path`. Components that
/// lead upwards stay in it.
pub uninterp spec fn directory_url(path: Seq<char>) -> Option<Seq<char>>;

/// The ASCII serialization of the origin of the URL `text`, where that origin
/// is a tuple origin.
pub uninterp spec fn url_tuple_origin(text: Seq<char>) -> Option<Seq<char>>;

/// `url::Url::as_str`: the serialization of the URL.
#[verifier::external_body]
pub(crate) fn text_of_url(url: &Url) -> (r: &str)
    ensures
        r@ == url_text(*url),
{
    url.as_str()
}

/// `url::Url::clone`: the same URL.
#[verifier::external_body]
fn copy_url(url: &Url) -> (r: Url)
    ensures
        r == *url,
{
    url.clone()
}

/// `url::Url::parse`: the serialization of the URL, and the message of the error,
/// depend on the text alone. Of a text that ends with a slash the serialization
/// ends with one. The registries that are used by default are serializations of
/// URLs.
#[verifier::external_body]
fn parse_url(text: &str) -> (r: Result<Url, String>)
    ensures
        url_parsed(text@) == (match r {
            Ok(url) => Ok::<Seq<char>, Seq<char>>(url_text(url)),
            Err(message) => Err(message@),
        }),
        (text@.len() > 0 && text@.last() == '/') ==> (r matches Ok(url) ==> url_text(url).len() > 0
            && url_text(url).last() == '/'),
        is_default_registry(text@) ==> r is Ok && url_text(r->Ok_0) == text@,
{
    Url::parse(text).map_err(|error| error.to_string())
}

/// `url::Url::join`: the result depends on the URL and the reference alone.
#[verifier::external_body]
fn join_url(base: &Url, relative: &str) -> (r: Option<Url>)
    ensures
        url_texts(r) == url_joined(url_text(*base), relative@),
{
    base.join(relative).ok()
}

/// `url::Url::set_path` on what `url::Url::parse` makes of `text`, with the name of
/// a folder as the path: the result depends on the two texts alone, and is `None`
/// exactly where `text` does not parse as a URL. It ends with a slash if `text`
/// does, because the query and the fragment stay. Of a web URL the path alone is
/// replaced, and the origin stays. The crate panics where a serialization outgrows
/// 32 bits, which the bound on the length rules out.
#[verifier::external_body]
fn replace_url_path(text: &str, path: &str) -> (r: Option<Url>)
    requires
        text@.len() + path@.len() < 0x1000_0000,
        is_folder_path(path@),
    ensures
        url_texts(r) == url_with_path(text@, path@),
        r is None <==> url_parsed(text@) is Err,
        (text@.len() > 0 && text@.last() == '/') ==> (r matches Some(url) ==> url_text(url).len() > 0
            && url_text(url).last() == '/'),
        (url_parsed(text@) matches Ok(before) && is_web(before)) ==> (r matches Some(url)
            ==> url_text(url) == with_web_path(url_parsed(text@)->Ok_0, seq!['/'] + path@)
            && url_tuple_origin(url_text(url)) == url_tuple_origin(url_parsed(text@)->Ok_0)),
{
    let mut url = Url::parse(text).ok()?;
    url.set_path(path);
    Some(url)
}

/// `url::Url::make_relative`: the result depends on the two URLs alone, and is
/// `None` where they share no base.
#[verifier::external_body]
fn relative_url(base: &Url, target: &Url) -> (r: Option<String>)
    ensures
        r.deep_view() == url_relative(url_text(*base), url_text(*target)),
{
    base.make_relative(target)
}

/// `url::Url::to_file_path`: the result depends on the URL alone, and is `None`
/// where it names no local path, or one that is not Unicode.
#[verifier::external_body]
fn file_path_of_url(url: &Url) -> (r: Option<String>)
    ensures
        r.deep_view() == url_file_path(url_text(*url)),
{
    url.to_file_path().ok()?.into_os_string().into_string().ok()
}

/// `url::Url::from_directory_path`: the result depends on the path alone; the URL
/// has the scheme `file` and ends with a slash.
#[verifier::external_body]
fn url_of_directory(path: &str) -> (r: Option<Url>)
    ensures
        url_texts(r) == directory_url(path@),
        r matches Some(url) ==> has_prefix(url_text(url), "file://"@) && url_text(url).len() > 0
            && url_text(url).last() == '/',
{
    Url::from_directory_path(path).ok()
}

/// `url::Url::origin`: the ASCII serialization of a tuple origin, which depends
/// on the URL alone; `None` for an opaque origin.
#[verifier::external_body]
fn tuple_origin_of_url(url: &Url) -> (r: Option<String>)
    ensures
        r.deep_view() == url_tuple_origin(url_text(*url)),
{
    match url.origin() {
        url::Origin::Opaque(_) => None,
        tuple => Some(tuple.ascii_serialization()),
    }
}

/// The URL of a module.
#[derive(Debug)]
pub struct ModuleSpecifier {
    url: Url,
}

impl View for ModuleSpecifier {
    type V = Seq<char>;

    closed spec fn view(&self) -> Seq<char> {
        url_text(self.url)
    }
}

impl DeepView for ModuleSpecifier {
    type V = Seq<char>;

    open spec fn deep_view(&self) -> Seq<char> {
        self.view()
    }
}

impl Clone for ModuleSpecifier {
    fn clone(&self) -> (r: ModuleSpecifier)
        ensures
            r == *self,
    {
        ModuleSpecifier { url: copy_url(&self.url) }
    }
}

/// The scheme of a serialized URL: what stands before its first colon.
pub open spec fn scheme_of(href: Seq<char>) -> Seq<char> {
    split_parts(href, ':')[0]
}

impl ModuleSpecifier {
    /// The specifier of a URL.
    pub fn from_url(url: Url) -> (r: ModuleSpecifier)
        ensures
            r@ == url_text(url),
    {
        ModuleSpecifier { url }
    }

    /// The URL of the specifier.
    pub fn as_url(&self) -> (r: &Url)
        ensures
            url_text(*r) == self@,
    {
        &self.url
    }

    /// Parses a text as an absolute URL.
    pub fn parse(text: &str) -> (r: Result<ModuleSpecifier, String>)
        ensures
            match r {
                Ok(specifier) => url_parsed(text@) == Ok::<Seq<char>, Seq<char>>(specifier@),
                Err(message) => url_parsed(text@) == Err::<Seq<char>, Seq<char>>(message@),
            },
    {
        match parse_url(text) {
            Ok(url) => Ok(ModuleSpecifier { url }),
            Err(message) => Err(message),
        }
    }

    /// The file URL of a directory, with a slash at its end.
    pub fn from_directory_path(path: &str) -> (r: Option<ModuleSpecifier>)
        ensures
            r.deep_view() == directory_url(path@),
            r matches Some(specifier) ==> has_prefix(specifier@, "file://"@)
                && specifier@.len() > 0 && specifier@.last() == '/',
    {
        match url_of_directory(path) {
            Some(url) => Some(ModuleSpecifier { url }),
            None => None,
        }
    }

    /// The serialization of the URL.
    pub fn as_str(&self) -> (r: &str)
        ensures
            r@ == self@,
    {
        text_of_url(&self.url)
    }

    /// Whether the URL has the given scheme.
    pub fn has_scheme(&self, scheme: &str) -> (r: bool)
        ensures
            r == (scheme_of(self@) == scheme@),
    {
        proof {
            lemma_split_not_empty(self@, ':');
        }
        let parts: Vec<String> = split_text(self.as_str(), ':');
        assert(parts.deep_view()[0] == parts@[0]@);
        same_text(parts[0].as_str(), scheme)
    }

    /// Resolves a reference against this URL.
    pub fn join(&self, relative: &str) -> (r: Option<ModuleSpecifier>)
        ensures
            r.deep_view() == url_joined(self@, relative@),
    {
        match join_url(&self.url, relative) {
            Some(url) => Some(ModuleSpecifier { url }),
            None => None,
        }
    }

    /// The reference that leads from this URL to `target`.
    pub fn make_relative(&self, target: &ModuleSpecifier) -> (r: Option<String>)
        ensures
            r.deep_view() == url_relative(self@, target@),
    {
        relative_url(&self.url, &target.url)
    }

    /// The local path that the URL names.
    pub fn to_file_path(&self) -> (r: Option<String>)
        ensures
            r.deep_view() == url_file_path(self@),
    {
        file_path_of_url(&self.url)
    }

    /// The ASCII serialization of the URL's origin, unless the origin is opaque.
    pub fn tuple_origin(&self) -> (r: Option<String>)
        ensures
            r.deep_view() == url_tuple_origin(self@),
    {
        tuple_origin_of_url(&self.url)
    }
}

pub(crate) proof fn lemma_split_not_empty(s: Seq<char>, sep: char)
    ensures
        split_parts(s, sep).len() > 0,
    decreases s.len(),
{
    if s.len() > 0 {
        lemma_split_not_empty(s.drop_last(), sep);
    }
}

/// The default npm registry.
pub const NPM_REGISTRY_DEFAULT_URL: &'static str = "https://registry.npmjs.org/";

/// The default JSR registry.
pub const JSR_DEFAULT_URL: &'static str = "https://jsr.io/";

/// The registry that stands in for all registries of the managed packages of a
/// compiled program, none of which it asks.
pub const STANDALONE_REGISTRY_URL: &'static str = "https://localhost/";

/// Whether a text is one of the registries that are used by default.
pub open spec fn is_default_registry(text: Seq<char>) -> bool {
    ||| text == NPM_REGISTRY_DEFAULT_URL@
    ||| text == JSR_DEFAULT_URL@
    ||| text == STANDALONE_REGISTRY_URL@
}

/// The text of a directory: the given text with exactly one slash at its end.
pub open spec fn directory_text(text: Seq<char>) -> Seq<char> {
    trimmed_end(text, |c: char| c == '/').push('/')
}

/// The registry that an environment variable names: the URL of its value as a
/// directory, or `default` where the variable is unset or is no URL.
pub open spec fn registry_url(env_value: Option<Seq<char>>, default: Seq<char>) -> Seq<char> {
    match env_value {
        Some(value) => match url_parsed(directory_text(value)) {
            Ok(href) => href,
            Err(_) => default,
        },
        None => default,
    }
}

fn as_directory_text(text: &str) -> (r: String)
    ensures
        r@ == directory_text(text@),
{
    proof {
        reveal_strlit("/");
    }
    let trimmed: String = trim_end_char(text, '/');
    let r: String = concat2(trimmed.as_str(), "/");
    assert(r@ == directory_text(text@));
    r
}

/// The URL of a registry that is used by default.
pub(crate) fn default_registry(text: &str) -> (r: ModuleSpecifier)
    requires
        is_default_registry(text@),
    ensures
        r@ == text@,
        url_parsed(text@) == Ok::<Seq<char>, Seq<char>>(text@),
{
    let parsed: Result<Url, String> = parse_url(text);
    ModuleSpecifier { url: parsed.unwrap() }
}

fn resolve_registry_url(env_value: Option<&str>, default: &str) -> (r: ModuleSpecifier)
    requires
        is_default_registry(default@),
    ensures
        r@ == registry_url(env_value.deep_view(), default@),
        r@.len() > 0 && r@.last() == '/',
{
    if let Some(value) = env_value {
        let text: String = as_directory_text(value);
        if let Ok(url) = parse_url(text.as_str()) {
            return ModuleSpecifier { url };
        }
    }
    proof {
        lemma_default_registry_is_directory(default@);
    }
    default_registry(default)
}

proof fn lemma_default_registry_is_directory(text: Seq<char>)
    requires
        is_default_registry(text),
    ensures
        text.len() > 0 && text.last() == '/',
{
    reveal_strlit("https://registry.npmjs.org/");
    reveal_strlit("https://jsr.io/");
    reveal_strlit("https://localhost/");
}

/// The npm registry in use, given the value of `NPM_CONFIG_REGISTRY`. Its URL
/// ends with a slash.
pub fn npm_registry_url(env_value: Option<&str>) -> (r: ModuleSpecifier)
    ensures
        r@ == registry_url(env_value.deep_view(), NPM_REGISTRY_DEFAULT_URL@),
        r@.len() > 0 && r@.last() == '/',
{
    resolve_registry_url(env_value, NPM_REGISTRY_DEFAULT_URL)
}

/// The JSR registry in use, given the value of `JSR_URL`. Its URL ends with a
/// slash.
pub fn jsr_url(env_value: Option<&str>) -> (r: ModuleSpecifier)
    ensures
        r@ == registry_url(env_value.deep_view(), JSR_DEFAULT_URL@),
        r@.len() > 0 && r@.last() == '/',
{
    resolve_registry_url(env_value, JSR_DEFAULT_URL)
}

/// The text that the JSR registry in use is parsed from.
pub open spec fn jsr_text(env_value: Option<Seq<char>>) -> Seq<char> {
    match env_value {
        Some(value) => if url_parsed(directory_text(value)) is Ok {
            directory_text(value)
        } else {
            JSR_DEFAULT_URL@
        },
        None => JSR_DEFAULT_URL@,
    }
}

/// The API of the JSR registry in use, given the value of `JSR_URL`: the
/// registry's URL with the path `/api/`. It ends with a slash as the registry's
/// does, and of a web registry the origin stays.
pub fn jsr_api_url(env_value: Option<&str>) -> (r: ModuleSpecifier)
    requires
        env_value matches Some(value) ==> value@.len() < 0x0800_0000,
    ensures
        url_with_path(jsr_text(env_value.deep_view()), "api/"@) == Some(r@),
        is_web(registry_url(env_value.deep_view(), JSR_DEFAULT_URL@)) ==> {
            &&& r@ == with_web_path(
                registry_url(env_value.deep_view(), JSR_DEFAULT_URL@),
                "/api/"@,
            )
            &&& url_tuple_origin(r@) == url_tuple_origin(
                registry_url(env_value.deep_view(), JSR_DEFAULT_URL@),
            )
        },
        r@.len() > 0 && r@.last() == '/',
{
    proof {
        reveal_strlit("api/");
        reveal_strlit("/api/");
        assert(seq!['/'] + "api/"@ == "/api/"@);
    }
    if let Some(value) = env_value {
        let text: String = as_directory_text(value);
        proof {
            lemma_trimmed_end_shorter(value@, |c: char| c == '/');
        }
        if let Some(url) = replace_url_path(text.as_str(), "api/") {
            return ModuleSpecifier { url };
        }
    }
    proof {
        reveal_strlit("https://jsr.io/");
    }
    let default: ModuleSpecifier = default_registry(JSR_DEFAULT_URL);
    let url: Option<Url> = replace_url_path(default.as_str(), "api/");
    ModuleSpecifier { url: url.unwrap() }
}

proof fn lemma_first_of(s: Seq<char>, from: int, a: char, b: char)
    requires
        0 <= from <= s.len(),
    ensures
        from <= first_of(s, from, a, b) <= s.len(),
        forall|k: int|
            from <= k < first_of(s, from, a, b) ==> #[trigger] s[k] != a && s[k] != b,
        first_of(s, from, a, b) < s.len() ==> s[first_of(s, from, a, b)] == a || s[first_of(
            s,
            from,
            a,
            b,
        )] == b,
    decreases s.len() - from,
{
    if !(from >= s.len() || s[from] == a || s[from] == b) {
        lemma_first_of(s, from + 1, a, b);
    }
}

proof fn lemma_first_of_is(s: Seq<char>, from: int, a: char, b: char, at: int)
    requires
        0 <= from <= at <= s.len(),
        forall|k: int| from <= k < at ==> #[trigger] s[k] != a && s[k] != b,
        at < s.len() ==> s[at] == a || s[at] == b,
    ensures
        first_of(s, from, a, b) == at,
    decreases at - from,
{
    if from < at {
        assert(s[from] != a);
        lemma_first_of_is(s, from + 1, a, b, at);
    }
}

/// A web URL with another path has that path, on the same site, and keeps its
/// last character where it has a query or a fragment.
pub proof fn law_web_path_is_replaced(href: Seq<char>, path: Seq<char>)
    requires
        is_web(href),
        path.len() > 0,
        path[0] == '/',
        forall|i: int| 0 <= i < path.len() ==> #[trigger] path[i] != '?' && path[i] != '#',
    ensures
        web_path(with_web_path(href, path)) == path,
        web_site(with_web_path(href, path)) == web_site(href),
        with_web_path(href, path).len() > 0,
        with_web_path(href, path).last() == (if path_end(href) < href.len() {
            href.last()
        } else {
            path.last()
        }),
{
    reveal_strlit("https://");
    reveal_strlit("http://");
    let from: int = if has_prefix(href, "https://"@) {
        8
    } else {
        7
    };
    let start = path_start(href);
    let end = path_end(href);
    lemma_first_of(href, from, '/', '/');
    lemma_first_of(href, start, '?', '#');
    let new = with_web_path(href, path);
    assert(new.take(from) == href.take(from));
    assert(has_prefix(new, "https://"@) == has_prefix(href, "https://"@)) by {
        if has_prefix(href, "https://"@) {
            assert(new.take(8) == "https://"@);
        } else {
            assert(href[4] == "http://"@[4]) by {
                assert(href.take(7)[4] == href[4]);
            }
            assert(new[4] == href[4]);
            if has_prefix(new, "https://"@) {
                assert(new.take(8)[4] == new[4]);
            }
        }
    }
    assert forall|k: int| from <= k < start implies #[trigger] new[k] != '/' by {
        assert(new[k] == href[k]);
    }
    assert(new[start] == path[0]);
    lemma_first_of_is(new, from, '/', '/', start);
    assert forall|k: int| start <= k < start + path.len() implies #[trigger] new[k] != '?'
        && new[k] != '#' by {
        assert(new[k] == path[k - start]);
    }
    if end < href.len() {
        assert(new[start + path.len()] == href[end]);
    }
    lemma_first_of_is(new, start, '?', '#', start + path.len());
    assert(web_path(new) == path);
    assert(web_site(new) == web_site(href));
}

/// The API of a web registry has the path `/api/` on the registry's site.
pub proof fn law_api_is_on_the_same_site(registry: Seq<char>)
    requires
        is_web(registry),
    ensures
        web_path(with_web_path(registry, "/api/"@)) == "/api/"@,
        web_site(with_web_path(registry, "/api/"@)) == web_site(registry),
{
    reveal_strlit("/api/");
    law_web_path_is_replaced(registry, "/api/"@);
}

proof fn lemma_trimmed_end_shorter(s: Seq<char>, junk: spec_fn(char) -> bool)
    ensures
        trimmed_end(s, junk).len() <= s.len(),
    decreases s.len(),
{
    if s.len() > 0 && junk(s.last()) {
        lemma_trimmed_end_shorter(s.drop_last(), junk);
    }
}

proof fn lemma_trimmed_end_last(s: Seq<char>, junk: spec_fn(char) -> bool)
    ensures
        trimmed_end(s, junk).len() > 0 ==> !junk(trimmed_end(s, junk).last()),
    decreases s.len(),
{
    if s.len() > 0 && junk(s.last()) {
        lemma_trimmed_end_last(s.drop_last(), junk);
    }
}

/// The text that a registry variable is parsed from ends with exactly one
/// slash, whatever slashes the variable's value ends with.
pub proof fn law_registry_text_is_directory(value: Seq<char>)
    ensures
        directory_text(value).last() == '/',
        directory_text(value).len() > 1 ==> directory_text(value)[directory_text(value).len() - 2]
            != '/',
        directory_text(value.push('/')) == directory_text(value),
{
    lemma_trimmed_end_last(value, |c: char| c == '/');
    assert(value.push('/').drop_last() == value);
}

/// A registry is the one that its variable names, read as a directory, and the default
/// one where the variable is not set or names no URL.
pub proof fn law_registries(value: Option<&str>, npm: ModuleSpecifier, jsr: ModuleSpecifier)
    requires
        call_ensures(npm_registry_url, (value,), npm),
        call_ensures(jsr_url, (value,), jsr),
    ensures
        value is None ==> npm@ == "https://registry.npmjs.org/"@ && jsr@ == "https://jsr.io/"@,
        value matches Some(text) ==> {
            let parsed = url_parsed(directory_text(text@));
            &&& parsed matches Ok(url) ==> npm@ == url && jsr@ == url
            &&& parsed is Err ==> npm@ == "https://registry.npmjs.org/"@ && jsr@
                == "https://jsr.io/"@
        },
        npm@.len() > 0 && npm@.last() == '/',
        jsr@.len() > 0 && jsr@.last() == '/',
{
}

/// A text read as a directory is the text with all the slashes at its end replaced by one.
pub proof fn law_directory_text(text: Seq<char>, count: int)
    requires
        0 <= count <= text.len(),
        forall|i: int| count <= i < text.len() ==> #[trigger] text[i] == '/',
        count > 0 ==> text[count - 1] != '/',
    ensures
        directory_text(text) == text.take(count).push('/'),
{
    law_trimmed_end(text, |c: char| c == '/');
    let kept = trimmed_end(text, |c: char| c == '/');
    if kept.len() > count {
        assert(text[kept.len() - 1] == kept.last());
    }
    if kept.len() < count {
        assert(text[count - 1] == '/');
    }
}

/// The API of a JSR registry on the web is on the registry's site, under `/api/`, and has
/// its origin.
pub proof fn law_jsr_api(value: Option<&str>, registry: ModuleSpecifier, api: ModuleSpecifier)
    requires
        call_ensures(jsr_url, (value,), registry),
        call_ensures(jsr_api_url, (value,), api),
        is_web(registry@),
    ensures
        web_path(api@) == "/api/"@,
        web_site(api@) == web_site(registry@),
        url_tuple_origin(api@) == url_tuple_origin(registry@),
        api@.last() == '/',
{
    law_api_is_on_the_same_site(registry@);
}

/// A URL has a scheme exactly where the scheme stands before its first colon.
pub proof fn law_scheme(url: &ModuleSpecifier, scheme: &str, r: bool)
    requires
        call_ensures(ModuleSpecifier::has_scheme, (url, scheme), r),
        url@.contains(':'),
    ensures
        r <==> (!scheme@.contains(':') && exists|rest: Seq<char>|
            url@ == #[trigger] (scheme@ + seq![':'] + rest)),
{
    law_split_parts(url@, ':');
    let parts = split_parts(url@, ':');
    let first = parts[0];
    assert(!first.contains(':'));
    lemma_first_part(url@, ':');
    if r {
        let rest = choose|rest: Seq<char>| url@ == #[trigger] (first + seq![':'] + rest);
        assert(url@ == scheme@ + seq![':'] + rest);
    }
    if !scheme@.contains(':') && exists|rest: Seq<char>|
        url@ == #[trigger] (scheme@ + seq![':'] + rest) {
        let rest = choose|rest: Seq<char>| url@ == #[trigger] (scheme@ + seq![':'] + rest);
        let other = choose|other: Seq<char>| url@ == #[trigger] (first + seq![':'] + other);
        if first.len() < scheme@.len() {
            assert(url@[first.len() as int] == ':');
            assert(scheme@[first.len() as int] == ':');
            assert(scheme@.contains(':'));
        }
        if scheme@.len() < first.len() {
            assert(url@[scheme@.len() as int] == ':');
            assert(first[scheme@.len() as int] == ':');
            assert(first.contains(':'));
        }
        assert(url@.take(first.len() as int) == first);
        assert(url@.take(scheme@.len() as int) == scheme@);
    }
}

proof fn lemma_first_part(s: Seq<char>, sep: char)
    requires
        s.contains(sep),
    ensures
        exists|rest: Seq<char>| s == #[trigger] (split_parts(s, sep)[0] + seq![sep] + rest),
    decreases s.len(),
{
    let front = s.drop_last();
    let before = split_parts(front, sep);
    let parts = split_parts(s, sep);
    lemma_split_not_empty(front, sep);
    law_split_parts(front, sep);
    if front.contains(sep) {
        lemma_first_part(front, sep);
        let rest = choose|rest: Seq<char>| front == #[trigger] (before[0] + seq![sep] + rest);
        lemma_more_parts(front, sep);
        assert(parts[0] == before[0]);
        assert(s == front.push(s.last()));
        assert(s =~= parts[0] + seq![sep] + rest.push(s.last()));
    } else {
        lemma_one_part(front, sep);
        let k = choose|k: int| 0 <= k < s.len() && s[k] == sep;
        if k < front.len() {
            assert(front[k] == sep);
        }
        assert(s.last() == sep);
        assert(parts[0] == front);
        assert(s == front + seq![sep] + Seq::<char>::empty());
    }
}

/// A text without the separator is its only part.
pub(crate) proof fn lemma_one_part(s: Seq<char>, sep: char)
    requires
        !s.contains(sep),
    ensures
        split_parts(s, sep) == seq![s],
    decreases s.len(),
{
    if s.len() > 0 {
        let front = s.drop_last();
        assert(s.contains(s[s.len() - 1]));
        if front.contains(sep) {
            let k = choose|k: int| 0 <= k < front.len() && front[k] == sep;
            assert(s[k] == sep);
        }
        lemma_one_part(front, sep);
        assert(front.push(s.last()) == s);
        assert(split_parts(s, sep) == seq![s]);
    } else {
        assert(s == Seq::<char>::empty());
    }
}

proof fn lemma_more_parts(s: Seq<char>, sep: char)
    requires
        s.contains(sep),
    ensures
        split_parts(s, sep).len() > 1,
    decreases s.len(),
{
    let front = s.drop_last();
    lemma_split_not_empty(front, sep);
    if s.last() != sep {
        let k = choose|k: int| 0 <= k < s.len() && s[k] == sep;
        assert(front[k] == sep);
        lemma_more_parts(front, sep);
    }
}

/// A URL is parsed, joined and made relative as texts are, and its parts are those of its
/// text.
pub proof fn law_urls(
    url: &ModuleSpecifier,
    text: &str,
    parsed: Result<ModuleSpecifier, String>,
    beside: Option<ModuleSpecifier>,
    directory: Option<ModuleSpecifier>,
    path: Option<String>,
    origin: Option<String>,
    shown: &str,
)
    requires
        call_ensures(ModuleSpecifier::parse, (text,), parsed),
        call_ensures(ModuleSpecifier::join, (url, text), beside),
        call_ensures(ModuleSpecifier::from_directory_path, (text,), directory),
        call_ensures(ModuleSpecifier::to_file_path, (url,), path),
        call_ensures(ModuleSpecifier::tuple_origin, (url,), origin),
        call_ensures(ModuleSpecifier::as_str, (url,), shown),
    ensures
        parsed is Ok <==> url_parsed(text@) is Ok,
        parsed is Ok ==> parsed->Ok_0@ == url_parsed(text@)->Ok_0,
        parsed is Err ==> parsed->Err_0@ == url_parsed(text@)->Err_0,
        beside.deep_view() == url_joined(url@, text@),
        directory.deep_view() == directory_url(text@),
        path.deep_view() == url_file_path(url@),
        origin.deep_view() == url_tuple_origin(url@),
        shown@ == url@,
{
}

/// The API of any JSR registry is what replacing the registry's path by `api/` gives. A
/// variable that names no URL leaves it at that of the default registry.
pub proof fn law_jsr_api_of_any_registry(value: Option<&str>, api: ModuleSpecifier)
    requires
        call_ensures(jsr_api_url, (value,), api),
    ensures
        value is None ==> url_with_path("https://jsr.io/"@, "api/"@) == Some(api@),
        value matches Some(text) ==> {
            &&& url_parsed(directory_text(text@)) is Ok ==> url_with_path(
                directory_text(text@),
                "api/"@,
            ) == Some(api@)
            &&& url_parsed(directory_text(text@)) is Err ==> url_with_path(
                "https://jsr.io/"@,
                "api/"@,
            ) == Some(api@)
        },
        api@.len() > 0 && api@.last() == '/',
{
}

} // verus!
