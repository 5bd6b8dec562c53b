//! What the text of a configuration file says: its plain entries, its exports,
//! its lockfile and the type definitions that it brings in.

use deno_config::deno_json::ConfigFile as File;
use serde_json::Value;
use url::Url;
use vstd::prelude::*;

use crate::json::{
    as_array, as_object, as_text, entry, find_entry, is_boolean, is_null, items_of, json_contents,
    JsonView,
};
use crate::path::{parent, path_parent};
use crate::specifier::{url_file_path, url_text, ModuleSpecifier};
use crate::text::{chars_of, is_digit};
use crate::versions::{digits_end, find_digits_end, lemma_digits_are_digits};

verus! {

/// How deep the objects and the lists of a configuration file may be nested. Each
/// level takes some kilobytes of the stack while the file is read, and the stack of a
/// thread holds fewer than five hundred of them in code that is not optimized.
pub const DEEPEST_NESTING: usize = 128;

/// What a character of a configuration file stands in.
#[derive(Clone, Copy, Debug, PartialEq, Eq, Structural)]
pub enum JsonPlace {
    /// Between tokens.
    Plain,
    /// Behind a slash that may start a comment.
    Slash,
    /// In a comment that ends with its line.
    LineComment,
    /// In a comment between marks.
    BlockComment,
    /// Behind an asterisk that may end such a comment.
    BlockStar,
    /// In a text between single or between double quotes.
    Text(bool),
    /// Behind a backslash in such a text.
    Escape(bool),
}

/// Where a character leads from a place.
pub open spec fn next_place(place: JsonPlace, c: char) -> JsonPlace {
    match place {
        JsonPlace::Plain => if c == '"' {
            JsonPlace::Text(true)
        } else if c == '\'' {
            JsonPlace::Text(false)
        } else if c == '/' {
            JsonPlace::Slash
        } else {
            JsonPlace::Plain
        },
        JsonPlace::Slash => if c == '/' {
            JsonPlace::LineComment
        } else if c == '*' {
            JsonPlace::BlockComment
        } else {
            JsonPlace::Plain
        },
        JsonPlace::LineComment => if c == '\n' {
            JsonPlace::Plain
        } else {
            JsonPlace::LineComment
        },
        JsonPlace::BlockComment => if c == '*' {
            JsonPlace::BlockStar
        } else {
            JsonPlace::BlockComment
        },
        JsonPlace::BlockStar => if c == '/' {
            JsonPlace::Plain
        } else if c == '*' {
            JsonPlace::BlockStar
        } else {
            JsonPlace::BlockComment
        },
        JsonPlace::Text(double) => if c == '\\' {
            JsonPlace::Escape(double)
        } else if (double && c == '"') || (!double && c == '\'') {
            JsonPlace::Plain
        } else {
            JsonPlace::Text(double)
        },
        JsonPlace::Escape(double) => JsonPlace::Text(double),
    }
}

/// What a text of JSON ends in.
pub open spec fn place_behind(text: Seq<char>) -> JsonPlace
    decreases text.len(),
{
    if text.len() == 0 {
        JsonPlace::Plain
    } else {
        next_place(place_behind(text.drop_last()), text.last())
    }
}

/// How many objects and lists are open behind a text of JSON.
pub open spec fn nesting_behind(text: Seq<char>) -> int
    decreases text.len(),
{
    if text.len() == 0 {
        0
    } else {
        let before = nesting_behind(text.drop_last());
        if place_behind(text.drop_last()) != JsonPlace::Plain {
            before
        } else if text.last() == '[' || text.last() == '{' {
            before + 1
        } else if (text.last() == ']' || text.last() == '}') && before > 0 {
            before - 1
        } else {
            before
        }
    }
}

/// Whether the objects and the lists of a text of JSON are nested no deeper
/// than they may be.
pub open spec fn is_shallow(text: Seq<char>) -> bool {
    forall|i: int|
        0 <= i <= text.len() ==> #[trigger] nesting_behind(text.take(i)) <= DEEPEST_NESTING
}

/// How many digits the whole part of a number may have that is written without a
/// fraction and an exponent. A few numbers of one more digit can be held as well.
pub const MOST_DIGITS: usize = 308;

/// From which size on exponents are not told apart.
pub const LARGEST_EXPONENT: usize = 1000000;

/// The number that digits between two indices stand for, up to the largest exponent.
pub open spec fn capped_number(text: Seq<char>, from: int, end: int) -> int
    decreases end - from,
{
    if from >= end {
        0
    } else {
        let number = capped_number(text, from, end - 1) * 10 + (text[end - 1] as int - '0' as int);
        if number < LARGEST_EXPONENT {
            number
        } else {
            LARGEST_EXPONENT as int
        }
    }
}

/// The exponent of a number at an index: whether it is negative, and its size.
pub open spec fn exponent_at(text: Seq<char>, at: int) -> (bool, int) {
    if at >= text.len() || (text[at] != 'e' && text[at] != 'E') {
        (false, 0)
    } else {
        let is_signed = at + 1 < text.len() && (text[at + 1] == '-' || text[at + 1] == '+');
        let from = if is_signed {
            at + 2
        } else {
            at + 1
        };
        (is_signed && text[at + 1] == '-', capped_number(text, from, digits_end(text, from)))
    }
}

/// Where the first digit other than zero stands between two indices.
pub open spec fn first_digit(text: Seq<char>, from: int, end: int) -> Option<int>
    decreases end - from,
{
    if from >= end {
        None
    } else if text[from] != '0' && text[from] != '.' {
        Some(from)
    } else {
        first_digit(text, from + 1, end)
    }
}

/// Where the fraction of a number ends whose whole part ends at an index.
pub open spec fn fraction_end(text: Seq<char>, whole_end: int) -> int {
    if whole_end < text.len() && text[whole_end] == '.' {
        digits_end(text, whole_end + 1)
    } else {
        whole_end
    }
}

/// Whether the number at an index is zero or can be written with few enough digits in
/// its whole part.
pub open spec fn is_small_number(text: Seq<char>, at: int) -> bool {
    let whole_end = digits_end(text, at);
    let end = fraction_end(text, whole_end);
    let (is_negative, size) = exponent_at(text, end);
    match first_digit(text, at, end) {
        Some(first) => {
            let digits = if first < whole_end {
                whole_end - first
            } else {
                whole_end + 1 - first
            };
            if is_negative {
                digits - size <= MOST_DIGITS
            } else {
                size < LARGEST_EXPONENT && digits + size <= MOST_DIGITS
            }
        },
        None => true,
    }
}

/// Whether a number starts at an index of a text of JSON, behind its sign.
pub open spec fn is_number_start(text: Seq<char>, at: int) -> bool {
    &&& is_digit(text[at])
    &&& place_behind(text.take(at)) == JsonPlace::Plain
    &&& at > 0 ==> !is_digit(text[at - 1]) && text[at - 1] != '.'
}

/// Whether the numbers in a text of JSON are small enough to be held.
pub open spec fn has_small_numbers(text: Seq<char>) -> bool {
    forall|i: int|
        0 <= i < text.len() && #[trigger] is_number_start(text, i) ==> is_small_number(text, i)
}

/// Whether a text of JSON can be parsed, or found to be none: it is not nested too
/// deep, and its numbers are small enough.
pub open spec fn is_parsable(text: Seq<char>) -> bool {
    is_shallow(text) && has_small_numbers(text)
}

fn read_capped(chars: &Vec<char>, from: usize, end: usize) -> (r: usize)
    requires
        from <= end <= chars.len(),
        forall|i: int| from <= i < end ==> is_digit(#[trigger] chars@[i]),
    ensures
        r == capped_number(chars@, from as int, end as int),
        r <= LARGEST_EXPONENT,
{
    let mut number: usize = 0;
    let mut i: usize = from;
    while i < end
        invariant
            from <= i <= end <= chars.len(),
            forall|k: int| from <= k < end ==> is_digit(#[trigger] chars@[k]),
            number == capped_number(chars@, from as int, i as int),
            number <= LARGEST_EXPONENT,
        decreases end - i,
    {
        let c: char = chars[i];
        assert(is_digit(chars@[i as int]));
        let digit: usize = (c as u32 - '0' as u32) as usize;
        let longer: usize = number * 10 + digit;
        number = if longer < LARGEST_EXPONENT {
            longer
        } else {
            LARGEST_EXPONENT
        };
        i = i + 1;
    }
    number
}

fn read_exponent(chars: &Vec<char>, at: usize) -> (r: (bool, usize))
    requires
        at <= chars.len(),
    ensures
        (r.0, r.1 as int) == exponent_at(chars@, at as int),
        r.1 <= LARGEST_EXPONENT,
{
    if at >= chars.len() || (chars[at] != 'e' && chars[at] != 'E') {
        return (false, 0);
    }
    let is_signed: bool = chars.len() - at > 1 && (chars[at + 1] == '-' || chars[at + 1] == '+');
    let is_negative: bool = is_signed && chars[at + 1] == '-';
    let from: usize = if is_signed {
        at + 2
    } else {
        at + 1
    };
    let end: usize = find_digits_end(chars, from);
    proof {
        lemma_digits_are_digits(chars@, from as int);
    }
    (is_negative, read_capped(chars, from, end))
}

fn check_number(chars: &Vec<char>, at: usize) -> (r: bool)
    requires
        at <= chars.len(),
    ensures
        r == is_small_number(chars@, at as int),
{
    let whole_end: usize = find_digits_end(chars, at);
    let end: usize = if whole_end < chars.len() && chars[whole_end] == '.' {
        find_digits_end(chars, whole_end + 1)
    } else {
        whole_end
    };
    let (is_negative, size): (bool, usize) = read_exponent(chars, end);
    let mut first: usize = at;
    while first < end && (chars[first] == '0' || chars[first] == '.')
        invariant
            at <= first <= end <= chars.len(),
            first_digit(chars@, at as int, end as int) == first_digit(
                chars@,
                first as int,
                end as int,
            ),
        decreases end - first,
    {
        first = first + 1;
    }
    if first >= end {
        return true;
    }
    if first < whole_end {
        let digits: usize = whole_end - first;
        if is_negative {
            digits <= size || digits - size <= MOST_DIGITS
        } else {
            size < LARGEST_EXPONENT && digits <= MOST_DIGITS && size <= MOST_DIGITS - digits
        }
    } else {
        let zeros: usize = first - whole_end;
        is_negative || (size < LARGEST_EXPONENT && (size <= MOST_DIGITS || size - MOST_DIGITS
            < zeros))
    }
}

fn check_numbers(text: &str) -> (r: bool)
    ensures
        r == has_small_numbers(text@),
{
    let chars: Vec<char> = chars_of(text);
    let mut place: JsonPlace = JsonPlace::Plain;
    let mut i: usize = 0;
    assert(text@.take(0) == Seq::<char>::empty());
    while i < chars.len()
        invariant
            i <= chars.len(),
            chars@ == text@,
            place == place_behind(text@.take(i as int)),
            forall|k: int|
                0 <= k < i && #[trigger] is_number_start(text@, k) ==> is_small_number(text@, k),
        decreases chars.len() - i,
    {
        let c: char = chars[i];
        assert(text@.take(i + 1).drop_last() == text@.take(i as int));
        assert(text@.take(i + 1).last() == c);
        let is_start: bool = '0' <= c && c <= '9' && place == JsonPlace::Plain && (i == 0 || !(('0'
            <= chars[i - 1] && chars[i - 1] <= '9') || chars[i - 1] == '.'));
        assert(is_start == is_number_start(text@, i as int));
        if is_start && !check_number(&chars, i) {
            return false;
        }
        place = step_place(place, c);
        i = i + 1;
    }
    true
}

fn step_place(place: JsonPlace, c: char) -> (r: JsonPlace)
    ensures
        r == next_place(place, c),
{
    match place {
        JsonPlace::Plain => if c == '"' {
            JsonPlace::Text(true)
        } else if c == '\'' {
            JsonPlace::Text(false)
        } else if c == '/' {
            JsonPlace::Slash
        } else {
            JsonPlace::Plain
        },
        JsonPlace::Slash => if c == '/' {
            JsonPlace::LineComment
        } else if c == '*' {
            JsonPlace::BlockComment
        } else {
            JsonPlace::Plain
        },
        JsonPlace::LineComment => if c == '\n' {
            JsonPlace::Plain
        } else {
            JsonPlace::LineComment
        },
        JsonPlace::BlockComment => if c == '*' {
            JsonPlace::BlockStar
        } else {
            JsonPlace::BlockComment
        },
        JsonPlace::BlockStar => if c == '/' {
            JsonPlace::Plain
        } else if c == '*' {
            JsonPlace::BlockStar
        } else {
            JsonPlace::BlockComment
        },
        JsonPlace::Text(double) => if c == '\\' {
            JsonPlace::Escape(double)
        } else if (double && c == '"') || (!double && c == '\'') {
            JsonPlace::Plain
        } else {
            JsonPlace::Text(double)
        },
        JsonPlace::Escape(double) => JsonPlace::Text(double),
    }
}

fn check_nesting(text: &str) -> (r: bool)
    ensures
        r == is_shallow(text@),
{
    let chars: Vec<char> = chars_of(text);
    let mut place: JsonPlace = JsonPlace::Plain;
    let mut nesting: usize = 0;
    let mut i: usize = 0;
    assert(text@.take(0) == Seq::<char>::empty());
    while i < chars.len()
        invariant
            i <= chars.len(),
            chars@ == text@,
            place == place_behind(text@.take(i as int)),
            nesting == nesting_behind(text@.take(i as int)),
            nesting <= DEEPEST_NESTING,
            forall|k: int|
                0 <= k <= i ==> #[trigger] nesting_behind(text@.take(k)) <= DEEPEST_NESTING,
        decreases chars.len() - i,
    {
        let c: char = chars[i];
        assert(text@.take(i + 1).drop_last() == text@.take(i as int));
        assert(text@.take(i + 1).last() == c);
        if place == JsonPlace::Plain {
            if c == '[' || c == '{' {
                nesting = nesting + 1;
            } else if (c == ']' || c == '}') && nesting > 0 {
                nesting = nesting - 1;
            }
        }
        assert(nesting == nesting_behind(text@.take(i + 1)));
        if nesting > DEEPEST_NESTING {
            return false;
        }
        place = step_place(place, c);
        i = i + 1;
    }
    true
}

/// The text of a configuration file that is not nested too deep to be parsed, and
/// holds no numbers that are too large.
#[derive(Debug)]
pub struct ConfigText {
    text: String,
}

impl View for ConfigText {
    type V = Seq<char>;

    closed spec fn view(&self) -> Seq<char> {
        self.text@
    }
}

impl Clone for ConfigText {
    fn clone(&self) -> (r: ConfigText)
        ensures
            r@ == self@,
    {
        proof {
            use_type_invariant(self);
        }
        ConfigText { text: self.text.clone() }
    }
}

impl ConfigText {
    #[verifier::type_invariant]
    spec fn is_valid(self) -> bool {
        is_parsable(self.text@)
    }

    /// A text that can be parsed; nothing where it is nested too deep, or a number in
    /// it is too large.
    pub fn new(text: String) -> (r: Option<ConfigText>)
        ensures
            match r {
                Some(checked) => is_parsable(text@) && checked@ == text@,
                None => !is_parsable(text@),
            },
    {
        if check_nesting(text.as_str()) && check_numbers(text.as_str()) {
            Some(ConfigText { text })
        } else {
            None
        }
    }

    /// The text.
    pub fn as_str(&self) -> (r: &str)
        ensures
            r@ == self@,
            is_parsable(r@),
    {
        proof {
            use_type_invariant(self);
        }
        self.text.as_str()
    }
}

/// A configuration file as it was parsed.
#[verifier::external_type_specification]
#[verifier::external_body]
pub struct ExConfigFile(deno_config::deno_json::ConfigFile);

/// The text that a configuration file was parsed from, and its URL.
pub uninterp spec fn config_file_source(file: File) -> (Seq<char>, Seq<char>);

/// The message on a text that is no configuration file; nothing where it is one.
pub uninterp spec fn config_file_error(text: Seq<char>, specifier: Seq<char>) -> Option<Seq<char>>;

/// The export names of a configuration file with the modules they stand for, or
/// the message on what is wrong with them.
pub uninterp spec fn config_file_exports(text: Seq<char>, specifier: Seq<char>) -> Result<
    Seq<(Seq<char>, Seq<char>)>,
    Seq<char>,
>;

/// The lockfile that a configuration file asks for, none where it turns
/// lockfiles off, or the message on what is wrong with the entry.
pub uninterp spec fn config_file_lockfile(text: Seq<char>, specifier: Seq<char>) -> Result<
    Option<Seq<char>>,
    Seq<char>,
>;

/// The type definitions that a configuration file brings in, by the file they
/// are seen from, or the message on what is wrong with the entry.
pub uninterp spec fn config_file_types(text: Seq<char>, specifier: Seq<char>) -> Result<
    Seq<(Seq<char>, Seq<Seq<char>>)>,
    Seq<char>,
>;

/// Whether a configuration file asks for JavaScript to be checked.
pub uninterp spec fn config_file_checks_js(text: Seq<char>, specifier: Seq<char>) -> bool;

/// `deno_config::deno_json::ConfigFile::new` with default parse options: the file
/// stands for its text and its URL, and the message of the error depends on
/// these two alone. The crate calls itself for what is nested, so that a text may
/// not be nested too deep, and it panics on a number that outgrows a float.
#[verifier::external_body]
fn read_config_file(text: &str, specifier: &Url) -> (r: Result<File, String>)
    requires
        is_parsable(text@),
    ensures
        match r {
            Ok(file) => config_file_source(file) == (text@, url_text(*specifier)) && config_file_error(
                text@,
                url_text(*specifier),
            ) is None,
            Err(message) => config_file_error(text@, url_text(*specifier)) == Some(message@),
        },
{
    File::new(text, specifier.clone(), &Default::default()).map_err(|error| error.to_string())
}

/// A configuration file as it was parsed.
pub(crate) fn parse_config_file(text: &ConfigText, specifier: &ModuleSpecifier) -> (r: Result<
    File,
    String,
>)
    ensures
        match r {
            Ok(file) => config_file_source(file) == (text@, specifier@) && config_file_error(
                text@,
                specifier@,
            ) is None,
            Err(message) => config_file_error(text@, specifier@) == Some(message@),
        },
{
    read_config_file(text.as_str(), specifier.as_url())
}

/// The entries of a configuration file that option resolution reads.
#[derive(Debug)]
pub struct ConfigFileJson {
    pub name: Option<String>,
    pub version: Option<String>,
    pub import_map: Option<String>,
    /// The `imports` entry, written as JSON.
    pub imports: Option<String>,
    /// The `scopes` entry, written as JSON.
    pub scopes: Option<String>,
    /// The `exports` entry, written as JSON.
    pub exports: Option<String>,
    pub node_modules_dir: Option<bool>,
    pub vendor: Option<bool>,
    pub unstable: Vec<String>,
}

/// The entries of a configuration file that option resolution reads.
pub ghost struct ConfigFileJsonView {
    pub name: Option<Seq<char>>,
    pub version: Option<Seq<char>>,
    pub import_map: Option<Seq<char>>,
    pub imports: Option<Seq<char>>,
    pub scopes: Option<Seq<char>>,
    pub exports: Option<Seq<char>>,
    pub node_modules_dir: Option<bool>,
    pub vendor: Option<bool>,
    pub unstable: Seq<Seq<char>>,
}

impl DeepView for ConfigFileJson {
    type V = ConfigFileJsonView;

    open spec fn deep_view(&self) -> ConfigFileJsonView {
        ConfigFileJsonView {
            name: self.name.deep_view(),
            version: self.version.deep_view(),
            import_map: self.import_map.deep_view(),
            imports: self.imports.deep_view(),
            scopes: self.scopes.deep_view(),
            exports: self.exports.deep_view(),
            node_modules_dir: self.node_modules_dir,
            vendor: self.vendor,
            unstable: self.unstable.deep_view(),
        }
    }
}

/// The entries of a configuration file that option resolution reads.
pub uninterp spec fn config_file_json(text: Seq<char>, specifier: Seq<char>) -> ConfigFileJsonView;

/// The field `json` of `deno_config::deno_json::ConfigFile`: the entries depend
/// on the text and the URL of the file alone.
#[verifier::external_body]
fn read_json(file: &File) -> (r: ConfigFileJson)
    ensures
        r.deep_view() == config_file_json(config_file_source(*file).0, config_file_source(*file).1),
{
    let json = &file.json;
    ConfigFileJson {
        name: json.name.clone(),
        version: json.version.clone(),
        import_map: json.import_map.clone(),
        imports: json.imports.as_ref().map(|imports| imports.to_string()),
        scopes: json.scopes.as_ref().map(|scopes| scopes.to_string()),
        exports: json.exports.as_ref().map(|exports| exports.to_string()),
        node_modules_dir: json.node_modules_dir,
        vendor: json.vendor,
        unstable: json.unstable.clone(),
    }
}

/// The entries of a configuration file that option resolution reads.
pub fn json_of(text: &ConfigText, specifier: &ModuleSpecifier) -> (r: Result<
    ConfigFileJson,
    String,
>)
    ensures
        if_parsed(text@, specifier@, Ok(config_file_json(text@, specifier@))) == (match r {
            Ok(json) => Ok::<ConfigFileJsonView, Seq<char>>(json.deep_view()),
            Err(message) => Err(message@),
        }),
{
    match parse_config_file(text, specifier) {
        Ok(file) => Ok(read_json(&file)),
        Err(message) => Err(message),
    }
}

/// `deno_config::deno_json::ConfigFile::to_exports_config`: the exports, and the
/// message of the error, depend on the text and the URL of the file alone.
#[verifier::external_body]
fn read_exports(file: &File) -> (r: Result<Vec<(String, String)>, String>)
    ensures
        config_file_exports(config_file_source(*file).0, config_file_source(*file).1) == (match r {
            Ok(exports) => Ok::<Seq<(Seq<char>, Seq<char>)>, Seq<char>>(exports.deep_view()),
            Err(message) => Err(message@),
        }),
{
    let exports = file.to_exports_config().map_err(|error| error.to_string())?;
    Ok(exports.into_map().into_iter().collect())
}

/// The `lock` entry of a configuration file.
pub uninterp spec fn config_file_lock(text: Seq<char>, specifier: Seq<char>) -> Option<JsonView>;

/// Whether a `lock` entry names a path: it is one, or holds one beside a switch.
pub open spec fn names_path(lock: JsonView) -> bool {
    match lock {
        JsonView::Text(_) => true,
        JsonView::Object(entries) => {
            &&& entry(entries, "path"@) matches Some(JsonView::Text(_))
            &&& entry(entries, "frozen"@) matches Some(frozen) ==> is_switch(frozen)
        },
        JsonView::Array(items) => items.len() == 2 && items[0] is Text && is_switch(items[1]),
        _ => false,
    }
}

/// Whether a value is a truth value or `null`.
pub open spec fn is_switch(value: JsonView) -> bool {
    value is Bool || value is Null
}

/// Whether the lockfile that a configuration file asks for has a place: a path is
/// seen from the directory that the file is in, if it is a local one.
pub open spec fn has_place_for_lockfile(lock: Option<JsonView>, specifier: Seq<char>) -> bool {
    (lock matches Some(lock) && names_path(lock)) ==> (url_file_path(specifier) matches Some(path)
        ==> path_parent(path) is Some)
}

/// The field `json.lock` of `deno_config::deno_json::ConfigFile`: the entry
/// depends on the text and the URL of the file alone.
#[verifier::external_body]
fn read_lock(file: &File) -> (r: Option<Value>)
    ensures
        config_file_lock(config_file_source(*file).0, config_file_source(*file).1) == (match r {
            Some(lock) => Some(json_contents(lock)),
            None => None,
        }),
{
    file.json.lock.clone()
}

fn check_switch(value: &Value) -> (r: bool)
    ensures
        r == is_switch(json_contents(*value)),
{
    is_boolean(value) || is_null(value)
}

fn check_names_path(lock: &Value) -> (r: bool)
    ensures
        r == names_path(json_contents(*lock)),
{
    if as_text(lock).is_some() {
        return true;
    }
    if let Some(entries) = as_object(lock) {
        let names_path: bool = match find_entry(&entries, "path") {
            Some(i) => as_text(&entries[i].1).is_some(),
            None => false,
        };
        let is_fine: bool = match find_entry(&entries, "frozen") {
            Some(i) => check_switch(&entries[i].1),
            None => true,
        };
        return names_path && is_fine;
    }
    if let Some(items) = as_array(lock) {
        if items.len() == 2 {
            assert(items_of(items@)[0] == json_contents(items@[0]));
            assert(items_of(items@)[1] == json_contents(items@[1]));
            return as_text(&items[0]).is_some() && check_switch(&items[1]);
        }
        assert(items_of(items@).len() != 2);
    }
    false
}

/// `deno_config::deno_json::ConfigFile::resolve_lockfile_path`: the path, and the
/// message of the error, depend on the text and the URL of the file alone. A path
/// in the `lock` entry needs a directory above a local file, which the crate
/// takes.
#[verifier::external_body]
fn read_lockfile_path(file: &File) -> (r: Result<Option<String>, String>)
    requires
        has_place_for_lockfile(
            config_file_lock(config_file_source(*file).0, config_file_source(*file).1),
            config_file_source(*file).1,
        ),
    ensures
        config_file_lockfile(config_file_source(*file).0, config_file_source(*file).1) == (match r {
            Ok(path) => Ok::<Option<Seq<char>>, Seq<char>>(path.deep_view()),
            Err(message) => Err(message@),
        }),
{
    let path = file.resolve_lockfile_path().map_err(|error| error.to_string())?;
    Ok(path.map(|path| path.display().to_string()))
}

/// `deno_config::deno_json::ConfigFile::to_compiler_option_types`: the type
/// definitions, and the message of the error, depend on the text and the URL of
/// the file alone. They are seen from the file itself.
#[verifier::external_body]
fn read_types(file: &File) -> (r: Result<Vec<(String, Vec<String>)>, String>)
    ensures
        config_file_types(config_file_source(*file).0, config_file_source(*file).1) == (match r {
            Ok(types) => Ok::<Seq<(Seq<char>, Seq<Seq<char>>)>, Seq<char>>(types.deep_view()),
            Err(message) => Err(message@),
        }),
        r matches Ok(types) ==> forall|i: int|
            0 <= i < types.len() ==> (#[trigger] types@[i]).0@ == config_file_source(*file).1,
{
    let types = file.to_compiler_option_types().map_err(|error| error.to_string())?;
    Ok(types.into_iter().map(|(referrer, types)| (referrer.into(), types)).collect())
}

/// `deno_config::deno_json::ConfigFile::get_check_js`: the answer depends on the
/// text and the URL of the file alone.
#[verifier::external_body]
fn read_check_js(file: &File) -> (r: bool)
    ensures
        r == config_file_checks_js(config_file_source(*file).0, config_file_source(*file).1),
{
    file.get_check_js()
}

/// What a file gives that can be parsed, or the message where it cannot.
pub open spec fn if_parsed<T>(
    text: Seq<char>,
    specifier: Seq<char>,
    given: Result<T, Seq<char>>,
) -> Result<T, Seq<char>> {
    match config_file_error(text, specifier) {
        Some(message) => Err(message),
        None => given,
    }
}

/// The export names of a configuration file with the modules they stand for.
pub fn exports_of(text: &ConfigText, specifier: &ModuleSpecifier) -> (r: Result<
    Vec<(String, String)>,
    String,
>)
    ensures
        if_parsed(text@, specifier@, config_file_exports(text@, specifier@)) == (match r {
            Ok(exports) => Ok::<Seq<(Seq<char>, Seq<char>)>, Seq<char>>(exports.deep_view()),
            Err(message) => Err(message@),
        }),
{
    match parse_config_file(text, specifier) {
        Ok(file) => read_exports(&file),
        Err(message) => Err(message),
    }
}

/// Whether a configuration file asks for JavaScript to be checked. One that
/// cannot be parsed does not.
pub fn checks_js(text: &ConfigText, specifier: &ModuleSpecifier) -> (r: bool)
    ensures
        r == (config_file_error(text@, specifier@) is None && config_file_checks_js(
            text@,
            specifier@,
        )),
{
    match parse_config_file(text, specifier) {
        Ok(file) => read_check_js(&file),
        Err(_) => false,
    }
}

/// The message on a configuration file that names a lockfile and has no directory
/// above it.
pub const NO_DIRECTORY: &'static str = "The configuration file is in no directory.";

/// The lockfile that a configuration file asks for, none where it turns
/// lockfiles off.
pub fn lockfile_path_of(text: &ConfigText, specifier: &ModuleSpecifier) -> (r: Result<
    Option<String>,
    String,
>)
    ensures
        if_parsed(
            text@,
            specifier@,
            (if has_place_for_lockfile(config_file_lock(text@, specifier@), specifier@) {
                config_file_lockfile(text@, specifier@)
            } else {
                Err(NO_DIRECTORY@)
            }),
        ) == (match r {
            Ok(path) => Ok::<Option<Seq<char>>, Seq<char>>(path.deep_view()),
            Err(message) => Err(message@),
        }),
{
    match parse_config_file(text, specifier) {
        Ok(file) => {
            if let Some(lock) = read_lock(&file) {
                if check_names_path(&lock) {
                    if let Some(path) = specifier.to_file_path() {
                        if parent(path.as_str()).is_none() {
                            return Err(NO_DIRECTORY.to_owned());
                        }
                    }
                }
            }
            read_lockfile_path(&file)
        },
        Err(message) => Err(message),
    }
}

/// The type definitions that a configuration file brings in, by the file they
/// are seen from, which is the file itself.
pub fn types_of(text: &ConfigText, specifier: &ModuleSpecifier) -> (r: Result<
    Vec<(String, Vec<String>)>,
    String,
>)
    ensures
        if_parsed(text@, specifier@, config_file_types(text@, specifier@)) == (match r {
            Ok(types) => Ok::<Seq<(Seq<char>, Seq<Seq<char>>)>, Seq<char>>(types.deep_view()),
            Err(message) => Err(message@),
        }),
        r matches Ok(types) ==> forall|i: int|
            0 <= i < types.len() ==> (#[trigger] types@[i]).0@ == specifier@,
{
    match parse_config_file(text, specifier) {
        Ok(file) => read_types(&file),
        Err(message) => Err(message),
    }
}

/// What a configuration file says is what its text says, and nothing where the text
/// cannot be parsed, which is the error then. A file that cannot be parsed does not ask
/// for JavaScript to be checked.
pub proof fn law_configuration_facts(
    text: &ConfigText,
    url: &ModuleSpecifier,
    json: Result<ConfigFileJson, String>,
    exports: Result<Vec<(String, String)>, String>,
    types: Result<Vec<(String, Vec<String>)>, String>,
    checks: bool,
)
    requires
        call_ensures(json_of, (text, url), json),
        call_ensures(exports_of, (text, url), exports),
        call_ensures(types_of, (text, url), types),
        call_ensures(checks_js, (text, url), checks),
    ensures
        config_file_error(text@, url@) matches Some(message) ==> {
            &&& json is Err && json->Err_0@ == message
            &&& exports is Err && exports->Err_0@ == message
            &&& types is Err && types->Err_0@ == message
            &&& !checks
        },
        config_file_error(text@, url@) is None ==> {
            &&& json is Ok && json->Ok_0.deep_view() == config_file_json(text@, url@)
            &&& exports is Ok <==> config_file_exports(text@, url@) is Ok
            &&& exports is Ok ==> config_file_exports(text@, url@)->Ok_0
                == exports->Ok_0.deep_view()
            &&& exports is Err ==> config_file_exports(text@, url@)->Err_0 == exports->Err_0@
            &&& types is Ok <==> config_file_types(text@, url@) is Ok
            &&& types is Ok ==> config_file_types(text@, url@)->Ok_0 == types->Ok_0.deep_view()
            &&& types is Err ==> config_file_types(text@, url@)->Err_0 == types->Err_0@
            &&& checks == config_file_checks_js(text@, url@)
        },
        types matches Ok(types) ==> forall|i: int|
            0 <= i < types.len() ==> (#[trigger] types@[i]).0@ == url@,
{
}

/// The lockfile of a configuration file is the one that its text asks for. Only where the
/// `lock` entry names a path, and a local file is in no directory, there is an error in
/// its place.
pub proof fn law_lockfile_of_configuration(
    text: &ConfigText,
    url: &ModuleSpecifier,
    r: Result<Option<String>, String>,
)
    requires
        call_ensures(lockfile_path_of, (text, url), r),
    ensures
        ({
            let lock = config_file_lock(text@, url@);
            let asked = config_file_lockfile(text@, url@);
            let is_rootless = url_file_path(url@) is Some && path_parent(url_file_path(url@)->0)
                is None;
            &&& config_file_error(text@, url@) matches Some(message) ==> r is Err && r->Err_0@
                == message
            &&& config_file_error(text@, url@) is None && (!is_rootless || lock is None
                || !names_path(lock->0)) ==> {
                &&& r is Ok <==> asked is Ok
                &&& r is Ok ==> r->Ok_0.deep_view() == asked->Ok_0
                &&& r is Err ==> r->Err_0@ == asked->Err_0
            }
            &&& config_file_error(text@, url@) is None && is_rootless && lock is Some
                && names_path(lock->0) ==> r is Err && r->Err_0@
                == "The configuration file is in no directory."@
        }),
{
}

/// A lock entry that is a text names a path. One in the form of a list does so exactly
/// where it is made of a text and a truth value or null. A truth value, a number and null
/// do not.
pub proof fn law_lock_entries(lock: JsonView)
    ensures
        lock is Text ==> names_path(lock),
        lock is Bool || lock is Number || lock is Null ==> !names_path(lock),
        lock matches JsonView::Array(items) ==> (names_path(lock) <==> items.len() == 2 && items[0]
            is Text && (items[1] is Bool || items[1] is Null)),
{
}

/// A lock entry in the form of an object names a path exactly where its path is a text
/// and its switch, if there is one, is a truth value or null.
pub proof fn law_lock_objects(entries: Seq<(Seq<char>, JsonView)>)
    ensures
        names_path(JsonView::Object(entries)) <==> (entry(entries, "path"@) matches Some(
            JsonView::Text(_),
        )) && (entry(entries, "frozen"@) is None || entry(entries, "frozen"@)->0 is Bool || entry(
            entries,
            "frozen"@,
        )->0 is Null),
{
}

/// A short text without exponents is always taken as a configuration file, and keeps its
/// characters.
pub proof fn law_plain_texts_are_taken(text: String, r: Option<ConfigText>)
    requires
        call_ensures(ConfigText::new, (text,), r),
    ensures
        r matches Some(held) ==> held@ == text@,
        text@.len() <= 128 && (forall|i: int|
            0 <= i < text@.len() ==> #[trigger] text@[i] != 'e' && text@[i] != 'E') ==> r is Some,
        text@.len() >= 129 && (forall|i: int| 0 <= i < 129 ==> #[trigger] text@[i] == '[')
            ==> r is None,
{
    if text@.len() <= 128 && (forall|i: int|
        0 <= i < text@.len() ==> #[trigger] text@[i] != 'e' && text@[i] != 'E') {
        assert forall|i: int| 0 <= i <= text@.len() implies #[trigger] nesting_behind(
            text@.take(i),
        ) <= DEEPEST_NESTING by {
            lemma_nesting_is_bounded(text@.take(i));
        }
        assert forall|i: int|
            0 <= i < text@.len() && #[trigger] is_number_start(text@, i) implies is_small_number(
            text@,
            i,
        ) by {
            lemma_digits_end_is_bounded(text@, i);
            let whole_end = digits_end(text@, i);
            let end = fraction_end(text@, whole_end);
            if whole_end < text@.len() && text@[whole_end] == '.' {
                lemma_digits_end_is_bounded(text@, whole_end + 1);
            }
            if end < text@.len() {
                assert(text@[end] != 'e' && text@[end] != 'E');
            }
            assert(exponent_at(text@, end) == (false, 0int));
            lemma_first_digit_is_bounded(text@, i, end);
        }
    }
    if text@.len() >= 129 && (forall|i: int| 0 <= i < 129 ==> #[trigger] text@[i] == '[') {
        lemma_open_lists(text@, 129);
        assert(nesting_behind(text@.take(129)) == 129);
    }
}

proof fn lemma_nesting_is_bounded(text: Seq<char>)
    ensures
        0 <= nesting_behind(text) <= text.len(),
    decreases text.len(),
{
    if text.len() > 0 {
        lemma_nesting_is_bounded(text.drop_last());
    }
}

proof fn lemma_digits_end_is_bounded(text: Seq<char>, from: int)
    requires
        0 <= from <= text.len(),
    ensures
        from <= digits_end(text, from) <= text.len(),
    decreases text.len() - from,
{
    if from < text.len() && is_digit(text[from]) {
        lemma_digits_end_is_bounded(text, from + 1);
    }
}

proof fn lemma_first_digit_is_bounded(text: Seq<char>, from: int, end: int)
    ensures
        first_digit(text, from, end) matches Some(at) ==> from <= at < end,
    decreases end - from,
{
    if from < end && (text[from] == '0' || text[from] == '.') {
        lemma_first_digit_is_bounded(text, from + 1, end);
    }
}

proof fn lemma_open_lists(text: Seq<char>, count: int)
    requires
        0 <= count <= text.len(),
        forall|i: int| 0 <= i < count ==> #[trigger] text[i] == '[',
    ensures
        place_behind(text.take(count)) == JsonPlace::Plain,
        nesting_behind(text.take(count)) == count,
    decreases count,
{
    if count > 0 {
        lemma_open_lists(text, count - 1);
        assert(text.take(count).drop_last() == text.take(count - 1));
        assert(text.take(count).last() == text[count - 1]);
    } else {
        assert(text.take(0) == Seq::<char>::empty());
    }
}

} // verus!
