//! Text helpers: comparison, concatenation, splitting, trimming and number
//! parsing, each stated over the characters of the texts involved.

use vstd::prelude::*;
use vstd::string::*;

verus! {

/// The characters that the Unicode property `White_Space` covers.
pub open spec fn is_white_space(c: char) -> bool {
    ||| '\u{0009}' <= c <= '\u{000D}'
    ||| c == '\u{0020}'
    ||| c == '\u{0085}'
    ||| c == '\u{00A0}'
    ||| c == '\u{1680}'
    ||| '\u{2000}' <= c <= '\u{200A}'
    ||| c == '\u{2028}'
    ||| c == '\u{2029}'
    ||| c == '\u{202F}'
    ||| c == '\u{205F}'
    ||| c == '\u{3000}'
}

/// `s` without the longest run of `junk` characters at its end.
pub open spec fn trimmed_end(s: Seq<char>, junk: spec_fn(char) -> bool) -> Seq<char>
    decreases s.len(),
{
    if s.len() > 0 && junk(s.last()) {
        trimmed_end(s.drop_last(), junk)
    } else {
        s
    }
}

/// `s` without the longest run of `junk` characters at its start.
pub open spec fn trimmed_start(s: Seq<char>, junk: spec_fn(char) -> bool) -> Seq<char>
    decreases s.len(),
{
    if s.len() > 0 && junk(s.first()) {
        trimmed_start(s.drop_first(), junk)
    } else {
        s
    }
}

/// `s` without white space at either end.
pub open spec fn trimmed(s: Seq<char>) -> Seq<char> {
    trimmed_end(trimmed_start(s, |c: char| is_white_space(c)), |c: char| is_white_space(c))
}

/// The parts of `s` between the occurrences of `sep`; there is one more part
/// than there are separators.
pub open spec fn split_parts(s: Seq<char>, sep: char) -> Seq<Seq<char>>
    decreases s.len(),
{
    if s.len() == 0 {
        seq![Seq::<char>::empty()]
    } else {
        let before = split_parts(s.drop_last(), sep);
        if s.last() == sep {
            before.push(Seq::empty())
        } else {
            before.drop_last().push(before.last().push(s.last()))
        }
    }
}

/// The texts of `parts` with `sep` between neighbours.
pub open spec fn joined(parts: Seq<Seq<char>>, sep: Seq<char>) -> Seq<char>
    decreases parts.len(),
{
    if parts.len() == 0 {
        Seq::empty()
    } else if parts.len() == 1 {
        parts[0]
    } else {
        joined(parts.drop_last(), sep) + sep + parts.last()
    }
}

/// Whether `s` begins with `prefix`.
pub open spec fn has_prefix(s: Seq<char>, prefix: Seq<char>) -> bool {
    prefix.len() <= s.len() && s.take(prefix.len() as int) == prefix
}

/// Whether `part` stands somewhere in `s`.
pub open spec fn has_part(s: Seq<char>, part: Seq<char>) -> bool {
    exists|i: int|
        0 <= i && i + part.len() <= s.len() && #[trigger] s.subrange(i, i + part.len()) == part
}

/// Whether a text goes behind another in the order of their characters.
pub open spec fn goes_behind(a: Seq<char>, b: Seq<char>) -> bool
    decreases a.len(),
{
    if a.len() == 0 {
        false
    } else if b.len() == 0 {
        true
    } else if a[0] == b[0] {
        goes_behind(a.drop_first(), b.drop_first())
    } else {
        a[0] as u32 > b[0] as u32
    }
}

/// Whether `c` is one of `0` to `9`.
pub open spec fn is_digit(c: char) -> bool {
    '0' <= c <= '9'
}

/// Whether `s` is made of decimal digits alone.
pub open spec fn all_digits(s: Seq<char>) -> bool {
    forall|i: int| 0 <= i < s.len() ==> is_digit(#[trigger] s[i])
}

/// The number that a run of decimal digits writes.
pub open spec fn decimal_value(s: Seq<char>) -> int
    decreases s.len(),
{
    if s.len() == 0 {
        0
    } else {
        decimal_value(s.drop_last()) * 10 + (s.last() as int - '0' as int)
    }
}

/// The integer that `s` writes: an optional sign, then at least one decimal
/// digit and nothing else.
pub open spec fn written_integer(s: Seq<char>) -> Option<int> {
    let signed = s.len() > 0 && (s[0] == '-' || s[0] == '+');
    let digits = if signed {
        s.skip(1)
    } else {
        s
    };
    if digits.len() > 0 && all_digits(digits) {
        Some(
            if signed && s[0] == '-' {
                -decimal_value(digits)
            } else {
                decimal_value(digits)
            },
        )
    } else {
        None
    }
}

/// `char::is_whitespace`: true exactly of the characters with the Unicode
/// property `White_Space`.
pub assume_specification[ char::is_whitespace ](c: char) -> (r: bool)
    ensures
        r == is_white_space(c),
;

/// Whether two texts hold the same characters.
pub fn same_text(a: &str, b: &str) -> (r: bool)
    ensures
        r == (a@ == b@),
{
    let left: String = a.to_owned();
    let right: String = b.to_owned();
    left == right
}

/// The concatenation of two texts.
pub fn concat2(a: &str, b: &str) -> (r: String)
    ensures
        r@ == a@ + b@,
{
    let mut out: String = a.to_owned();
    out.append(b);
    out
}

/// The concatenation of three texts.
pub fn concat3(a: &str, b: &str, c: &str) -> (r: String)
    ensures
        r@ == a@ + b@ + c@,
{
    let mut out: String = concat2(a, b);
    out.append(c);
    out
}

/// The characters of a text.
pub fn chars_of(text: &str) -> (r: Vec<char>)
    ensures
        r@ == text@,
{
    let mut out: Vec<char> = Vec::new();
    for c in it: text.chars()
        invariant
            out@ == it.seq().take(it.index()),
            it.seq() == text@,
    {
        out.push(c);
    }
    assert(text@.take(text@.len() as int) == text@);
    out
}

/// Whether `list` holds a text equal to `item`.
pub fn contains_text(list: &Vec<String>, item: &str) -> (r: bool)
    ensures
        r == list.deep_view().contains(item@),
{
    let mut i: usize = 0;
    while i < list.len()
        invariant
            i <= list.len(),
            forall|k: int| 0 <= k < i ==> #[trigger] list@[k]@ != item@,
        decreases list.len() - i,
    {
        if same_text(list[i].as_str(), item) {
            assert(list.deep_view()[i as int] == item@);
            return true;
        }
        i = i + 1;
    }
    assert(!list.deep_view().contains(item@)) by {
        if list.deep_view().contains(item@) {
            let k = choose|k: int| 0 <= k < list.deep_view().len() && list.deep_view()[k] == item@;
            assert(list@[k]@ == item@);
        }
    }
    false
}

/// Whether `text` begins with `prefix`.
pub fn starts_with_text(text: &str, prefix: &str) -> (r: bool)
    ensures
        r == has_prefix(text@, prefix@),
{
    let length: usize = prefix.unicode_len();
    if length > text.unicode_len() {
        return false;
    }
    same_text(text.substring_char(0, length), prefix)
}

/// Whether `part` stands somewhere in `text`.
pub fn contains_part(text: &str, part: &str) -> (r: bool)
    ensures
        r == has_part(text@, part@),
{
    let length: usize = part.unicode_len();
    let whole: usize = text.unicode_len();
    if length > whole {
        return false;
    }
    let last: usize = whole - length;
    let mut i: usize = 0;
    while i <= last
        invariant
            length == part@.len(),
            whole == text@.len(),
            last == whole - length,
            i <= last + 1,
            forall|k: int|
                0 <= k < i ==> #[trigger] text@.subrange(k, k + part@.len()) != part@,
        decreases last + 1 - i,
    {
        if same_text(text.substring_char(i, i + length), part) {
            assert(text@.subrange(i as int, i + part@.len()) == part@);
            return true;
        }
        if i == last {
            return false;
        }
        i = i + 1;
    }
    false
}

/// Whether a text goes behind another in the order of their characters.
pub fn check_behind(a: &str, b: &str) -> (r: bool)
    ensures
        r == goes_behind(a@, b@),
{
    let a_chars: Vec<char> = chars_of(a);
    let b_chars: Vec<char> = chars_of(b);
    let mut i: usize = 0;
    assert(a@.skip(0) == a@);
    assert(b@.skip(0) == b@);
    while i < a_chars.len() && i < b_chars.len()
        invariant
            i <= a_chars.len(),
            i <= b_chars.len(),
            a_chars@ == a@,
            b_chars@ == b@,
            goes_behind(a@, b@) == goes_behind(a@.skip(i as int), b@.skip(i as int)),
        decreases a_chars.len() - i,
    {
        assert(a@.skip(i as int).drop_first() == a@.skip(i + 1));
        assert(b@.skip(i as int).drop_first() == b@.skip(i + 1));
        if a_chars[i] != b_chars[i] {
            return a_chars[i] as u32 > b_chars[i] as u32;
        }
        i = i + 1;
    }
    i < a_chars.len()
}

/// `text` without the characters `junk` at its end.
pub fn trim_end_char(text: &str, junk: char) -> (r: String)
    ensures
        r@ == trimmed_end(text@, |c: char| c == junk),
{
    let chars: Vec<char> = chars_of(text);
    let ghost is_junk = |c: char| c == junk;
    let mut end: usize = chars.len();
    assert(text@.take(end as int) == text@);
    while end > 0 && chars[end - 1] == junk
        invariant
            end <= chars.len(),
            chars@ == text@,
            is_junk == (|c: char| c == junk),
            trimmed_end(text@.take(end as int), is_junk) == trimmed_end(text@, is_junk),
        decreases end,
    {
        assert(text@.take(end as int).drop_last() == text@.take(end - 1));
        end = end - 1;
    }
    assert(text@.take(end as int) == text@.subrange(0, end as int));
    text.substring_char(0, end).to_owned()
}

/// `text` without white space at its end.
pub fn trim_end_text(text: &str) -> (r: String)
    ensures
        r@ == trimmed_end(text@, |c: char| is_white_space(c)),
{
    let chars: Vec<char> = chars_of(text);
    let ghost is_junk = |c: char| is_white_space(c);
    let mut end: usize = chars.len();
    assert(text@.take(end as int) == text@);
    while end > 0 && chars[end - 1].is_whitespace()
        invariant
            end <= chars.len(),
            chars@ == text@,
            is_junk == (|c: char| is_white_space(c)),
            trimmed_end(text@.take(end as int), is_junk) == trimmed_end(text@, is_junk),
        decreases end,
    {
        assert(text@.take(end as int).drop_last() == text@.take(end - 1));
        end = end - 1;
    }
    assert(text@.take(end as int) == text@.subrange(0, end as int));
    text.substring_char(0, end).to_owned()
}

/// `text` without white space at either end.
pub fn trim_text(text: &str) -> (r: String)
    ensures
        r@ == trimmed(text@),
{
    let chars: Vec<char> = chars_of(text);
    let ghost is_junk = |c: char| is_white_space(c);
    let mut start: usize = 0;
    assert(text@.skip(0) == text@);
    while start < chars.len() && chars[start].is_whitespace()
        invariant
            start <= chars.len(),
            chars@ == text@,
            is_junk == (|c: char| is_white_space(c)),
            trimmed_start(text@.skip(start as int), is_junk) == trimmed_start(text@, is_junk),
        decreases chars.len() - start,
    {
        assert(text@.skip(start as int).drop_first() == text@.skip(start + 1));
        start = start + 1;
    }
    assert(text@.skip(start as int) == text@.subrange(start as int, text@.len() as int));
    trim_end_text(text.substring_char(start, chars.len()))
}

/// The parts of `text` between the occurrences of `sep`.
pub fn split_text(text: &str, sep: char) -> (r: Vec<String>)
    ensures
        r.deep_view() == split_parts(text@, sep),
{
    let chars: Vec<char> = chars_of(text);
    let mut out: Vec<String> = Vec::new();
    let mut start: usize = 0;
    let mut i: usize = 0;
    assert(text@.subrange(0, 0) == Seq::<char>::empty());
    assert(text@.take(0).len() == 0);
    assert(out.deep_view().push(text@.subrange(0, 0)) =~= split_parts(text@.take(0), sep));
    while i < chars.len()
        invariant
            start <= i <= chars.len(),
            chars@ == text@,
            split_parts(text@.take(i as int), sep) == out.deep_view().push(
                text@.subrange(start as int, i as int),
            ),
        decreases chars.len() - i,
    {
        let ghost before = out.deep_view();
        let ghost current = text@.subrange(start as int, i as int);
        assert(text@.take(i + 1).drop_last() == text@.take(i as int));
        assert(text@.take(i + 1).last() == text@[i as int]);
        assert(before.push(current).drop_last() == before);
        if chars[i] == sep {
            let part: String = text.substring_char(start, i).to_owned();
            out.push(part);
            start = i + 1;
            assert(out.deep_view() == before.push(current));
            assert(text@.subrange(i + 1, i + 1) == Seq::<char>::empty());
        } else {
            assert(current.push(text@[i as int]) == text@.subrange(start as int, i + 1));
        }
        i = i + 1;
    }
    assert(text@.take(i as int) == text@);
    let ghost before = out.deep_view();
    let part: String = text.substring_char(start, i).to_owned();
    out.push(part);
    assert(out.deep_view() == before.push(text@.subrange(start as int, i as int)));
    out
}

/// The texts of `parts` with `sep` between neighbours.
pub fn join_texts(parts: &Vec<String>, sep: &str) -> (r: String)
    ensures
        r@ == joined(parts.deep_view(), sep@),
{
    let mut out: String = String::new();
    let mut i: usize = 0;
    assert(parts.deep_view().take(0) == Seq::<Seq<char>>::empty());
    while i < parts.len()
        invariant
            i <= parts.len(),
            out@ == joined(parts.deep_view().take(i as int), sep@),
        decreases parts.len() - i,
    {
        assert(parts.deep_view().take(i + 1).drop_last() == parts.deep_view().take(i as int));
        assert(parts.deep_view().take(i + 1).last() == parts@[i as int]@);
        if i > 0 {
            out.append(sep);
            out.append(parts[i].as_str());
        } else {
            out.append(parts[i].as_str());
            assert(out@ == parts@[0]@);
        }
        i = i + 1;
    }
    assert(parts.deep_view().take(i as int) == parts.deep_view());
    out
}

/// The `i64` that a text writes in decimal: `None` where the text is not an
/// optional sign followed by digits, or the number does not fit.
pub fn parse_i64(text: &str) -> (r: Option<i64>)
    ensures
        r == (match written_integer(text@) {
            Some(n) => if i64::MIN <= n <= i64::MAX {
                Some(n as i64)
            } else {
                None
            },
            None => None,
        }),
{
    let chars: Vec<char> = chars_of(text);
    let signed: bool = chars.len() > 0 && (chars[0] == '-' || chars[0] == '+');
    let negative: bool = signed && chars[0] == '-';
    let first: usize = if signed {
        1
    } else {
        0
    };
    let ghost digits = text@.subrange(first as int, text@.len() as int);
    proof {
        if signed {
            assert(digits == text@.skip(1));
        } else {
            assert(digits == text@);
        }
    }
    if first == chars.len() {
        return None;
    }
    let mut value: i128 = 0;
    let mut overflow: bool = false;
    let mut i: usize = first;
    while i < chars.len()
        invariant
            first <= i <= chars.len(),
            chars@ == text@,
            forall|k: int| first <= k < i ==> is_digit(#[trigger] text@[k]),
            !overflow ==> 0 <= value <= 9223372036854775808,
            !overflow ==> value == decimal_value(text@.subrange(first as int, i as int)),
            overflow ==> decimal_value(text@.subrange(first as int, i as int))
                > 9223372036854775808,
            digits == text@.subrange(first as int, text@.len() as int),
            written_integer(text@) is Some ==> all_digits(digits),
        decreases chars.len() - i,
    {
        let c: char = chars[i];
        let ghost seen = text@.subrange(first as int, i as int);
        let ghost longer = text@.subrange(first as int, i + 1);
        assert(longer.drop_last() == seen);
        assert(longer.last() == c);
        if !('0' <= c && c <= '9') {
            assert(digits[i - first] == c);
            return None;
        }
        let d: i128 = (c as u32 - '0' as u32) as i128;
        if !overflow {
            value = value * 10 + d;
            if value > 9223372036854775808 {
                overflow = true;
            }
        }
        i = i + 1;
    }
    assert(forall|k: int| 0 <= k < digits.len() ==> #[trigger] digits[k] == text@[k + first]);
    if overflow {
        return None;
    }
    if negative {
        Some((0 - value) as i64)
    } else if value <= 9223372036854775807 {
        Some(value as i64)
    } else {
        None
    }
}

/// Trimming takes away only junk at the end, and all of it.
pub proof fn law_trimmed_end(s: Seq<char>, junk: spec_fn(char) -> bool)
    ensures
        trimmed_end(s, junk).len() <= s.len(),
        s.take(trimmed_end(s, junk).len() as int) == trimmed_end(s, junk),
        forall|i: int| trimmed_end(s, junk).len() <= i < s.len() ==> junk(#[trigger] s[i]),
        trimmed_end(s, junk).len() > 0 ==> !junk(trimmed_end(s, junk).last()),
    decreases s.len(),
{
    if s.len() > 0 && junk(s.last()) {
        law_trimmed_end(s.drop_last(), junk);
        let r = trimmed_end(s, junk);
        assert(s.take(r.len() as int) == s.drop_last().take(r.len() as int));
        assert forall|i: int| r.len() <= i < s.len() implies junk(#[trigger] s[i]) by {
            if i < s.len() - 1 {
                assert(s.drop_last()[i] == s[i]);
            }
        }
    } else {
        assert(s.take(s.len() as int) == s);
    }
}

/// Trimming takes away only junk at the start, and all of it.
pub proof fn law_trimmed_start(s: Seq<char>, junk: spec_fn(char) -> bool)
    ensures
        trimmed_start(s, junk).len() <= s.len(),
        s.skip(s.len() - trimmed_start(s, junk).len()) == trimmed_start(s, junk),
        forall|i: int|
            0 <= i < s.len() - trimmed_start(s, junk).len() ==> junk(#[trigger] s[i]),
        trimmed_start(s, junk).len() > 0 ==> !junk(trimmed_start(s, junk).first()),
    decreases s.len(),
{
    if s.len() > 0 && junk(s.first()) {
        law_trimmed_start(s.drop_first(), junk);
        let r = trimmed_start(s, junk);
        assert(s.skip(s.len() - r.len()) == s.drop_first().skip(s.len() - 1 - r.len()));
        assert forall|i: int| 0 <= i < s.len() - r.len() implies junk(#[trigger] s[i]) by {
            if i > 0 {
                assert(s.drop_first()[i - 1] == s[i]);
            }
        }
    } else {
        assert(s.skip(0) == s);
    }
}

/// A trimmed text is the part of the text between white space at both ends: what is
/// taken away is white space, and what is left neither begins nor ends with any.
pub proof fn law_trimmed_text(text: &str, r: String)
    requires
        call_ensures(trim_text, (text,), r),
    ensures
        r@.len() > 0 ==> !is_white_space(r@.first()) && !is_white_space(r@.last()),
        exists|start: int, end: int|
            0 <= start <= end <= text@.len() && r@ == #[trigger] text@.subrange(start, end)
                && (forall|i: int|
                0 <= i < start || end <= i < text@.len() ==> is_white_space(#[trigger] text@[i])),
{
    let junk = |c: char| is_white_space(c);
    let s = text@;
    let middle = trimmed_start(s, junk);
    law_trimmed_start(s, junk);
    law_trimmed_end(middle, junk);
    let start = s.len() - middle.len();
    let end = start + r@.len();
    assert(r@ == s.subrange(start, end)) by {
        assert(middle.take(r@.len() as int) == s.skip(start).take(r@.len() as int));
        assert(s.skip(start).take(r@.len() as int) == s.subrange(start, end));
    }
    assert forall|i: int| 0 <= i < start || end <= i < s.len() implies is_white_space(
        #[trigger] s[i],
    ) by {
        if i < start {
            assert(junk(s[i]));
        } else {
            assert(middle[i - start] == s[i]);
            assert(junk(middle[i - start]));
        }
    }
    if r@.len() > 0 {
        assert(r@.first() == middle.first());
        assert(!junk(middle.first()));
        assert(!junk(r@.last()));
    }
}

/// Parts never hold the separator, there is always one, and putting the separator
/// between them gives the text back.
pub proof fn law_split_parts(s: Seq<char>, sep: char)
    ensures
        split_parts(s, sep).len() > 0,
        forall|i: int|
            0 <= i < split_parts(s, sep).len() ==> !(#[trigger] split_parts(s, sep)[i]).contains(
                sep,
            ),
        joined(split_parts(s, sep), seq![sep]) == s,
    decreases s.len(),
{
    let parts = split_parts(s, sep);
    if s.len() > 0 {
        let front = s.drop_last();
        let before = split_parts(front, sep);
        law_split_parts(front, sep);
        assert(s == front.push(s.last()));
        if s.last() == sep {
            assert(parts.drop_last() == before);
            assert(joined(parts, seq![sep]) == joined(before, seq![sep]) + seq![sep]
                + Seq::<char>::empty());
            assert(joined(parts, seq![sep]) == s);
        } else {
            assert(parts.drop_last() == before.drop_last());
            let last = before.last();
            assert(!before[before.len() - 1].contains(sep));
            assert(!last.push(s.last()).contains(sep)) by {
                if last.push(s.last()).contains(sep) {
                    let k = choose|k: int|
                        0 <= k < last.len() + 1 && last.push(s.last())[k] == sep;
                    assert(last[k] == sep);
                }
            }
            assert forall|i: int| 0 <= i < parts.len() implies !(#[trigger] parts[i]).contains(
                sep,
            ) by {
                if i < before.len() - 1 {
                    assert(parts[i] == before[i]);
                }
            }
            if before.len() == 1 {
                assert(joined(parts, seq![sep]) == last.push(s.last()));
                assert(joined(parts, seq![sep]) == s);
            } else {
                assert(joined(parts, seq![sep]) == joined(before.drop_last(), seq![sep]) + seq![sep]
                    + last.push(s.last()));
                assert(joined(parts, seq![sep]) == s);
            }
        }
    }
}

/// Joined texts: nothing of none, the text of one, and a list behind another with the
/// separator between the two.
pub proof fn law_joined(a: Seq<Seq<char>>, b: Seq<Seq<char>>, sep: Seq<char>)
    ensures
        joined(Seq::empty(), sep) == Seq::<char>::empty(),
        a.len() == 1 ==> joined(a, sep) == a[0],
        a.len() > 0 && b.len() > 0 ==> joined(a + b, sep) == joined(a, sep) + sep + joined(b, sep),
    decreases b.len(),
{
    if a.len() > 0 && b.len() > 0 {
        assert((a + b).drop_last() == a + b.drop_last());
        assert((a + b).last() == b.last());
        if b.len() == 1 {
            assert(a + b.drop_last() == a);
        } else {
            law_joined(a, b.drop_last(), sep);
            assert(joined(a + b, sep) == joined(a, sep) + sep + joined(b.drop_last(), sep) + sep
                + b.last());
            assert(joined(b, sep) == joined(b.drop_last(), sep) + sep + b.last());
            assert(joined(a + b, sep) == joined(a, sep) + sep + joined(b, sep));
        }
    }
}

/// A text begins with a prefix exactly where it is the prefix with something behind it.
pub proof fn law_starts_with(text: &str, prefix: &str, r: bool)
    requires
        call_ensures(starts_with_text, (text, prefix), r),
    ensures
        r <==> exists|rest: Seq<char>| text@ == #[trigger] (prefix@ + rest),
{
    if r {
        assert(text@ == prefix@ + text@.skip(prefix@.len() as int));
    }
    if exists|rest: Seq<char>| text@ == #[trigger] (prefix@ + rest) {
        let rest = choose|rest: Seq<char>| text@ == #[trigger] (prefix@ + rest);
        assert((prefix@ + rest).take(prefix@.len() as int) == prefix@);
    }
}

/// A text holds a part exactly where it is the part with something on both sides.
pub proof fn law_contains_part(text: &str, part: &str, r: bool)
    requires
        call_ensures(contains_part, (text, part), r),
    ensures
        r <==> exists|before: Seq<char>, behind: Seq<char>|
            text@ == #[trigger] (before + part@ + behind),
{
    if r {
        let i = choose|i: int|
            0 <= i && i + part@.len() <= text@.len() && #[trigger] text@.subrange(
                i,
                i + part@.len(),
            ) == part@;
        assert(text@ == text@.take(i) + part@ + text@.skip(i + part@.len()));
    }
    if exists|before: Seq<char>, behind: Seq<char>| text@ == #[trigger] (before + part@ + behind) {
        let (before, behind) = choose|before: Seq<char>, behind: Seq<char>|
            text@ == #[trigger] (before + part@ + behind);
        let i = before.len() as int;
        assert(text@.subrange(i, i + part@.len()) == part@);
    }
}

/// A text goes behind another exactly where, past what both begin with, it goes on
/// while the other ends, or goes on with a greater character.
pub proof fn law_goes_behind(a: Seq<char>, b: Seq<char>)
    ensures
        goes_behind(a, b) <==> exists|k: int|
            0 <= k < a.len() && k <= b.len() && #[trigger] a.take(k) == b.take(k) && (k == b.len()
                || a[k] as u32 > b[k] as u32),
    decreases a.len(),
{
    if a.len() > 0 && b.len() > 0 && a[0] == b[0] {
        let x = a.drop_first();
        let y = b.drop_first();
        law_goes_behind(x, y);
        if goes_behind(a, b) {
            let k = choose|k: int|
                0 <= k < x.len() && k <= y.len() && #[trigger] x.take(k) == y.take(k) && (k
                    == y.len() || x[k] as u32 > y[k] as u32);
            assert(a.take(k + 1) == seq![a[0]] + x.take(k));
            assert(b.take(k + 1) == seq![b[0]] + y.take(k));
        }
        if exists|k: int|
            0 <= k < a.len() && k <= b.len() && #[trigger] a.take(k) == b.take(k) && (k == b.len()
                || a[k] as u32 > b[k] as u32) {
            let k = choose|k: int|
                0 <= k < a.len() && k <= b.len() && #[trigger] a.take(k) == b.take(k) && (k
                    == b.len() || a[k] as u32 > b[k] as u32);
            assert(k > 0);
            assert(x.take(k - 1) == a.take(k).drop_first());
            assert(y.take(k - 1) == b.take(k).drop_first());
        }
    } else if a.len() > 0 {
        assert(a.take(0) == b.take(0));
        if b.len() > 0 {
            assert forall|k: int| 0 < k <= a.len() && k <= b.len() implies #[trigger] a.take(k)
                != b.take(k) by {
                assert(a.take(k)[0] == a[0] && b.take(k)[0] == b[0]);
            }
        }
    }
}

/// A number read from a text: writing one digit more multiplies it by ten and adds the
/// digit, a minus sign negates it, a plus sign does not change it, and nothing but
/// digits behind an optional sign is a number. It is read only if it fits.
pub proof fn law_parsed_integer(text: &str, r: Option<i64>)
    requires
        call_ensures(parse_i64, (text,), r),
    ensures
        r is Some ==> text@.len() > 0 && (is_digit(text@[0]) || ((text@[0] == '-' || text@[0]
            == '+') && text@.len() > 1)) && forall|i: int|
            1 <= i < text@.len() ==> is_digit(#[trigger] text@[i]),
        r matches Some(n) ==> text@[0] == '-' ==> n == -decimal_value(text@.skip(1)),
        r matches Some(n) ==> text@[0] == '+' ==> n == decimal_value(text@.skip(1)),
        r matches Some(n) ==> is_digit(text@[0]) ==> n == decimal_value(text@),
        text@.len() > 0 && all_digits(text@) && decimal_value(text@) <= i64::MAX ==> r is Some,
        text@.len() > 1 && text@[0] == '-' && all_digits(text@.skip(1)) && -decimal_value(
            text@.skip(1),
        ) >= i64::MIN ==> r is Some,
{
    lemma_decimal_value_is_no_debt(text@);
    lemma_decimal_value_is_no_debt(text@.skip(1));
    if r is Some {
        let signed = text@[0] == '-' || text@[0] == '+';
        if signed {
            assert forall|i: int| 1 <= i < text@.len() implies is_digit(#[trigger] text@[i]) by {
                assert(text@.skip(1)[i - 1] == text@[i]);
            }
        }
    }
}

proof fn lemma_decimal_value_is_no_debt(s: Seq<char>)
    ensures
        all_digits(s) ==> decimal_value(s) >= 0,
    decreases s.len(),
{
    if s.len() > 0 && all_digits(s) {
        assert(all_digits(s.drop_last())) by {
            assert forall|i: int| 0 <= i < s.drop_last().len() implies is_digit(
                #[trigger] s.drop_last()[i],
            ) by {
                assert(s.drop_last()[i] == s[i]);
            }
        }
        assert(is_digit(s[s.len() - 1]));
        lemma_decimal_value_is_no_debt(s.drop_last());
    }
}

/// The value of digits: nothing for none, and each digit more counts once while those
/// before it count ten times.
pub proof fn law_decimal_value(digits: Seq<char>, next: char)
    requires
        is_digit(next),
    ensures
        decimal_value(Seq::empty()) == 0,
        decimal_value(digits.push(next)) == decimal_value(digits) * 10 + (next as int - 48),
{
    assert(digits.push(next).drop_last() == digits);
}

/// A part of a part is a part.
pub(crate) proof fn lemma_part_of_part(text: Seq<char>, middle: Seq<char>, part: Seq<char>)
    requires
        has_part(text, middle),
        has_part(middle, part),
    ensures
        has_part(text, part),
{
    let i = choose|i: int|
        0 <= i && i + middle.len() <= text.len() && #[trigger] text.subrange(i, i + middle.len())
            == middle;
    let k = choose|k: int|
        0 <= k && k + part.len() <= middle.len() && #[trigger] middle.subrange(k, k + part.len())
            == part;
    assert(text.subrange(i + k, i + k + part.len()) == part);
}

proof fn lemma_part_at(s: Seq<char>, k: int, part: Seq<char>)
    requires
        0 <= k,
        k + part.len() <= s.len(),
        s.subrange(k, k + part.len()) == part,
    ensures
        has_part(s, part),
{
}

/// Each part between separators is a part of the text.
pub(crate) proof fn lemma_split_part_is_part(s: Seq<char>, sep: char, i: int)
    requires
        0 <= i < split_parts(s, sep).len(),
    ensures
        has_part(s, split_parts(s, sep)[i]),
    decreases s.len(),
{
    let parts = split_parts(s, sep);
    if s.len() == 0 {
        assert(s.subrange(0, 0) == parts[0]);
        lemma_part_at(s, 0, parts[i]);
    } else {
        let front = s.drop_last();
        let before = split_parts(front, sep);
        law_split_parts(front, sep);
        if s.last() == sep && i == parts.len() - 1 {
            assert(s.subrange(0, 0) == parts[i]);
            lemma_part_at(s, 0, parts[i]);
        } else if i < before.len() - 1 || s.last() == sep {
            assert(parts[i] == before[i]);
            lemma_split_part_is_part(front, sep, i);
            let part = before[i];
            let k = choose|k: int|
                0 <= k && k + part.len() <= front.len() && #[trigger] front.subrange(
                    k,
                    k + part.len(),
                ) == part;
            assert(s.subrange(k, k + part.len()) == part);
            lemma_part_at(s, k, part);
        } else {
            lemma_last_part_is_behind(front, sep);
            let last = before.last();
            let part = last.push(s.last());
            let k = front.len() - last.len();
            assert(parts[i] == part);
            assert(s.subrange(k, k + part.len()) =~= part) by {
                assert forall|n: int| 0 <= n < last.len() implies s[k + n] == last[n] by {
                    assert(front.skip(k)[n] == front[k + n]);
                }
            }
            lemma_part_at(s, k, part);
        }
    }
}

proof fn lemma_last_part_is_behind(s: Seq<char>, sep: char)
    ensures
        split_parts(s, sep).len() > 0,
        split_parts(s, sep).last().len() <= s.len(),
        s.skip(s.len() - split_parts(s, sep).last().len()) == split_parts(s, sep).last(),
    decreases s.len(),
{
    if s.len() > 0 {
        let front = s.drop_last();
        lemma_last_part_is_behind(front, sep);
        let last = split_parts(s, sep).last();
        if s.last() == sep {
            assert(s.skip(s.len() - last.len()) == last);
        } else {
            assert(s.skip(s.len() - last.len()) == last);
        }
    } else {
        assert(s.skip(0) == Seq::<char>::empty());
    }
}

/// A list holds a text exactly where one of its items is that text.
pub proof fn law_contains_text(list: &Vec<String>, item: &str, r: bool)
    requires
        call_ensures(contains_text, (list, item), r),
    ensures
        r <==> exists|i: int| 0 <= i < list.len() && (#[trigger] list@[i])@ == item@,
{
    let view = list.deep_view();
    if r {
        let i = choose|i: int| 0 <= i < view.len() && view[i] == item@;
        assert(list@[i]@ == item@);
    }
    if exists|i: int| 0 <= i < list.len() && (#[trigger] list@[i])@ == item@ {
        let i = choose|i: int| 0 <= i < list.len() && (#[trigger] list@[i])@ == item@;
        assert(view[i] == item@);
    }
}

/// Two texts are the same exactly where they hold the same characters, and texts that are
/// put together hold those of each in order.
pub proof fn law_plain_texts(a: &str, b: &str, c: &str, same: bool, two: String, three: String)
    requires
        call_ensures(same_text, (a, b), same),
        call_ensures(concat2, (a, b), two),
        call_ensures(concat3, (a, b, c), three),
    ensures
        same <==> a@ =~= b@,
        two@.len() == a@.len() + b@.len() && two@.take(a@.len() as int) == a@ && two@.skip(
            a@.len() as int,
        ) == b@,
        three@ == two@ + c@,
{
    assert(two@.take(a@.len() as int) == a@);
    assert(two@.skip(a@.len() as int) == b@);
}

} // verus!
