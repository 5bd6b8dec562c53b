//! Version requirements that cannot be widened: a requirement such as `^1.2` stands
//! for the versions up to the next number, and the largest number has none.

use vstd::prelude::*;

use crate::text::{chars_of, has_part, is_digit, is_white_space};

verus! {

/// The largest number that fits a component of a version, in decimal.
pub const LARGEST_VERSION_NUMBER: &'static str = "18446744073709551615";

/// A component of a version requirement.
#[derive(Clone, Copy, Debug, PartialEq, Eq, Structural)]
pub enum Component {
    /// Any number, or none is given.
    Any,
    Zero,
    Largest,
    Other,
}

/// The first three components of a version requirement.
#[derive(Clone, Copy, Debug, PartialEq, Eq, Structural)]
pub struct Partial {
    pub major: Component,
    pub minor: Component,
    pub patch: Component,
}

/// Where the digits that stand at an index end.
pub open spec fn digits_end(text: Seq<char>, from: int) -> int
    decreases text.len() - from,
{
    if from >= text.len() || !is_digit(text[from]) {
        from
    } else {
        digits_end(text, from + 1)
    }
}

/// Where the zeros that stand at an index end, up to another.
pub open spec fn zeros_end(text: Seq<char>, from: int, end: int) -> int
    decreases end - from,
{
    if from >= end || text[from] != '0' {
        from
    } else {
        zeros_end(text, from + 1, end)
    }
}

/// Where the number that stands at an index ends. Zeros in front of a number are
/// only part of it if they are allowed there.
pub open spec fn number_end(text: Seq<char>, from: int, allows_zeros: bool) -> int {
    if !allows_zeros && text[from] == '0' {
        from + 1
    } else {
        digits_end(text, from)
    }
}

/// The component at an index, and where it ends.
pub open spec fn component_at(text: Seq<char>, from: int, allows_zeros: bool) -> Option<
    (Component, int),
> {
    if from >= text.len() {
        None
    } else if text[from] == 'x' || text[from] == 'X' || text[from] == '*' {
        Some((Component::Any, from + 1))
    } else if is_digit(text[from]) {
        let end = number_end(text, from, allows_zeros);
        let start = zeros_end(text, from, end);
        if start == end {
            Some((Component::Zero, end))
        } else if text.subrange(start, end) == LARGEST_VERSION_NUMBER@ {
            Some((Component::Largest, end))
        } else {
            Some((Component::Other, end))
        }
    } else {
        None
    }
}

/// The component behind a dot at an index, and where it ends.
pub open spec fn component_behind_dot(text: Seq<char>, at: int, allows_zeros: bool) -> Option<
    (Component, int),
> {
    if at < text.len() && text[at] == '.' {
        component_at(text, at + 1, allows_zeros)
    } else {
        None
    }
}

/// The components at an index.
pub open spec fn partial_at(text: Seq<char>, from: int, allows_zeros: bool) -> Option<Partial> {
    match component_at(text, from, allows_zeros) {
        None => None,
        Some((major, end)) => Some(
            match component_behind_dot(text, end, allows_zeros) {
                None => Partial { major, minor: Component::Any, patch: Component::Any },
                Some((minor, end)) => match component_behind_dot(text, end, allows_zeros) {
                    None => Partial { major, minor, patch: Component::Any },
                    Some((patch, _)) => Partial { major, minor, patch },
                },
            },
        ),
    }
}

/// What stands in front of a version.
#[derive(Clone, Copy, Debug, PartialEq, Eq, Structural)]
pub enum Operator {
    /// `^`, up to the next number of the first component that is not zero.
    Caret,
    /// `~`, up to the next minor number.
    Tilde,
    /// `>=` or `<`, which take the version as it is.
    Bound,
    /// Another one, or none: up to the next number of the last component that is
    /// given, unless all are.
    Other,
}

/// Whether the next number of the largest one is asked for.
pub open spec fn goes_beyond(operator: Operator, version: Partial) -> bool {
    match operator {
        Operator::Caret => version.major == Component::Largest || (version.major == Component::Zero
            && (version.minor == Component::Largest || (version.minor == Component::Zero
            && version.patch == Component::Largest))),
        Operator::Tilde => version.major != Component::Any && (if version.minor == Component::Any {
            version.major == Component::Largest
        } else {
            version.minor == Component::Largest
        }),
        Operator::Bound => false,
        Operator::Other => version.major != Component::Any && (if version.minor == Component::Any {
            version.major == Component::Largest
        } else {
            version.minor == Component::Largest && version.patch == Component::Any
        }),
    }
}

/// Whether the version requirement of a specifier goes beyond the largest number.
pub open spec fn specifier_goes_beyond(requirement: Seq<char>) -> bool {
    let (operator, from) = if requirement.len() > 0 && requirement[0] == '^' {
        (Operator::Caret, 1int)
    } else if requirement.len() > 0 && requirement[0] == '~' {
        (Operator::Tilde, 1int)
    } else {
        (Operator::Other, 0int)
    };
    partial_at(requirement, from, false) matches Some(version) && goes_beyond(operator, version)
}

/// Whether a character may stand in front of a version.
pub open spec fn is_boundary(c: char) -> bool {
    is_white_space(c) || c == '<' || c == '>' || c == '=' || c == '~' || c == '^' || c == ','
        || c == '|' || c == '&'
}

/// Where the letters `v` in front of an index start.
pub open spec fn letters_start(text: Seq<char>, at: int) -> int
    decreases at,
{
    if at > 0 && text[at - 1] == 'v' {
        letters_start(text, at - 1)
    } else {
        at
    }
}

/// Whether a version may start at an index. Letters `v` in front do not count.
pub open spec fn is_version_start(text: Seq<char>, at: int) -> bool {
    letters_start(text, at) == 0 || is_boundary(text[letters_start(text, at) - 1])
}

/// The operator in front of an index. `has_equals` says whether an equals sign
/// was passed.
pub open spec fn operator_before(text: Seq<char>, at: int, has_equals: bool) -> Operator
    decreases at,
{
    if at <= 0 {
        Operator::Other
    } else {
        let c = text[at - 1];
        if is_white_space(c) || c == 'v' {
            operator_before(text, at - 1, has_equals)
        } else if c == '=' {
            operator_before(text, at - 1, true)
        } else if c == '^' {
            Operator::Caret
        } else if c == '~' || (c == '>' && at > 1 && text[at - 2] == '~') {
            Operator::Tilde
        } else if (c == '>' && has_equals) || (c == '<' && !has_equals) {
            Operator::Bound
        } else {
            Operator::Other
        }
    }
}

/// Whether the version at an index of an npm requirement goes beyond the largest
/// number.
pub open spec fn goes_beyond_at(text: Seq<char>, at: int) -> bool {
    is_version_start(text, at) && (partial_at(text, at, true) matches Some(version)
        && goes_beyond(operator_before(text, at, false), version))
}

/// Whether an npm requirement goes beyond the largest number.
pub open spec fn npm_goes_beyond(requirement: Seq<char>) -> bool {
    exists|at: int| 0 <= at < requirement.len() && #[trigger] goes_beyond_at(requirement, at)
}

/// What stands between an index and where its digits end are digits.
pub(crate) proof fn lemma_digits_are_digits(text: Seq<char>, from: int)
    requires
        from >= 0,
    ensures
        forall|i: int| from <= i < digits_end(text, from) ==> is_digit(#[trigger] text[i]),
    decreases text.len() - from,
{
    if from < text.len() && is_digit(text[from]) {
        lemma_digits_are_digits(text, from + 1);
    }
}

pub(crate) fn find_digits_end(chars: &Vec<char>, from: usize) -> (r: usize)
    requires
        from <= chars.len(),
    ensures
        r == digits_end(chars@, from as int),
        from <= r <= chars.len(),
{
    let mut i: usize = from;
    while i < chars.len() && '0' <= chars[i] && chars[i] <= '9'
        invariant
            from <= i <= chars.len(),
            digits_end(chars@, from as int) == digits_end(chars@, i as int),
        decreases chars.len() - i,
    {
        i = i + 1;
    }
    i
}

fn find_zeros_end(chars: &Vec<char>, from: usize, end: usize) -> (r: usize)
    requires
        from <= end <= chars.len(),
    ensures
        r == zeros_end(chars@, from as int, end as int),
        from <= r <= end,
{
    let mut i: usize = from;
    while i < end && chars[i] == '0'
        invariant
            from <= i <= end <= chars.len(),
            zeros_end(chars@, from as int, end as int) == zeros_end(chars@, i as int, end as int),
        decreases end - i,
    {
        i = i + 1;
    }
    i
}

fn is_largest(chars: &Vec<char>, start: usize, end: usize) -> (r: bool)
    requires
        start <= end <= chars.len(),
    ensures
        r == (chars@.subrange(start as int, end as int) == LARGEST_VERSION_NUMBER@),
{
    let largest: Vec<char> = chars_of(LARGEST_VERSION_NUMBER);
    if end - start != largest.len() {
        assert(chars@.subrange(start as int, end as int).len() != LARGEST_VERSION_NUMBER@.len());
        return false;
    }
    let mut i: usize = 0;
    while i < largest.len()
        invariant
            i <= largest.len(),
            largest@ == LARGEST_VERSION_NUMBER@,
            start + largest.len() == end <= chars.len(),
            forall|k: int| 0 <= k < i ==> chars@[start + k] == #[trigger] largest@[k],
        decreases largest.len() - i,
    {
        if chars[start + i] != largest[i] {
            assert(chars@.subrange(start as int, end as int)[i as int] != largest@[i as int]);
            return false;
        }
        i = i + 1;
    }
    assert(chars@.subrange(start as int, end as int) == largest@);
    true
}

fn read_component(chars: &Vec<char>, from: usize, allows_zeros: bool) -> (r: Option<
    (Component, usize),
>)
    ensures
        match r {
            Some((component, end)) => component_at(chars@, from as int, allows_zeros) == Some(
                (component, end as int),
            ) && from < end <= chars.len(),
            None => component_at(chars@, from as int, allows_zeros) is None,
        },
{
    if from >= chars.len() {
        return None;
    }
    let c: char = chars[from];
    if c == 'x' || c == 'X' || c == '*' {
        return Some((Component::Any, from + 1));
    }
    if !('0' <= c && c <= '9') {
        return None;
    }
    assert(digits_end(chars@, from as int) == digits_end(chars@, from + 1));
    let end: usize = if !allows_zeros && c == '0' {
        from + 1
    } else {
        find_digits_end(chars, from + 1)
    };
    let start: usize = find_zeros_end(chars, from, end);
    if start == end {
        Some((Component::Zero, end))
    } else if is_largest(chars, start, end) {
        Some((Component::Largest, end))
    } else {
        Some((Component::Other, end))
    }
}

fn read_behind_dot(chars: &Vec<char>, at: usize, allows_zeros: bool) -> (r: Option<
    (Component, usize),
>)
    ensures
        match r {
            Some((component, end)) => component_behind_dot(chars@, at as int, allows_zeros) == Some(
                (component, end as int),
            ) && end <= chars.len(),
            None => component_behind_dot(chars@, at as int, allows_zeros) is None,
        },
{
    if at < chars.len() && chars[at] == '.' {
        read_component(chars, at + 1, allows_zeros)
    } else {
        None
    }
}

fn read_partial(chars: &Vec<char>, from: usize, allows_zeros: bool) -> (r: Option<Partial>)
    ensures
        r == partial_at(chars@, from as int, allows_zeros),
{
    match read_component(chars, from, allows_zeros) {
        None => None,
        Some((major, end)) => Some(
            match read_behind_dot(chars, end, allows_zeros) {
                None => Partial { major, minor: Component::Any, patch: Component::Any },
                Some((minor, end)) => match read_behind_dot(chars, end, allows_zeros) {
                    None => Partial { major, minor, patch: Component::Any },
                    Some((patch, _)) => Partial { major, minor, patch },
                },
            },
        ),
    }
}

fn check_beyond(operator: Operator, version: Partial) -> (r: bool)
    ensures
        r == goes_beyond(operator, version),
{
    match operator {
        Operator::Caret => version.major == Component::Largest || (version.major == Component::Zero
            && (version.minor == Component::Largest || (version.minor == Component::Zero
            && version.patch == Component::Largest))),
        Operator::Tilde => version.major != Component::Any && (if version.minor == Component::Any {
            version.major == Component::Largest
        } else {
            version.minor == Component::Largest
        }),
        Operator::Bound => false,
        Operator::Other => version.major != Component::Any && (if version.minor == Component::Any {
            version.major == Component::Largest
        } else {
            version.minor == Component::Largest && version.patch == Component::Any
        }),
    }
}

/// Whether the version requirement of a specifier goes beyond the largest number.
pub fn check_specifier_beyond(requirement: &Vec<char>) -> (r: bool)
    ensures
        r == specifier_goes_beyond(requirement@),
{
    let (operator, from): (Operator, usize) = if requirement.len() > 0 && requirement[0] == '^' {
        (Operator::Caret, 1)
    } else if requirement.len() > 0 && requirement[0] == '~' {
        (Operator::Tilde, 1)
    } else {
        (Operator::Other, 0)
    };
    match read_partial(requirement, from, false) {
        Some(version) => check_beyond(operator, version),
        None => false,
    }
}

fn check_boundary(c: char) -> (r: bool)
    ensures
        r == is_boundary(c),
{
    c.is_whitespace() || c == '<' || c == '>' || c == '=' || c == '~' || c == '^' || c == ','
        || c == '|' || c == '&'
}

fn check_version_start(chars: &Vec<char>, at: usize) -> (r: bool)
    requires
        at <= chars.len(),
    ensures
        r == is_version_start(chars@, at as int),
{
    let mut from: usize = at;
    while from > 0 && chars[from - 1] == 'v'
        invariant
            from <= chars.len(),
            letters_start(chars@, at as int) == letters_start(chars@, from as int),
        decreases from,
    {
        from = from - 1;
    }
    from == 0 || check_boundary(chars[from - 1])
}

fn find_operator(chars: &Vec<char>, before: usize) -> (r: Operator)
    requires
        before <= chars.len(),
    ensures
        r == operator_before(chars@, before as int, false),
{
    let mut at: usize = before;
    let mut has_equals: bool = false;
    while at > 0
        invariant
            at <= chars.len(),
            operator_before(chars@, before as int, false) == operator_before(
                chars@,
                at as int,
                has_equals,
            ),
        decreases at,
    {
        let c: char = chars[at - 1];
        if c.is_whitespace() || c == 'v' {
            at = at - 1;
        } else if c == '=' {
            at = at - 1;
            has_equals = true;
        } else if c == '^' {
            return Operator::Caret;
        } else if c == '~' || (c == '>' && at > 1 && chars[at - 2] == '~') {
            return Operator::Tilde;
        } else if (c == '>' && has_equals) || (c == '<' && !has_equals) {
            return Operator::Bound;
        } else {
            return Operator::Other;
        }
    }
    Operator::Other
}

/// Whether an npm requirement goes beyond the largest number.
pub fn check_npm_beyond(requirement: &str) -> (r: bool)
    ensures
        r == npm_goes_beyond(requirement@),
{
    let chars: Vec<char> = chars_of(requirement);
    let mut at: usize = 0;
    while at < chars.len()
        invariant
            at <= chars.len(),
            chars@ == requirement@,
            forall|k: int| 0 <= k < at ==> !#[trigger] goes_beyond_at(requirement@, k),
        decreases chars.len() - at,
    {
        if check_version_start(&chars, at) {
            if let Some(version) = read_partial(&chars, at, true) {
                if check_beyond(find_operator(&chars, at), version) {
                    assert(goes_beyond_at(requirement@, at as int));
                    return true;
                }
            }
        }
        assert(!goes_beyond_at(requirement@, at as int));
        at = at + 1;
    }
    false
}

/// Whether a text holds the largest version number.
pub open spec fn holds_largest(text: Seq<char>) -> bool {
    has_part(text, "18446744073709551615"@)
}

proof fn lemma_component_of_plain_text(text: Seq<char>, from: int, allows_zeros: bool)
    requires
        0 <= from,
        !holds_largest(text),
    ensures
        component_at(text, from, allows_zeros) matches Some((component, end)) ==> component
            != Component::Largest && from < end,
{
    if from < text.len() && is_digit(text[from]) {
        let end = number_end(text, from, allows_zeros);
        lemma_digits_go_on(text, from);
        let start = zeros_end(text, from, end);
        lemma_zeros_are_bounded(text, from, end);
        reveal_strlit("18446744073709551615");
        if text.subrange(start, end) == LARGEST_VERSION_NUMBER@ {
            assert(end == start + "18446744073709551615"@.len());
            assert(text.subrange(start, start + "18446744073709551615"@.len())
                == "18446744073709551615"@);
        }
    }
}

proof fn lemma_digits_go_on(text: Seq<char>, from: int)
    requires
        0 <= from < text.len(),
        is_digit(text[from]),
    ensures
        from < digits_end(text, from) <= text.len(),
    decreases text.len() - from,
{
    reveal_with_fuel(digits_end, 2);
    if from + 1 < text.len() && is_digit(text[from + 1]) {
        lemma_digits_go_on(text, from + 1);
    }
}

proof fn lemma_zeros_are_bounded(text: Seq<char>, from: int, end: int)
    requires
        from <= end,
    ensures
        from <= zeros_end(text, from, end) <= end,
    decreases end - from,
{
    if from < end && text[from] == '0' {
        lemma_zeros_are_bounded(text, from + 1, end);
    }
}

proof fn lemma_partial_of_plain_text(text: Seq<char>, from: int, allows_zeros: bool)
    requires
        0 <= from,
        !holds_largest(text),
    ensures
        partial_at(text, from, allows_zeros) matches Some(version) ==> version.major
            != Component::Largest && version.minor != Component::Largest && version.patch
            != Component::Largest,
{
    lemma_component_of_plain_text(text, from, allows_zeros);
    if let Some((_, end)) = component_at(text, from, allows_zeros) {
        lemma_component_of_plain_text(text, end + 1, allows_zeros);
        if let Some((_, end)) = component_behind_dot(text, end, allows_zeros) {
            lemma_component_of_plain_text(text, end + 1, allows_zeros);
        }
    }
}

/// A requirement that does not hold the largest number does not go beyond it.
pub proof fn law_plain_requirements(requirement: &str, chars: &Vec<char>, npm: bool, other: bool)
    requires
        chars@ == requirement@,
        call_ensures(check_npm_beyond, (requirement,), npm),
        call_ensures(check_specifier_beyond, (chars,), other),
        !holds_largest(requirement@),
    ensures
        !npm,
        !other,
{
    lemma_plain_requirement(requirement@);
}

pub(crate) proof fn lemma_plain_requirement(requirement: Seq<char>)
    requires
        !holds_largest(requirement),
    ensures
        !npm_goes_beyond(requirement),
        !specifier_goes_beyond(requirement),
{
    lemma_partial_of_plain_text(requirement, 0, false);
    lemma_partial_of_plain_text(requirement, 1, false);
    assert forall|at: int| 0 <= at < requirement.len() implies !#[trigger] goes_beyond_at(
        requirement,
        at,
    ) by {
        lemma_partial_of_plain_text(requirement, at, true);
    }
}

/// A text that holds no part does not hold it behind an index either.
pub(crate) proof fn lemma_part_behind(text: Seq<char>, from: int, part: Seq<char>)
    requires
        0 <= from <= text.len(),
        has_part(text.skip(from), part),
    ensures
        has_part(text, part),
{
    let rest = text.skip(from);
    let i = choose|i: int|
        0 <= i && i + part.len() <= rest.len() && #[trigger] rest.subrange(i, i + part.len())
            == part;
    assert(text.subrange(from + i, from + i + part.len()) == part);
}

/// A requirement on the largest number as the first component goes beyond it, be it alone
/// or behind a caret or a tilde.
pub proof fn law_largest_requirements(rest: Seq<char>)
    requires
        rest.len() == 0 || (!is_digit(rest[0]) && rest[0] != '.'),
    ensures
        ({
            let alone = "18446744073709551615"@ + rest;
            &&& specifier_goes_beyond(alone)
            &&& npm_goes_beyond(alone)
            &&& specifier_goes_beyond(seq!['^'] + alone)
            &&& specifier_goes_beyond(seq!['~'] + alone)
        }),
{
    reveal_strlit("18446744073709551615");
    let number = "18446744073709551615"@;
    let alone = number + rest;
    assert(alone.skip(0) == alone);
    assert((seq!['^'] + alone).skip(1) == alone);
    assert((seq!['~'] + alone).skip(1) == alone);
    lemma_largest_at(alone, 0, rest);
    lemma_largest_at(seq!['^'] + alone, 1, rest);
    lemma_largest_at(seq!['~'] + alone, 1, rest);
    assert(alone[0] == '1');
    assert((seq!['^'] + alone)[0] == '^');
    assert((seq!['~'] + alone)[0] == '~');
    assert(letters_start(alone, 0) == 0);
    assert(operator_before(alone, 0, false) == Operator::Other);
    assert(goes_beyond_at(alone, 0));
}

proof fn lemma_largest_at(text: Seq<char>, from: int, rest: Seq<char>)
    requires
        0 <= from,
        text.len() == from + 20 + rest.len(),
        text.skip(from) == "18446744073709551615"@ + rest,
        rest.len() == 0 || (!is_digit(rest[0]) && rest[0] != '.'),
    ensures
        partial_at(text, from, false) == Some(
            Partial { major: Component::Largest, minor: Component::Any, patch: Component::Any },
        ),
        partial_at(text, from, true) == Some(
            Partial { major: Component::Largest, minor: Component::Any, patch: Component::Any },
        ),
{
    reveal_strlit("18446744073709551615");
    let number = "18446744073709551615"@;
    assert(number.len() == 20);
    assert forall|i: int| 0 <= i < 20 implies #[trigger] text[from + i] == number[i] by {
        assert(text.skip(from)[i] == (number + rest)[i]);
    }
    if rest.len() > 0 {
        assert(text.skip(from)[20] == rest[0]);
        assert(text[from + 20] == rest[0]);
    }
    lemma_largest_digits(text, from, 20);
    assert(text[from + 0] == '1');
    assert(zeros_end(text, from, from + 20) == from);
    assert(text.subrange(from, from + 20) =~= number) by {
        assert forall|i: int| 0 <= i < 20 implies text.subrange(from, from + 20)[i] == number[i] by {
            assert(text[from + i] == number[i]);
        }
    }
}

proof fn lemma_largest_digits(text: Seq<char>, from: int, left: int)
    requires
        0 <= left,
        0 <= from,
        from + left <= text.len(),
        forall|i: int| 0 <= i < left ==> is_digit(#[trigger] text[from + i]),
        from + left < text.len() ==> !is_digit(text[from + left]),
    ensures
        digits_end(text, from) == from + left,
    decreases left,
{
    if left > 0 {
        assert(is_digit(text[from + 0]));
        assert forall|i: int| 0 <= i < left - 1 implies is_digit(#[trigger] text[from + 1 + i]) by {
            assert(is_digit(text[from + (i + 1)]));
        }
        lemma_largest_digits(text, from + 1, left - 1);
    }
}

} // verus!
