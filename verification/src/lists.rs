//! Lists of texts in which nothing occurs twice.

use vstd::prelude::*;

use crate::text::contains_text;

verus! {

/// `list` with `item` at its end, unless it already holds `item`.
pub open spec fn with_missing(list: Seq<Seq<char>>, item: Seq<char>) -> Seq<Seq<char>> {
    if list.contains(item) {
        list
    } else {
        list.push(item)
    }
}

/// `list` with those of `items` that it lacks, in their order, at its end.
pub open spec fn with_all_missing(list: Seq<Seq<char>>, items: Seq<Seq<char>>) -> Seq<Seq<char>>
    decreases items.len(),
{
    if items.len() == 0 {
        list
    } else {
        with_missing(with_all_missing(list, items.drop_last()), items.last())
    }
}

/// The texts of `items` in the order in which each first occurs.
pub open spec fn distinct(items: Seq<Seq<char>>) -> Seq<Seq<char>> {
    with_all_missing(Seq::empty(), items)
}

/// The values of `outcomes`, or the first error among them.
pub open spec fn collected<V, E>(outcomes: Seq<Result<V, E>>) -> Result<Seq<V>, E>
    decreases outcomes.len(),
{
    if outcomes.len() == 0 {
        Ok(Seq::empty())
    } else {
        match collected(outcomes.drop_last()) {
            Err(error) => Err(error),
            Ok(values) => match outcomes.last() {
                Ok(value) => Ok(values.push(value)),
                Err(error) => Err(error),
            },
        }
    }
}

/// The first error among outcomes is that of any beginning that has one.
pub proof fn lemma_first_error_stays<V, E>(outcomes: Seq<Result<V, E>>, count: int)
    requires
        0 <= count <= outcomes.len(),
        collected(outcomes.take(count)) is Err,
    ensures
        collected(outcomes) == collected(outcomes.take(count)),
    decreases outcomes.len() - count,
{
    if count == outcomes.len() {
        assert(outcomes.take(count) == outcomes);
    } else {
        assert(outcomes.take(count + 1).drop_last() == outcomes.take(count));
        lemma_first_error_stays(outcomes, count + 1);
    }
}

/// Collecting succeeds exactly where every outcome is a value, and then gives
/// all of them in order.
pub proof fn law_collected<V, E>(outcomes: Seq<Result<V, E>>)
    ensures
        collected(outcomes) is Ok <==> forall|i: int|
            0 <= i < outcomes.len() ==> (#[trigger] outcomes[i]) is Ok,
        collected(outcomes) matches Ok(values) ==> values.len() == outcomes.len() && forall|i: int|
            0 <= i < outcomes.len() ==> (#[trigger] outcomes[i]) == Ok::<V, E>(values[i]),
    decreases outcomes.len(),
{
    if outcomes.len() > 0 {
        let front = outcomes.drop_last();
        law_collected(front);
        assert forall|i: int| 0 <= i < front.len() implies front[i] == outcomes[i] by {}
        if collected(front) is Err {
            let k = choose|i: int| 0 <= i < front.len() && !((#[trigger] front[i]) is Ok);
            assert(!(outcomes[k] is Ok));
        } else {
            assert(outcomes[outcomes.len() - 1] == outcomes.last());
            assert(forall|i: int| 0 <= i < front.len() ==> (#[trigger] outcomes[i]) == front[i]);
        }
    }
}

/// Appends `item` to a list that does not hold it yet.
pub fn add_missing(list: &mut Vec<String>, item: &str)
    ensures
        final(list).deep_view() == with_missing(old(list).deep_view(), item@),
{
    if !contains_text(list, item) {
        let ghost before = list.deep_view();
        list.push(item.to_owned());
        assert(list.deep_view() == before.push(item@));
    }
}

/// Appends those of `items` that the list does not hold yet.
pub fn add_all_missing(list: &mut Vec<String>, items: &Vec<String>)
    ensures
        final(list).deep_view() == with_all_missing(old(list).deep_view(), items.deep_view()),
{
    let ghost start = list.deep_view();
    let mut i: usize = 0;
    assert(items.deep_view().take(0) == Seq::<Seq<char>>::empty());
    while i < items.len()
        invariant
            i <= items.len(),
            list.deep_view() == with_all_missing(start, items.deep_view().take(i as int)),
        decreases items.len() - i,
    {
        assert(items.deep_view().take(i + 1).drop_last() == items.deep_view().take(i as int));
        assert(items.deep_view().take(i + 1).last() == items@[i as int]@);
        add_missing(list, items[i].as_str());
        i = i + 1;
    }
    assert(items.deep_view().take(i as int) == items.deep_view());
}

/// The texts of `items` without repetitions.
pub fn distinct_texts(items: &Vec<String>) -> (r: Vec<String>)
    ensures
        r.deep_view() == distinct(items.deep_view()),
{
    let mut r: Vec<String> = Vec::new();
    assert(r.deep_view() == Seq::<Seq<char>>::empty());
    add_all_missing(&mut r, items);
    r
}

/// Adding what is missing keeps the list as it was at the front, makes it hold
/// every item, lets nothing else in, and never repeats a text.
pub proof fn law_with_all_missing(list: Seq<Seq<char>>, items: Seq<Seq<char>>)
    ensures
        with_all_missing(list, items).len() >= list.len(),
        with_all_missing(list, items).take(list.len() as int) == list,
        forall|t: Seq<char>|
            with_all_missing(list, items).contains(t) <==> list.contains(t) || items.contains(t),
        list.no_duplicates() ==> with_all_missing(list, items).no_duplicates(),
    decreases items.len(),
{
    let all = with_all_missing(list, items);
    if items.len() == 0 {
        assert(all.take(list.len() as int) == list);
    } else {
        let before = with_all_missing(list, items.drop_last());
        let last = items.last();
        law_with_all_missing(list, items.drop_last());
        assert(all.take(list.len() as int) == list) by {
            assert(all.take(list.len() as int) =~= before.take(list.len() as int));
        }
        assert forall|t: Seq<char>| all.contains(t) <==> list.contains(t) || items.contains(t) by {
            assert(items == items.drop_last().push(last));
            vstd::seq_lib::lemma_seq_contains_after_push(items.drop_last(), last, t);
            vstd::seq_lib::lemma_seq_contains_after_push(before, last, t);
            assert(items[items.len() - 1] == last);
            if items.contains(t) && t != last {
                let k = choose|k: int| 0 <= k < items.len() && items[k] == t;
                assert(items.drop_last()[k] == t);
            }
            if before.push(last).contains(t) && t != last {
                let grown = before.push(last);
                let k = choose|k: int| 0 <= k < grown.len() && grown[k] == t;
                assert(before[k] == t);
            }
        }
    }
}

/// Where collecting fails, it does so with the first error.
pub proof fn law_first_error<V, E>(outcomes: Seq<Result<V, E>>)
    ensures
        collected(outcomes) matches Err(error) ==> exists|i: int|
            0 <= i < outcomes.len() && (#[trigger] outcomes[i]) == Err::<V, E>(error) && forall|
                k: int,
            |
                0 <= k < i ==> (#[trigger] outcomes[k]) is Ok,
    decreases outcomes.len(),
{
    if outcomes.len() > 0 {
        let front = outcomes.drop_last();
        law_collected(front);
        law_first_error(front);
        assert(forall|i: int| 0 <= i < front.len() ==> (#[trigger] outcomes[i]) == front[i]);
        if let Err(error) = collected(front) {
            let i = choose|i: int|
                0 <= i < front.len() && (#[trigger] front[i]) == Err::<V, E>(error) && forall|
                    k: int,
                |
                    0 <= k < i ==> (#[trigger] front[k]) is Ok;
            assert(outcomes[i] == Err::<V, E>(error));
        } else {
            assert forall|k: int| 0 <= k < front.len() implies (#[trigger] outcomes[k]) is Ok by {
                assert(front[k] is Ok);
            }
            assert(outcomes[outcomes.len() - 1] == outcomes.last());
        }
    }
}

/// Whether an item first occurs in a list at an index.
pub open spec fn first_occurs(items: Seq<Seq<char>>, item: Seq<char>, at: int) -> bool {
    0 <= at < items.len() && items[at] == item && forall|k: int|
        0 <= k < at ==> #[trigger] items[k] != item
}

/// A list without repetitions holds what the list holds, each text once, in the order
/// in which the texts first occur. It is empty only if the list is.
pub proof fn law_distinct(items: &Vec<String>, r: Vec<String>)
    requires
        call_ensures(distinct_texts, (items,), r),
    ensures
        r.deep_view().no_duplicates(),
        forall|t: Seq<char>| r.deep_view().contains(t) <==> items.deep_view().contains(t),
        forall|i: int, k: int, a: int, b: int|
            0 <= i < k < r.len() && #[trigger] first_occurs(items.deep_view(), r@[i]@, a)
                && #[trigger] first_occurs(items.deep_view(), r@[k]@, b) ==> a < b,
        r.len() == 0 <==> items.len() == 0,
{
    let list = r.deep_view();
    let all = items.deep_view();
    law_with_all_missing(Seq::empty(), all);
    lemma_distinct_order(all);
    assert forall|i: int, k: int, a: int, b: int|
        0 <= i < k < r.len() && #[trigger] first_occurs(all, r@[i]@, a) && #[trigger] first_occurs(
            all,
            r@[k]@,
            b,
        ) implies a < b by {
        assert(list[i] == r@[i]@ && list[k] == r@[k]@);
        assert(first_occurs(all, list[i], a) && first_occurs(all, list[k], b));
    }
    if items.len() > 0 {
        assert(all.contains(all[0]));
        assert(list.contains(all[0]));
    }
    if r.len() > 0 {
        assert(list.contains(list[0]));
        assert(all.contains(list[0]));
    }
}

proof fn lemma_distinct_order(items: Seq<Seq<char>>)
    ensures
        forall|i: int, k: int, a: int, b: int|
            0 <= i < k < distinct(items).len() && #[trigger] first_occurs(
                items,
                distinct(items)[i],
                a,
            ) && #[trigger] first_occurs(items, distinct(items)[k], b) ==> a < b,
    decreases items.len(),
{
    if items.len() > 0 {
        let front = items.drop_last();
        lemma_distinct_order(front);
        law_with_all_missing(Seq::empty(), front);
        let before = distinct(front);
        let list = distinct(items);
        assert forall|i: int, k: int, a: int, b: int|
            0 <= i < k < list.len() && #[trigger] first_occurs(items, list[i], a)
                && #[trigger] first_occurs(items, list[k], b) implies a < b by {
            assert(list[i] == before[i]);
            assert(before.contains(before[i]));
            assert(front.contains(before[i]));
            let x = choose|x: int| 0 <= x < front.len() && front[x] == before[i];
            assert(items[x] == list[i]);
            assert(a <= x);
            assert forall|n: int| 0 <= n < front.len() implies #[trigger] front[n] == items[n] by {}
            assert(first_occurs(front, before[i], a));
            if k < before.len() {
                assert(list[k] == before[k]);
                assert(before.contains(before[k]));
                assert(front.contains(before[k]));
                let y = choose|y: int| 0 <= y < front.len() && front[y] == before[k];
                assert(items[y] == list[k]);
                assert(first_occurs(front, before[k], b));
            } else {
                assert(list[k] == items.last());
                assert(!before.contains(items.last()));
                assert(!front.contains(items.last()));
                if b < front.len() {
                    assert(front[b] == items.last());
                }
            }
        }
    }
}

/// Adding an item that is missing puts it at the end, and adding one that is there changes
/// nothing.
pub proof fn law_adding_missing(item: &str, items: &Vec<String>)
    ensures
        forall|list: &mut Vec<String>| #[trigger]
            call_ensures(add_missing, (list, item), ()) ==> {
                &&& list.deep_view().contains(item@) ==> final(list).deep_view() == list.deep_view()
                &&& !list.deep_view().contains(item@) ==> final(list).deep_view()
                    == list.deep_view().push(item@)
            },
        forall|list: &mut Vec<String>| #[trigger]
            call_ensures(add_all_missing, (list, items), ()) ==> {
                &&& final(list).len() >= list.len()
                &&& final(list).deep_view().take(list.len() as int) == list.deep_view()
                &&& forall|t: Seq<char>|
                    final(list).deep_view().contains(t) <==> list.deep_view().contains(t)
                        || items.deep_view().contains(t)
                &&& list.deep_view().no_duplicates() ==> final(list).deep_view().no_duplicates()
            },
{
    assert forall|list: &mut Vec<String>| #[trigger]
        call_ensures(add_all_missing, (list, items), ()) implies {
        &&& final(list).len() >= list.len()
        &&& final(list).deep_view().take(list.len() as int) == list.deep_view()
        &&& forall|t: Seq<char>|
            final(list).deep_view().contains(t) <==> list.deep_view().contains(t)
                || items.deep_view().contains(t)
        &&& list.deep_view().no_duplicates() ==> final(list).deep_view().no_duplicates()
    } by {
        law_with_all_missing(list.deep_view(), items.deep_view());
        assert(final(list).deep_view().len() == final(list).len());
        assert(list.deep_view().len() == list.len());
    }
}

} // verus!
