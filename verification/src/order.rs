//! Finding and ordering: the first entry that meets a test, and the stable
//! order of a list under a strict comparison.

use vstd::prelude::*;

use crate::text::chars_of;

verus! {

/// Whether `at` is the first entry of `list` that meets `test`.
pub open spec fn first_at<A>(list: Seq<A>, test: spec_fn(A) -> bool, at: int) -> bool {
    &&& 0 <= at < list.len()
    &&& test(list[at])
    &&& forall|k: int| 0 <= k < at ==> !test(#[trigger] list[k])
}

/// The place of the first entry of `list` that meets `test`, if any does.
pub open spec fn position<A>(list: Seq<A>, test: spec_fn(A) -> bool) -> Option<int> {
    if exists|at: int| first_at(list, test, at) {
        Some(choose|at: int| first_at(list, test, at))
    } else {
        None
    }
}

/// A first entry is the one that `position` gives.
pub proof fn position_found<A>(list: Seq<A>, test: spec_fn(A) -> bool, at: int)
    requires
        first_at(list, test, at),
    ensures
        position(list, test) == Some(at),
{
    let other = choose|k: int| first_at(list, test, k);
    assert(first_at(list, test, other));
    if other < at {
        assert(!test(list[other]));
    } else if at < other {
        assert(!test(list[at]));
    }
}

/// Where no entry meets the test there is no position.
pub proof fn position_missing<A>(list: Seq<A>, test: spec_fn(A) -> bool)
    requires
        forall|k: int| 0 <= k < list.len() ==> !test(#[trigger] list[k]),
    ensures
        position(list, test) == None::<int>,
{
}

/// Where some entry meets the test there is a position, and it is the first.
pub proof fn position_exists<A>(list: Seq<A>, test: spec_fn(A) -> bool, some: int)
    requires
        0 <= some < list.len(),
        test(list[some]),
    ensures
        position(list, test) is Some,
        first_at(list, test, position(list, test)->0),
        position(list, test)->0 <= some,
    decreases some,
{
    if forall|k: int| 0 <= k < some ==> !test(#[trigger] list[k]) {
        assert(first_at(list, test, some));
        position_found(list, test, some);
    } else {
        let earlier = choose|k: int| 0 <= k < some && test(#[trigger] list[k]);
        position_exists(list, test, earlier);
    }
}

/// A position that is found is a first entry.
pub proof fn position_is_first<A>(list: Seq<A>, test: spec_fn(A) -> bool)
    ensures
        match position(list, test) {
            Some(at) => first_at(list, test, at),
            None => forall|k: int| 0 <= k < list.len() ==> !test(#[trigger] list[k]),
        },
{
    if position(list, test) is None {
        assert forall|k: int| 0 <= k < list.len() implies !test(#[trigger] list[k]) by {
            if test(list[k]) {
                position_exists(list, test, k);
            }
        }
    }
}

/// A place as a mathematical number.
pub open spec fn place_view(place: Option<usize>) -> Option<int> {
    match place {
        Some(at) => Some(at as int),
        None => None,
    }
}

/// Where entry `item` goes in the order `ordered`, when it may not stand
/// before an entry that it is not below.
pub open spec fn slot(ordered: Seq<int>, item: int, above: spec_fn(int, int) -> bool) -> int
    decreases ordered.len(),
{
    if ordered.len() > 0 && above(ordered.last(), item) {
        slot(ordered.drop_last(), item, above)
    } else {
        ordered.len() as int
    }
}

/// The order of the entries `0..count`, under a comparison that says when one
/// entry stands above another: entries that compare equal keep their order.
pub open spec fn stable_order(count: nat, above: spec_fn(int, int) -> bool) -> Seq<int>
    decreases count,
{
    if count == 0 {
        Seq::empty()
    } else {
        let before = stable_order((count - 1) as nat, above);
        before.insert(slot(before, count - 1, above), count - 1)
    }
}

/// A comparison that orders: nothing is above itself, and what is above an
/// entry that is not below a third is above that third.
pub open spec fn orders(above: spec_fn(int, int) -> bool) -> bool {
    &&& forall|a: int| !#[trigger] above(a, a)
    &&& forall|a: int, b: int, c: int|
        #![trigger above(a, b), above(b, c)]
        #![trigger above(a, c), above(b, c)]
        above(a, b) && !above(c, b) ==> above(a, c)
    &&& forall|a: int, b: int| #[trigger] above(a, b) ==> !above(b, a)
}

proof fn slot_bounds(ordered: Seq<int>, item: int, above: spec_fn(int, int) -> bool)
    ensures
        0 <= slot(ordered, item, above) <= ordered.len(),
        forall|k: int|
            slot(ordered, item, above) <= k < ordered.len() ==> above(#[trigger] ordered[k], item),
        slot(ordered, item, above) > 0 ==> !above(
            ordered[slot(ordered, item, above) - 1],
            item,
        ),
    decreases ordered.len(),
{
    if ordered.len() > 0 && above(ordered.last(), item) {
        slot_bounds(ordered.drop_last(), item, above);
        let at = slot(ordered, item, above);
        assert forall|k: int| at <= k < ordered.len() implies above(#[trigger] ordered[k], item) by {
            if k < ordered.len() - 1 {
                assert(ordered.drop_last()[k] == ordered[k]);
            }
        }
    }
}

/// The order holds every entry once: it is as long as the list, its members
/// are entries, and no two of them are the same.
pub proof fn order_is_complete(count: nat, above: spec_fn(int, int) -> bool)
    ensures
        stable_order(count, above).len() == count,
        forall|k: int| 0 <= k < count ==> 0 <= #[trigger] stable_order(count, above)[k] < count,
        forall|i: int, j: int|
            0 <= i < j < count ==> #[trigger] stable_order(count, above)[i]
                != #[trigger] stable_order(count, above)[j],
        forall|e: int| 0 <= e < count ==> #[trigger] stable_order(count, above).contains(e),
    decreases count,
{
    if count > 0 {
        let before = stable_order((count - 1) as nat, above);
        order_is_complete((count - 1) as nat, above);
        slot_bounds(before, count - 1, above);
        let at = slot(before, count - 1, above);
        let after = before.insert(at, count - 1);
        assert forall|e: int| 0 <= e < count implies #[trigger] after.contains(e) by {
            if e == count - 1 {
                assert(after[at] == e);
            } else {
                assert(before.contains(e));
                let k = choose|k: int| 0 <= k < before.len() && before[k] == e;
                if k < at {
                    assert(after[k] == e);
                } else {
                    assert(after[k + 1] == e);
                }
            }
        }
    }
}

/// The order is sorted and stable: no entry stands above a later one, and of
/// two that compare equal the earlier comes first.
pub proof fn order_is_sorted(count: nat, above: spec_fn(int, int) -> bool)
    requires
        orders(above),
    ensures
        forall|i: int, j: int|
            0 <= i < j < count ==> {
                let a = #[trigger] stable_order(count, above)[i];
                let b = #[trigger] stable_order(count, above)[j];
                !above(a, b) && (!above(b, a) ==> a < b)
            },
    decreases count,
{
    if count > 0 {
        let before = stable_order((count - 1) as nat, above);
        order_is_sorted((count - 1) as nat, above);
        order_is_complete((count - 1) as nat, above);
        slot_bounds(before, count - 1, above);
        let at = slot(before, count - 1, above);
        let item = count - 1;
        let after = before.insert(at, item);
        assert forall|i: int, j: int| 0 <= i < j < count implies {
            let a = #[trigger] after[i];
            let b = #[trigger] after[j];
            !above(a, b) && (!above(b, a) ==> a < b)
        } by {
            if j == at {
                assert(after[i] == before[i]);
                assert(!above(before[at - 1], item));
                if i < at - 1 {
                    assert(!above(before[i], before[at - 1]));
                    if above(before[i], item) {
                        assert(above(before[i], before[at - 1]));
                    }
                }
            } else if i == at {
                assert(after[j] == before[j - 1]);
                assert(above(before[j - 1], item));
                assert(!above(item, before[j - 1]));
            } else {
                let x = if i < at { i } else { i - 1 };
                let y = if j < at { j } else { j - 1 };
                assert(after[i] == before[x]);
                assert(after[j] == before[y]);
            }
        }
    }
}

/// Places as mathematical numbers.
pub open spec fn places(list: Seq<usize>) -> Seq<int> {
    list.map_values(|at: usize| at as int)
}

/// Whether the key of one entry is greater than that of another.
pub open spec fn key_above(keys: Seq<i128>) -> spec_fn(int, int) -> bool {
    |a: int, b: int| keys[a] > keys[b]
}

/// The stable order of a list by ascending key.
pub fn order_by_key(keys: &Vec<i128>) -> (ordered: Vec<usize>)
    ensures
        places(ordered@) == stable_order(keys@.len(), key_above(keys@)),
{
    let mut ordered: Vec<usize> = Vec::new();
    let ghost above = key_above(keys@);
    assert(places(ordered@) =~= stable_order(0, above));
    let mut i: usize = 0;
    while i < keys.len()
        invariant
            i <= keys.len(),
            above == key_above(keys@),
            places(ordered@) == stable_order(i as nat, above),
        decreases keys.len() - i,
    {
        proof {
            order_is_complete(i as nat, above);
        }
        let ghost before = places(ordered@);
        assert(before.take(before.len() as int) =~= before);
        assert forall|k: int| 0 <= k < ordered.len() implies #[trigger] ordered@[k] < keys.len() by {
            assert(before[k] == ordered@[k]);
        }
        let mut at: usize = ordered.len();
        while at > 0 && keys[ordered[at - 1]] > keys[i]
            invariant
                at <= ordered.len(),
                i < keys.len(),
                above == key_above(keys@),
                before == places(ordered@),
                forall|k: int| 0 <= k < ordered.len() ==> #[trigger] ordered@[k] < keys.len(),
                slot(before, i as int, above) == slot(before.take(at as int), i as int, above),
            decreases at,
        {
            proof {
                assert(before.take(at as int).drop_last() =~= before.take(at - 1));
                assert(before.take(at as int).last() == ordered@[at - 1] as int);
            }
            at -= 1;
        }
        proof {
            if at > 0 {
                assert(before.take(at as int).last() == ordered@[at - 1] as int);
            }
            assert(slot(before, i as int, above) == at);
        }
        ordered.insert(at, i);
        assert(places(ordered@) =~= before.insert(at as int, i as int));
        i += 1;
    }
    ordered
}

/// The lower case of an ASCII letter; other characters stay.
pub open spec fn ascii_lower(c: char) -> char {
    if 'A' <= c && c <= 'Z' {
        (c as u32 + 32) as char
    } else {
        c
    }
}

/// A text with its ASCII letters in lower case.
pub open spec fn ascii_folded(s: Seq<char>) -> Seq<char> {
    s.map_values(|c: char| ascii_lower(c))
}

/// Whether text `a` comes after text `b`: at the first place where they differ
/// it has the greater character, or it continues where `b` ends.
pub open spec fn text_above(a: Seq<char>, b: Seq<char>) -> bool
    decreases a.len(),
{
    if a.len() == 0 {
        false
    } else if b.len() == 0 {
        true
    } else if a[0] == b[0] {
        text_above(a.drop_first(), b.drop_first())
    } else {
        a[0] > b[0]
    }
}

fn lowered(c: char) -> (low: char)
    ensures
        low == ascii_lower(c),
{
    if c >= 'A' && c <= 'Z' {
        (c as u8 + 32u8) as char
    } else {
        c
    }
}

/// A text with its ASCII letters in lower case.
pub fn ascii_fold(s: &str) -> (folded: String)
    ensures
        folded@ == ascii_folded(s@),
{
    let chars = chars_of(s);
    let mut folded = String::new();
    let mut i: usize = 0;
    while i < chars.len()
        invariant
            i <= chars.len(),
            folded@ == ascii_folded(chars@.take(i as int)),
        decreases chars.len() - i,
    {
        folded.push(lowered(chars[i]));
        assert(folded@ =~= ascii_folded(chars@.take(i + 1)));
        i += 1;
    }
    assert(chars@.take(i as int) =~= s@);
    folded
}

/// Whether text `a` comes after text `b`.
pub fn comes_after(a: &str, b: &str) -> (yes: bool)
    ensures
        yes == text_above(a@, b@),
{
    let x = chars_of(a);
    let y = chars_of(b);
    let mut i: usize = 0;
    assert(x@.skip(0) =~= a@);
    assert(y@.skip(0) =~= b@);
    while i < x.len() && i < y.len() && x[i] == y[i]
        invariant
            i <= x.len(),
            i <= y.len(),
            text_above(a@, b@) == text_above(x@.skip(i as int), y@.skip(i as int)),
        decreases x.len() - i,
    {
        proof {
            assert(x@.skip(i as int).drop_first() =~= x@.skip(i + 1));
            assert(y@.skip(i as int).drop_first() =~= y@.skip(i + 1));
        }
        i += 1;
    }
    if i == x.len() {
        false
    } else if i == y.len() {
        true
    } else {
        x[i] > y[i]
    }
}

/// The comparison of texts is an order in which only a text itself is neither
/// above nor below it.
pub proof fn text_above_orders(a: Seq<char>, b: Seq<char>, c: Seq<char>)
    ensures
        !text_above(a, a),
        text_above(a, b) ==> !text_above(b, a),
        text_above(a, b) && !text_above(c, b) ==> text_above(a, c),
        !text_above(a, b) && !text_above(b, a) ==> a == b,
    decreases a.len() + b.len() + c.len(),
{
    if a.len() > 0 && b.len() > 0 && c.len() > 0 {
        text_above_orders(a.drop_first(), b.drop_first(), c.drop_first());
    }
    if a.len() > 0 && b.len() > 0 && c.len() == 0 {
        text_above_orders(a.drop_first(), b.drop_first(), c);
    }
    if a.len() > 0 && b.len() == 0 && c.len() == 0 {
        text_above_orders(a.drop_first(), b, c);
    }
    if a.len() > 0 && b.len() == 0 && c.len() > 0 {
        text_above_orders(a.drop_first(), b, c);
    }
    if !text_above(a, b) && !text_above(b, a) {
        if a.len() > 0 && b.len() > 0 {
            assert(a =~= seq![a[0]] + a.drop_first());
            assert(b =~= seq![b[0]] + b.drop_first());
        } else {
            assert(a =~= b);
        }
    }
}

/// Whether one text of a list comes after another.
pub open spec fn listed_above(list: Seq<Seq<char>>) -> spec_fn(int, int) -> bool {
    |a: int, b: int| text_above(list[a], list[b])
}

/// The stable order of a list of texts.
pub fn order_by_text(list: &Vec<String>) -> (ordered: Vec<usize>)
    ensures
        places(ordered@) == stable_order(list@.len(), listed_above(crate::text::texts(list@))),
{
    let mut ordered: Vec<usize> = Vec::new();
    let ghost above = listed_above(crate::text::texts(list@));
    assert(places(ordered@) =~= stable_order(0, above));
    let mut i: usize = 0;
    while i < list.len()
        invariant
            i <= list.len(),
            above == listed_above(crate::text::texts(list@)),
            places(ordered@) == stable_order(i as nat, above),
        decreases list.len() - i,
    {
        proof {
            order_is_complete(i as nat, above);
        }
        let ghost before = places(ordered@);
        assert(before.take(before.len() as int) =~= before);
        assert forall|k: int| 0 <= k < ordered.len() implies #[trigger] ordered@[k] < list.len() by {
            assert(before[k] == ordered@[k]);
        }
        let mut at: usize = ordered.len();
        while at > 0 && comes_after(list[ordered[at - 1]].as_str(), list[i].as_str())
            invariant
                at <= ordered.len(),
                i < list.len(),
                above == listed_above(crate::text::texts(list@)),
                before == places(ordered@),
                forall|k: int| 0 <= k < ordered.len() ==> #[trigger] ordered@[k] < list.len(),
                slot(before, i as int, above) == slot(before.take(at as int), i as int, above),
            decreases at,
        {
            proof {
                assert(before.take(at as int).drop_last() =~= before.take(at - 1));
                assert(before.take(at as int).last() == ordered@[at - 1] as int);
            }
            at -= 1;
        }
        proof {
            if at > 0 {
                assert(before.take(at as int).last() == ordered@[at - 1] as int);
            }
            assert(slot(before, i as int, above) == at);
        }
        ordered.insert(at, i);
        assert(places(ordered@) =~= before.insert(at as int, i as int));
        i += 1;
    }
    ordered
}

/// The places below `count` that meet `test`, in ascending order.
pub open spec fn matching(count: nat, test: spec_fn(int) -> bool) -> Seq<int>
    decreases count,
{
    if count == 0 {
        Seq::empty()
    } else {
        let before = matching((count - 1) as nat, test);
        if test(count - 1) {
            before.push(count - 1)
        } else {
            before
        }
    }
}

/// The matching places are exactly those that meet the test, each once and in
/// ascending order.
pub proof fn matching_is_exact(count: nat, test: spec_fn(int) -> bool)
    ensures
        matching(count, test).len() <= count,
        forall|k: int|
            0 <= k < matching(count, test).len() ==> 0 <= #[trigger] matching(count, test)[k]
                < count && test(matching(count, test)[k]),
        forall|i: int, j: int|
            0 <= i < j < matching(count, test).len() ==> #[trigger] matching(count, test)[i]
                < #[trigger] matching(count, test)[j],
        forall|e: int| 0 <= e < count && test(e) ==> #[trigger] matching(count, test).contains(e),
    decreases count,
{
    if count > 0 {
        matching_is_exact((count - 1) as nat, test);
        let before = matching((count - 1) as nat, test);
        let after = matching(count, test);
        assert forall|e: int| 0 <= e < count && test(e) implies #[trigger] after.contains(e) by {
            if e == count - 1 {
                assert(after[after.len() - 1] == e);
            } else {
                assert(before.contains(e));
                let k = choose|k: int| 0 <= k < before.len() && before[k] == e;
                assert(after[k] == e);
            }
        }
    }
}

/// The entries of `list` from place `from` on whose places meet `keep`.
pub open spec fn retained<A>(list: Seq<A>, keep: spec_fn(int) -> bool, from: int) -> Seq<A>
    decreases list.len() - from,
{
    if from >= list.len() {
        Seq::empty()
    } else if keep(from) {
        seq![list[from]] + retained(list, keep, from + 1)
    } else {
        retained(list, keep, from + 1)
    }
}

/// Whether `entry` stands in the list at a kept place, from place `from` on.
pub open spec fn kept_entry<A>(
    list: Seq<A>,
    keep: spec_fn(int) -> bool,
    from: int,
    entry: A,
) -> bool {
    exists|i: int| from <= i < list.len() && keep(i) && #[trigger] list[i] == entry
}

/// What is retained stood in the list at a place that is kept, and what stood
/// at such a place is retained.
pub proof fn retained_is_exact<A>(list: Seq<A>, keep: spec_fn(int) -> bool, from: int)
    requires
        0 <= from <= list.len(),
    ensures
        retained(list, keep, from).len() <= list.len() - from,
        forall|k: int|
            0 <= k < retained(list, keep, from).len() ==> kept_entry(
                list,
                keep,
                from,
                #[trigger] retained(list, keep, from)[k],
            ),
        forall|i: int|
            from <= i < list.len() && keep(i) ==> retained(list, keep, from).contains(
                #[trigger] list[i],
            ),
    decreases list.len() - from,
{
    if from < list.len() {
        retained_is_exact(list, keep, from + 1);
        let rest = retained(list, keep, from + 1);
        let all = retained(list, keep, from);
        assert forall|k: int| 0 <= k < all.len() implies kept_entry(
            list,
            keep,
            from,
            #[trigger] all[k],
        ) by {
            if keep(from) && k == 0 {
                assert(list[from] == all[0]);
            } else {
                let at = if keep(from) { k - 1 } else { k };
                assert(all[k] == rest[at]);
                assert(kept_entry(list, keep, from + 1, rest[at]));
                let i = choose|i: int|
                    from + 1 <= i < list.len() && keep(i) && #[trigger] list[i] == rest[at];
                assert(list[i] == all[k]);
            }
        }
        assert forall|i: int| from <= i < list.len() && keep(i) implies all.contains(
            #[trigger] list[i],
        ) by {
            if i == from {
                assert(all[0] == list[i]);
            } else {
                assert(rest.contains(list[i]));
                let k = choose|k: int| 0 <= k < rest.len() && rest[k] == list[i];
                if keep(from) {
                    assert(all[k + 1] == list[i]);
                } else {
                    assert(all[k] == list[i]);
                }
            }
        }
    }
}

/// Looking at each entry of a list and retaining entries can be done in either
/// order.
pub proof fn retained_views<A, B>(
    list: Seq<A>,
    of: spec_fn(A) -> B,
    keep: spec_fn(int) -> bool,
    from: int,
)
    requires
        0 <= from <= list.len(),
    ensures
        retained(list, keep, from).map_values(of) == retained(list.map_values(of), keep, from),
    decreases list.len() - from,
{
    if from < list.len() {
        retained_views(list, of, keep, from + 1);
        assert(retained(list, keep, from).map_values(of) =~= retained(
            list.map_values(of),
            keep,
            from,
        ));
    } else {
        assert(retained(list, keep, from).map_values(of) =~= retained(
            list.map_values(of),
            keep,
            from,
        ));
    }
}

/// What is retained depends on the places of the list alone.
pub proof fn same_retained<A>(
    list: Seq<A>,
    p: spec_fn(int) -> bool,
    q: spec_fn(int) -> bool,
    from: int,
)
    requires
        0 <= from <= list.len(),
        forall|i: int| 0 <= i < list.len() ==> #[trigger] p(i) == q(i),
    ensures
        retained(list, p, from) == retained(list, q, from),
    decreases list.len() - from,
{
    if from < list.len() {
        same_retained(list, p, q, from + 1);
        assert(p(from) == q(from));
    }
}

/// Removes the entries that are not to be kept.
pub fn keep_only<A>(list: &mut Vec<A>, keep: &Vec<bool>)
    requires
        keep.len() == old(list).len(),
    ensures
        final(list)@ == retained(old(list)@, |i: int| keep@[i], 0),
{
    let ghost rows = list@;
    let ghost test = |i: int| keep@[i];
    let mut i: usize = keep.len();
    assert(retained(rows, test, rows.len() as int) =~= Seq::empty());
    assert(list@ =~= rows.take(rows.len() as int) + retained(rows, test, rows.len() as int));
    while i > 0
        invariant
            i <= keep.len(),
            rows.len() == keep.len(),
            test == (|i: int| keep@[i]),
            list@ == rows.take(i as int) + retained(rows, test, i as int),
        decreases i,
    {
        i -= 1;
        let ghost before = list@;
        if !keep[i] {
            let _ = list.remove(i);
            assert(before.remove(i as int) =~= rows.take(i as int) + retained(rows, test, i + 1));
        } else {
            assert(before =~= rows.take(i as int) + (seq![rows[i as int]] + retained(
                rows,
                test,
                i + 1,
            )));
        }
    }
    assert(list@ =~= retained(rows, test, 0));
}

/// The keys under which the newest entry comes first.
pub open spec fn newest_keys(times: Seq<i64>) -> Seq<i128> {
    times.map_values(|time: i64| (-(time as int)) as i128)
}

/// The keys under which the oldest entry comes first.
pub open spec fn oldest_keys(times: Seq<i64>) -> Seq<i128> {
    times.map_values(|time: i64| time as i128)
}

/// The order from the newest to the oldest.
pub open spec fn newest_first(times: Seq<i64>) -> Seq<int> {
    stable_order(times.len(), key_above(newest_keys(times)))
}

/// The order from the oldest to the newest.
pub open spec fn oldest_first(times: Seq<i64>) -> Seq<int> {
    stable_order(times.len(), key_above(oldest_keys(times)))
}

/// Orders times from the newest to the oldest.
pub fn order_newest(times: &Vec<i64>) -> (ordered: Vec<usize>)
    ensures
        places(ordered@) == newest_first(times@),
{
    let mut keys: Vec<i128> = Vec::new();
    let mut i: usize = 0;
    while i < times.len()
        invariant
            i <= times.len(),
            keys.len() == i,
            forall|k: int| 0 <= k < i ==> keys@[k] == -(times@[k] as int),
        decreases times.len() - i,
    {
        keys.push(-(times[i] as i128));
        i += 1;
    }
    assert(keys@ =~= newest_keys(times@));
    order_by_key(&keys)
}

/// Orders times from the oldest to the newest.
pub fn order_oldest(times: &Vec<i64>) -> (ordered: Vec<usize>)
    ensures
        places(ordered@) == oldest_first(times@),
{
    let mut keys: Vec<i128> = Vec::new();
    let mut i: usize = 0;
    while i < times.len()
        invariant
            i <= times.len(),
            keys.len() == i,
            forall|k: int| 0 <= k < i ==> keys@[k] == times@[k] as int,
        decreases times.len() - i,
    {
        keys.push(times[i] as i128);
        i += 1;
    }
    assert(keys@ =~= oldest_keys(times@));
    order_by_key(&keys)
}

/// From the newest to the oldest, no entry is older than the one after it.
pub proof fn newest_first_is_sorted(times: Seq<i64>)
    ensures
        forall|i: int, j: int|
            0 <= i < j < times.len() ==> times[#[trigger] newest_first(times)[i]]
                >= times[#[trigger] newest_first(times)[j]],
{
    let above = key_above(newest_keys(times));
    order_is_complete(times.len(), above);
    order_is_sorted(times.len(), above);
    assert forall|i: int, j: int| 0 <= i < j < times.len() implies times[#[trigger] newest_first(
        times,
    )[i]] >= times[#[trigger] newest_first(times)[j]] by {
        let a = newest_first(times)[i];
        let b = newest_first(times)[j];
        assert(!above(a, b));
    }
}

/// The entries of `list` at the given places.
pub open spec fn picked<A>(list: Seq<A>, at: Seq<int>) -> Seq<A> {
    at.map_values(|k: int| list[k])
}

} // verus!
