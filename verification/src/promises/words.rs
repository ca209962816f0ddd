//! Numerals, and the white space round a text.

use vstd::prelude::*;

use crate::order;
use crate::text;

verus! {

/// The number that a numeral stands for.
pub open spec fn number_of(numeral: Seq<char>) -> int
    decreases numeral.len(),
{
    if numeral.len() == 0 {
        0
    } else {
        10 * number_of(numeral.drop_last()) + (numeral.last() as int - '0' as int)
    }
}

/// The decimal numeral of a number stands for that number, is made of digits
/// and begins with a zero only where it is one.
pub proof fn a_numeral_is_its_number(n: nat)
    ensures
        number_of(text::decimal(n)) == n,
        text::decimal(n).len() > 0,
        forall|i: int|
            0 <= i < text::decimal(n).len() ==> '0' <= #[trigger] text::decimal(n)[i]
                && text::decimal(n)[i] <= '9',
        text::decimal(n)[0] == '0' ==> n == 0,
    decreases n,
{
    reveal_with_fuel(number_of, 2);
    let numeral = text::decimal(n);
    if n < 10 {
        assert(numeral.drop_last() =~= Seq::empty());
    } else {
        a_numeral_is_its_number(n / 10);
        assert(numeral.drop_last() =~= text::decimal(n / 10));
        assert(numeral.last() == text::digit(n % 10));
    }
}

/// A text is what is left of it without the white space at its ends, between
/// white space; and what is left neither begins nor ends with any.
pub proof fn only_white_space_is_trimmed(whole: Seq<char>)
    ensures
        ({
            let left = text::trimmed(whole);
            &&& left.len() > 0 ==> !text::white_space(left[0]) && !text::white_space(left.last())
            &&& exists|before: Seq<char>, after: Seq<char>|
                #[trigger] (before + left + after) == whole && text::blank(before) && text::blank(
                    after,
                )
        }),
{
    if text::blank(whole) {
        assert(whole + text::trimmed(whole) + Seq::empty() =~= whole);
        assert(text::blank(Seq::<char>::empty()));
    } else {
        let i = choose|i: int| 0 <= i < whole.len() && !text::white_space(whole[i]);
        let from = first_seen(whole, 0, i);
        let to = last_seen(whole, i, whole.len() as int);
        assert(text::bounds_trimmed(whole, from, to));
        let (f, t) = text::trim_bounds(whole);
        assert(text::bounds_trimmed(whole, f, t));
        let before = whole.take(f);
        let after = whole.skip(t);
        assert(before + text::trimmed(whole) + after =~= whole);
        assert(text::blank(before) && text::blank(after));
    }
}

proof fn first_seen(whole: Seq<char>, from: int, at: int) -> (first: int)
    requires
        0 <= from <= at < whole.len(),
        !text::white_space(whole[at]),
        forall|k: int| 0 <= k < from ==> text::white_space(#[trigger] whole[k]),
    ensures
        from <= first <= at,
        !text::white_space(whole[first]),
        forall|k: int| 0 <= k < first ==> text::white_space(#[trigger] whole[k]),
    decreases at - from,
{
    if text::white_space(whole[from]) {
        first_seen(whole, from + 1, at)
    } else {
        from
    }
}

proof fn last_seen(whole: Seq<char>, at: int, to: int) -> (end: int)
    requires
        0 <= at < to <= whole.len(),
        !text::white_space(whole[at]),
        forall|k: int| to <= k < whole.len() ==> text::white_space(#[trigger] whole[k]),
    ensures
        at < end <= to,
        !text::white_space(whole[end - 1]),
        forall|k: int| end <= k < whole.len() ==> text::white_space(#[trigger] whole[k]),
    decreases to - at,
{
    if text::white_space(whole[to - 1]) {
        last_seen(whole, at, to - 1)
    } else {
        to
    }
}

/// Texts stand in the order of their characters: behind a common beginning the
/// greater character comes later, and a text comes later than its beginning.
pub proof fn texts_stand_in_order(common: Seq<char>, a: Seq<char>, b: Seq<char>)
    ensures
        order::text_above(common + a, common + b) == order::text_above(a, b),
        a.len() > 0 && b.len() > 0 && a[0] > b[0] ==> order::text_above(common + a, common + b)
            && !order::text_above(common + b, common + a),
        a.len() > 0 && b.len() == 0 ==> order::text_above(common + a, common + b)
            && !order::text_above(common + b, common + a),
    decreases common.len(),
{
    if common.len() == 0 {
        assert(common + a =~= a);
        assert(common + b =~= b);
    } else {
        assert((common + a).drop_first() =~= common.drop_first() + a);
        assert((common + b).drop_first() =~= common.drop_first() + b);
        texts_stand_in_order(common.drop_first(), a, b);
    }
}

} // verus!
