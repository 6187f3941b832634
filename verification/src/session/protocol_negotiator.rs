//! Which protocols a guest and a center have in common.
use vstd::prelude::*;

use crate::text;

verus! {

/// The keys of the first list that stand in the second too, in the order of the first.
pub open spec fn common_keys(mine: Seq<Seq<char>>, theirs: Seq<Seq<char>>) -> Seq<Seq<char>> {
    mine.filter(|key: Seq<char>| theirs.contains(key))
}

/// The keys that both sides know, in the order of `my_protocols`.
pub fn negotiate(my_protocols: &[String], center_protocols: &[String]) -> (common: Vec<String>)
    ensures
        text::texts(common@) == common_keys(
            text::texts(my_protocols@),
            text::texts(center_protocols@),
        ),
{
    let ghost mine = text::texts(my_protocols@);
    let ghost theirs = text::texts(center_protocols@);
    let mut common: Vec<String> = Vec::new();
    proof {
        reveal(Seq::filter);
    }
    assert(text::texts(common@) =~= common_keys(mine.take(0), theirs));
    for i in 0..my_protocols.len()
        invariant
            mine == text::texts(my_protocols@),
            theirs == text::texts(center_protocols@),
            text::texts(common@) == common_keys(mine.take(i as int), theirs),
    {
        proof {
            reveal(Seq::filter);
        }
        assert(mine.take(i + 1).drop_last() =~= mine.take(i as int));
        let ghost before = common@;
        if text::list_contains(center_protocols, my_protocols[i].as_str()) {
            common.push(my_protocols[i].clone());
            assert(text::texts(common@) =~= text::texts(before).push(mine[i as int]));
        }
    }
    assert(mine.take(mine.len() as int) =~= mine);
    common
}

/// A key is negotiated exactly where both sides know it.
pub proof fn negotiated_is_intersection(
    mine: Seq<Seq<char>>,
    theirs: Seq<Seq<char>>,
    key: Seq<char>,
)
    ensures
        common_keys(mine, theirs).contains(key) <==> mine.contains(key) && theirs.contains(key),
{
    let known = |k: Seq<char>| theirs.contains(k);
    if common_keys(mine, theirs).contains(key) {
        mine.lemma_filter_contains_rev(known, key);
        let i = choose|i: int|
            0 <= i < common_keys(mine, theirs).len() && common_keys(mine, theirs)[i] == key;
        mine.lemma_filter_pred(known, i);
    }
    if mine.contains(key) && theirs.contains(key) {
        let i = choose|i: int| 0 <= i < mine.len() && mine[i] == key;
        mine.lemma_filter_contains(known, i);
    }
}

/// Negotiating again with what was negotiated changes nothing.
pub proof fn negotiation_is_stable(mine: Seq<Seq<char>>, theirs: Seq<Seq<char>>)
    ensures
        common_keys(common_keys(mine, theirs), theirs) == common_keys(mine, theirs),
    decreases mine.len(),
{
    reveal(Seq::filter);
    if mine.len() > 0 {
        let known = |k: Seq<char>| theirs.contains(k);
        negotiation_is_stable(mine.drop_last(), theirs);
        let before = common_keys(mine.drop_last(), theirs);
        if theirs.contains(mine.last()) {
            assert(before.push(mine.last()).drop_last() =~= before);
            assert(before.push(mine.last()).last() == mine.last());
        }
    }
}

/// What is negotiated of two lists that stand one behind the other is negotiated one behind the
/// other: the order and the number of the guest's keys stay.
pub proof fn negotiation_keeps_the_order(
    a: Seq<Seq<char>>,
    b: Seq<Seq<char>>,
    key: Seq<char>,
    theirs: Seq<Seq<char>>,
)
    ensures
        common_keys(a + b, theirs) == common_keys(a, theirs) + common_keys(b, theirs),
        common_keys(seq![key], theirs) == (if theirs.contains(key) {
            seq![key]
        } else {
            Seq::<Seq<char>>::empty()
        }),
{
    let known = |k: Seq<char>| theirs.contains(k);
    Seq::filter_distributes_over_add(a, b, known);
    reveal_with_fuel(Seq::filter, 2);
    assert(seq![key].drop_last() =~= Seq::<Seq<char>>::empty());
    assert(Seq::<Seq<char>>::empty().push(key) =~= seq![key]);
}

} // verus!
