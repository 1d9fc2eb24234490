//! Sequences of pin counts and their sums.

use vstd::prelude::*;

verus! {

/// The pin counts held in machine integers, as mathematical integers.
pub open spec fn pins(rolls: Seq<u16>) -> Seq<int> {
    rolls.map_values(|pin: u16| pin as int)
}

/// The sum of a sequence of pin counts.
pub open spec fn total(rolls: Seq<int>) -> int
    decreases rolls.len(),
{
    if rolls.len() == 0 {
        0
    } else {
        total(rolls.drop_last()) + rolls.last()
    }
}

/// Every roll knocks down between zero and ten pins.
pub open spec fn on_the_lane(rolls: Seq<int>) -> bool {
    forall|i: int| 0 <= i < rolls.len() ==> 0 <= #[trigger] rolls[i] <= 10
}

/// Adds up pin counts.
pub fn sum_pins(rolls: &Vec<u16>) -> (sum: u16)
    requires
        total(pins(rolls@)) <= u16::MAX,
    ensures
        sum as int == total(pins(rolls@)),
{
    let mut sum: u16 = 0;
    let mut i: usize = 0;
    while i < rolls.len()
        invariant
            i <= rolls.len(),
            sum as int == total(pins(rolls@).take(i as int)),
            total(pins(rolls@)) <= u16::MAX,
        decreases rolls.len() - i,
    {
        proof {
            let all = pins(rolls@);
            assert(all.take(i + 1).drop_last() =~= all.take(i as int));
            lemma_total_prefix(all, i + 1);
        }
        sum = sum + rolls[i];
        i = i + 1;
    }
    assert(pins(rolls@).take(i as int) =~= pins(rolls@));
    sum
}

/// The sum of a single roll.
pub proof fn lemma_total_of_one(a: int)
    ensures
        total(seq![a]) == a,
{
    assert(seq![a].drop_last() =~= Seq::<int>::empty());
    assert(total(Seq::<int>::empty()) == 0);
}

/// The sum of two rolls.
pub proof fn lemma_total_of_two(a: int, b: int)
    ensures
        total(seq![a, b]) == a + b,
{
    assert(seq![a, b].drop_last() =~= seq![a]);
    lemma_total_of_one(a);
}

/// The sum of three rolls.
pub proof fn lemma_total_of_three(a: int, b: int, c: int)
    ensures
        total(seq![a, b, c]) == a + b + c,
{
    assert(seq![a, b, c].drop_last() =~= seq![a, b]);
    lemma_total_of_two(a, b);
}

/// Rolls on the lane sum to at most ten pins each.
pub proof fn lemma_total_bounds(rolls: Seq<int>)
    requires
        on_the_lane(rolls),
    ensures
        0 <= total(rolls) <= 10 * rolls.len(),
    decreases rolls.len(),
{
    if rolls.len() > 0 {
        lemma_total_bounds(rolls.drop_last());
    }
}

/// A prefix of non-negative rolls sums to no more than the whole.
pub proof fn lemma_total_prefix(rolls: Seq<int>, n: int)
    requires
        0 <= n <= rolls.len(),
        forall|i: int| 0 <= i < rolls.len() ==> 0 <= #[trigger] rolls[i],
    ensures
        0 <= total(rolls.take(n)) <= total(rolls),
    decreases rolls.len() - n,
{
    if n == rolls.len() {
        assert(rolls.take(n) =~= rolls);
        lemma_total_nonnegative(rolls);
    } else {
        lemma_total_prefix(rolls, n + 1);
        assert(rolls.take(n + 1).drop_last() =~= rolls.take(n));
        lemma_total_nonnegative(rolls.take(n));
    }
}

/// Non-negative rolls have a non-negative sum.
pub proof fn lemma_total_nonnegative(rolls: Seq<int>)
    requires
        forall|i: int| 0 <= i < rolls.len() ==> 0 <= #[trigger] rolls[i],
    ensures
        0 <= total(rolls),
    decreases rolls.len(),
{
    if rolls.len() > 0 {
        lemma_total_nonnegative(rolls.drop_last());
    }
}

} // verus!
