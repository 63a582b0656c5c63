use vstd::prelude::*;

verus! {

/// A collection used by tests.
#[derive(Clone, Copy, Debug, PartialEq, Eq)]
pub struct BasicCollection;

impl BasicCollection {
    /// The identifier of the collection.
    pub fn id() -> (r: String)
        ensures
            r@ == "tests.basic"@,
    {
        String::from_str("tests.basic")
    }
}

/// The sum of `values`.
pub open spec fn total(values: Seq<usize>) -> int
    decreases values.len(),
{
    if values.len() == 0 {
        0
    } else {
        total(values.drop_last()) + values.last()
    }
}

/// A view of [`BasicCollection`] that counts its documents.
#[derive(Clone, Copy, Debug, PartialEq, Eq)]
pub struct BasicCount;

impl BasicCount {
    /// The name of the view.
    pub fn name() -> (r: String)
        ensures
            r@ == "count"@,
    {
        String::from_str("count")
    }

    /// What the view maps each document to: one.
    pub fn map() -> (r: usize)
        ensures
            r == 1,
    {
        1
    }

    /// Reduces mapped values to their sum; `None` when the sum does not fit.
    pub fn reduce(values: &Vec<usize>) -> (r: Option<usize>)
        ensures
            match r {
                Some(sum) => sum == total(values@),
                None => total(values@) > usize::MAX,
            },
    {
        let mut sum: usize = 0;
        let mut i: usize = 0;
        while i < values.len()
            invariant
                i <= values@.len(),
                sum == total(values@.take(i as int)),
            decreases values@.len() - i,
        {
            proof {
                assert(values@.take(i + 1).drop_last() =~= values@.take(i as int));
            }
            if sum > usize::MAX - values[i] {
                proof {
                    lemma_total_grows(values@, i + 1);
                }
                return None;
            }
            sum = sum + values[i];
            i = i + 1;
        }
        assert(values@.take(i as int) =~= values@);
        Some(sum)
    }
}

/// Proves that the sum of a prefix is at most the sum of the whole.
pub proof fn lemma_total_grows(values: Seq<usize>, i: int)
    requires
        0 <= i <= values.len(),
    ensures
        total(values.take(i)) <= total(values),
    decreases values.len() - i,
{
    if i < values.len() {
        lemma_total_grows(values, i + 1);
        assert(values.take(i + 1).drop_last() =~= values.take(i));
    } else {
        assert(values.take(i) =~= values);
    }
}

} // verus!
