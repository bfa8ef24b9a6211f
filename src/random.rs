use vstd::prelude::*;
use rand::Rng;
use rand::seq::IteratorRandom;
use crate::corpus::CorpusError;

verus! {

/// Relies on rand's `Rng::gen_range` on the thread-local generator: a value
/// drawn from `0..n`, which panics when the range is empty.
#[verifier::external_body]
pub(crate) fn draw_below(n: u32) -> (r: u32)
    requires
        n > 0,
    ensures
        r < n,
{
    rand::thread_rng().gen_range(0..n)
}

/// Relies on rand's `IteratorRandom::choose` over `0..n` with the
/// thread-local generator: `None` when the range is empty, otherwise one of
/// its members.
#[verifier::external_body]
fn choose_index(n: usize) -> (r: Option<usize>)
    ensures
        r is None <==> n == 0,
        r matches Some(i) ==> i < n,
{
    (0..n).choose(&mut rand::thread_rng())
}

/// Picks one of `items` at random; fails with `EmptyCategory` when there is none.
pub fn choose_uniform(items: &Vec<String>) -> (r: Result<String, CorpusError>)
    ensures
        r is Err <==> items@.len() == 0,
        r matches Err(e) ==> e == CorpusError::EmptyCategory,
        r matches Ok(s) ==> exists|i: int| 0 <= i < items@.len() && s@ == items@[i]@,
        items@.len() == 1 ==> (r matches Ok(s) && s@ == items@[0]@),
{
    match choose_index(items.len()) {
        Some(i) => Ok(items[i].clone()),
        None => Err(CorpusError::EmptyCategory),
    }
}

} // verus!
