//! Growing vectors, in terms of the models of their elements.

use vstd::prelude::*;

verus! {

/// What `push` does to the models of a vector's elements.
pub proof fn lemma_pushed<T: DeepView>(before: Vec<T>, after: Vec<T>, x: T)
    requires
        after@ == before@.push(x),
    ensures
        after.deep_view() == before.deep_view().push(x.deep_view()),
{
    assert forall|i: int| 0 <= i < after@.len() implies after.deep_view()[i]
        == before.deep_view().push(x.deep_view())[i] by {
        if i < before@.len() {
            assert(after@[i] == before@[i]);
        }
    }
    assert(after.deep_view() =~= before.deep_view().push(x.deep_view()));
}

/// `before` with `x` at its end.
pub fn and_one<T: DeepView>(before: Vec<T>, x: T) -> (r: Vec<T>)
    ensures
        r.deep_view() == before.deep_view().push(x.deep_view()),
{
    let mut r = before;
    r.push(x);
    proof {
        lemma_pushed(before, r, x);
    }
    r
}

/// `before`, then `after`.
pub fn and_all<T: DeepView>(before: Vec<T>, after: Vec<T>) -> (r: Vec<T>)
    ensures
        r.deep_view() == before.deep_view() + after.deep_view(),
{
    let mut r = before;
    let mut rest = after;
    r.append(&mut rest);
    assert forall|i: int| 0 <= i < r@.len() implies r.deep_view()[i] == (before.deep_view()
        + after.deep_view())[i] by {
        if i < before@.len() {
            assert(r@[i] == before@[i]);
        } else {
            assert(r@[i] == after@[i - before@.len()]);
        }
    }
    assert(r.deep_view() =~= before.deep_view() + after.deep_view());
    r
}

} // verus!
