//! Element-wise models of sequences of values, and how they move under the
//! usual sequence operations.

use vstd::prelude::*;

verus! {

/// The sequence of the elements' own models.
pub open spec fn deep_of<T: DeepView>(s: Seq<T>) -> Seq<T::V> {
    Seq::new(s.len(), |i: int| s[i].deep_view())
}

/// A vector's deep view is the element-wise model of its view.
pub proof fn lemma_vec_deep<T: DeepView>(v: Vec<T>)
    ensures
        v.deep_view() == deep_of(v@),
{
    assert(v.deep_view() =~= deep_of(v@));
}

/// Pushing one element.
pub proof fn lemma_deep_of_push<T: DeepView>(s: Seq<T>, x: T)
    ensures
        deep_of(s.push(x)) == deep_of(s).push(x.deep_view()),
{
    assert(deep_of(s.push(x)) =~= deep_of(s).push(x.deep_view()));
}

/// Concatenation.
pub proof fn lemma_deep_of_add<T: DeepView>(s: Seq<T>, t: Seq<T>)
    ensures
        deep_of(s + t) == deep_of(s) + deep_of(t),
{
    assert(deep_of(s + t) =~= deep_of(s) + deep_of(t));
}



/// Inserting at a position.
pub proof fn lemma_deep_of_insert<T: DeepView>(s: Seq<T>, i: int, x: T)
    requires
        0 <= i <= s.len(),
    ensures
        deep_of(s.insert(i, x)) == deep_of(s).insert(i, x.deep_view()),
{
    s.insert_ensures(i, x);
    assert forall|j: int| 0 <= j < s.len() + 1 implies deep_of(s.insert(i, x))[j] == deep_of(
        s,
    ).insert(i, x.deep_view())[j] by {
        deep_of(s).insert_ensures(i, x.deep_view());
        if j < i {
            assert(s.insert(i, x)[j] == s[j]);
        } else if j == i {
            assert(s.insert(i, x)[j] == x);
        } else {
            assert(s.insert(i, x)[j] == s[j - 1]);
            assert(deep_of(s).insert(i, x.deep_view())[j] == deep_of(s)[j - 1]);
        }
    }
    assert(deep_of(s.insert(i, x)) =~= deep_of(s).insert(i, x.deep_view()));
}


} // verus!
