//! Views of sequences of values that have a view themselves.

use vstd::prelude::*;

verus! {

/// The views of the elements of `s`, in order.
pub open spec fn view_each<T: View>(s: Seq<T>) -> Seq<T::V> {
    Seq::new(s.len(), |i: int| s[i]@)
}

/// The view of a value that may be absent.
pub open spec fn view_option<T: View>(o: Option<T>) -> Option<T::V> {
    match o {
        Some(x) => Some(x@),
        None => None,
    }
}

/// The view of a result: the view of what was gained, or the error as it is.
pub open spec fn view_result<T: View, E>(r: Result<T, E>) -> Result<T::V, E> {
    match r {
        Ok(x) => Ok(x@),
        Err(e) => Err(e),
    }
}

/// Pushing an element pushes its view.
pub proof fn lemma_view_each_push<T: View>(s: Seq<T>, x: T)
    ensures
        view_each(s.push(x)) == view_each(s).push(x@),
{
    assert(view_each(s.push(x)) =~= view_each(s).push(x@));
}

/// Sequences of equal length whose elements have equal views have equal views.
pub proof fn lemma_view_each_eq<T: View>(a: Seq<T>, b: Seq<T>)
    requires
        a.len() == b.len(),
        forall|i: int| 0 <= i < a.len() ==> a[i]@ == b[i]@,
    ensures
        view_each(a) == view_each(b),
{
    assert(view_each(a) =~= view_each(b));
}

} // verus!
