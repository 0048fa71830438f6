//! Copies that keep the mathematical value: the library's data holds `String`
//! and `Vec`, whose contracts speak of their deep views.

use vstd::prelude::*;
use vstd::string::*;

verus! {

/// A value that can be copied with its deep view kept.
pub trait Replicate: DeepView + Sized {
    fn replicate(&self) -> (r: Self)
        ensures
            r.deep_view() == self.deep_view(),
    ;
}

impl Replicate for String {
    fn replicate(&self) -> (r: String) {
        self.clone()
    }
}

impl Replicate for bool {
    fn replicate(&self) -> (r: bool) {
        *self
    }
}

/// Pushing an element pushes its deep view.
pub proof fn lemma_push_view<T: DeepView>(before: Vec<T>, after: Vec<T>, x: T)
    requires
        after@ == before@.push(x),
    ensures
        after.deep_view() == before.deep_view().push(x.deep_view()),
{
    assert(after.deep_view() =~= before.deep_view().push(x.deep_view()));
}

/// A copy of every element, in order.
pub fn replicate_all<T: Replicate>(v: &Vec<T>) -> (r: Vec<T>)
    ensures
        r.deep_view() == v.deep_view(),
{
    let mut r: Vec<T> = Vec::new();
    let mut i: usize = 0;
    while i < v.len()
        invariant
            i <= v.len(),
            r@.len() == i,
            forall|j: int| 0 <= j < i ==> r@[j].deep_view() == v@[j].deep_view(),
        decreases v.len() - i,
    {
        r.push(v[i].replicate());
        i += 1;
    }
    assert(r.deep_view() =~= v.deep_view());
    r
}

/// A copy of an optional value.
pub fn replicate_option<T: Replicate>(v: &Option<T>) -> (r: Option<T>)
    ensures
        r.deep_view() == v.deep_view(),
{
    match v {
        Some(x) => Some(x.replicate()),
        None => None,
    }
}

} // verus!
