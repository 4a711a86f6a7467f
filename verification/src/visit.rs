//! Calls of a closure, in the order in which they are made.
use vstd::prelude::*;

verus! {

/// One call of a closure on an element: the element that it was given, the element
/// that it left in its place, and its answer.
pub struct Visit<T> {
    pub given: T,
    pub left: T,
    pub answer: bool,
}

/// A closure together with the calls that were made of it.
///
/// A closure may remember what it was called with, so its answer can depend on the
/// calls before. The fields are private: the closure can be called only by
/// [`Visitor::visit`], which writes down each call.
pub struct Visitor<T, F> {
    f: F,
    visits: Ghost<Seq<Visit<T>>>,
}

impl<T, F> Visitor<T, F> {
    /// The closure.
    pub closed spec fn closure(&self) -> F {
        self.f
    }

    /// The calls that were made, first to last.
    pub closed spec fn visits(&self) -> Seq<Visit<T>> {
        self.visits@
    }

    /// A closure of which no call was made.
    pub fn new(f: F) -> (r: Self)
        ensures
            r.closure() == f,
            r.visits() == Seq::<Visit<T>>::empty(),
    {
        Visitor { f, visits: Ghost(Seq::empty()) }
    }
}

impl<T, F: FnMut(&mut T) -> bool> Visitor<T, F> {
    /// Calls the closure on an element.
    pub fn visit(&mut self, element: &mut T) -> (r: bool)
        requires
            forall|x: &mut T|
                *x == *old(element) ==> #[trigger] call_requires(old(self).closure(), (x,)),
        ensures
            final(self).closure() == old(self).closure(),
            final(self).visits() == old(self).visits().push(
                (Visit { given: *old(element), left: *final(element), answer: r }),
            ),
            exists|x: &mut T|
                {
                    &&& *x == *old(element)
                    &&& *final(x) == *final(element)
                    &&& #[trigger] call_ensures(old(self).closure(), (x,), r)
                },
    {
        let ghost given = *element;
        assert(self.closure() == self.f);
        let f = &mut self.f;
        let r: bool = f(element);
        self.visits = Ghost(self.visits@.push(Visit { given, left: *element, answer: r }));
        r
    }
}

} // verus!
