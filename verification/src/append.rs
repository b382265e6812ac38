use vstd::prelude::*;

verus! {

/// The capability of taking one more value onto a growing flat tuple, so a
/// chain of fused validations builds `(a, b, c)` rather than `((a, b), c)`.
pub trait Append<A1>: Sized {
    /// The flattened combination of `Self` and one more value.
    type Out;

    /// What `append` returns for the given pair of values.
    spec fn append_spec(self, a1: A1) -> Self::Out;

    /// Combines `self` with one more value into the flattened form.
    fn append(self, a1: A1) -> (r: Self::Out)
        ensures
            r == self.append_spec(a1),
    ;
}

impl<A1> Append<A1> for () {
    type Out = (A1,);

    open spec fn append_spec(self, a1: A1) -> (A1,) {
        (a1,)
    }

    fn append(self, a1: A1) -> (r: (A1,)) {
        (a1,)
    }
}

impl<A0, A1> Append<A1> for (A0,) {
    type Out = (A0, A1);

    open spec fn append_spec(self, a1: A1) -> (A0, A1) {
        (self.0, a1)
    }

    fn append(self, a1: A1) -> (r: (A0, A1)) {
        (self.0, a1)
    }
}

impl<A0, A1, A2> Append<A2> for (A0, A1) {
    type Out = (A0, A1, A2);

    open spec fn append_spec(self, a2: A2) -> (A0, A1, A2) {
        (self.0, self.1, a2)
    }

    fn append(self, a2: A2) -> (r: (A0, A1, A2)) {
        (self.0, self.1, a2)
    }
}

impl<A0, A1, A2, A3> Append<A3> for (A0, A1, A2) {
    type Out = (A0, A1, A2, A3);

    open spec fn append_spec(self, a3: A3) -> (A0, A1, A2, A3) {
        (self.0, self.1, self.2, a3)
    }

    fn append(self, a3: A3) -> (r: (A0, A1, A2, A3)) {
        (self.0, self.1, self.2, a3)
    }
}

impl<A0, A1, A2, A3, A4> Append<A4> for (A0, A1, A2, A3) {
    type Out = (A0, A1, A2, A3, A4);

    open spec fn append_spec(self, a4: A4) -> (A0, A1, A2, A3, A4) {
        (self.0, self.1, self.2, self.3, a4)
    }

    fn append(self, a4: A4) -> (r: (A0, A1, A2, A3, A4)) {
        (self.0, self.1, self.2, self.3, a4)
    }
}

} // verus!
