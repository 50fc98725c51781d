//! The functions that a layer applies to every cell of its summed map.

use crate::scalar::Scalar;
use vstd::prelude::*;

verus! {

/// The function applied to every cell after the filters' maps are summed.
#[derive(Clone, Copy, Debug, PartialEq, Eq, Structural)]
pub enum Activation {
    /// `max(0, x)`.
    Relu,
    /// The cell as it is.
    Identity,
}

impl Activation {
    /// What the activation makes of one cell.
    pub open spec fn spec_apply<T: Scalar>(self, x: T) -> T {
        match self {
            Activation::Relu => x.spec_relu(),
            Activation::Identity => x,
        }
    }

    /// Applies the activation to one cell.
    pub fn apply<T: Scalar>(self, x: T) -> (r: T)
        ensures
            r == self.spec_apply(x),
            self == Activation::Relu ==> r.is_nonnegative(),
            self == Activation::Identity ==> r == x,
    {
        match self {
            Activation::Relu => x.relu(),
            Activation::Identity => x,
        }
    }
}

/// The matrix with the activation applied to every cell.
pub open spec fn activate_map<T: Scalar>(activation: Activation, m: Seq<Seq<T>>) -> Seq<Seq<T>> {
    Seq::new(m.len(), |p: int| Seq::new(m[p].len(), |q: int| activation.spec_apply(m[p][q])))
}

} // verus!
