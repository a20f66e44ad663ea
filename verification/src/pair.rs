//! Two indices handled together, lane by lane.

use vstd::prelude::*;

verus! {

/// A pair of machine integers. Arithmetic on pairs acts on each lane
/// separately, so that two adjacent matrix entries are worked out by one
/// expression. Every operation demands that neither lane leaves the range
/// of `usize`.
#[allow(non_camel_case_types)]
#[derive(Copy, Clone, Debug, PartialEq, Eq, Structural)]
pub struct usizex2(pub usize, pub usize);

/// The sum, lane by lane.
impl core::ops::Add for usizex2 {
    type Output = Self;

    fn add(self, rhs: Self) -> (sum: Self) {
        usizex2(self.0 + rhs.0, self.1 + rhs.1)
    }
}

/// What `+` asks for and gives on pairs.
impl vstd::std_specs::ops::AddSpecImpl for usizex2 {
    open spec fn obeys_add_spec() -> bool {
        true
    }

    open spec fn add_req(self, rhs: Self) -> bool {
        self.0 + rhs.0 <= usize::MAX && self.1 + rhs.1 <= usize::MAX
    }

    open spec fn add_spec(self, rhs: Self) -> Self {
        usizex2((self.0 + rhs.0) as usize, (self.1 + rhs.1) as usize)
    }
}

/// The product, lane by lane.
impl core::ops::Mul for usizex2 {
    type Output = Self;

    fn mul(self, rhs: Self) -> (product: Self) {
        usizex2(self.0 * rhs.0, self.1 * rhs.1)
    }
}

/// What `*` asks for and gives on pairs.
impl vstd::std_specs::ops::MulSpecImpl for usizex2 {
    open spec fn obeys_mul_spec() -> bool {
        true
    }

    open spec fn mul_req(self, rhs: Self) -> bool {
        self.0 * rhs.0 <= usize::MAX && self.1 * rhs.1 <= usize::MAX
    }

    open spec fn mul_spec(self, rhs: Self) -> Self {
        usizex2((self.0 * rhs.0) as usize, (self.1 * rhs.1) as usize)
    }
}

/// The quotient, lane by lane, rounded down.
impl core::ops::Div for usizex2 {
    type Output = Self;

    fn div(self, rhs: Self) -> (quotient: Self) {
        usizex2(self.0 / rhs.0, self.1 / rhs.1)
    }
}

/// What `/` asks for and gives on pairs.
impl vstd::std_specs::ops::DivSpecImpl for usizex2 {
    open spec fn obeys_div_spec() -> bool {
        true
    }

    open spec fn div_req(self, rhs: Self) -> bool {
        rhs.0 != 0 && rhs.1 != 0
    }

    open spec fn div_spec(self, rhs: Self) -> Self {
        usizex2(self.0 / rhs.0, self.1 / rhs.1)
    }
}

} // verus!
