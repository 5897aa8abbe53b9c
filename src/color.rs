//! Quantized 8-bit colors.

use crate::ntuple::{NTuple, NTupleNewtype};
use vstd::prelude::*;

verus! {

broadcast use vstd::array::group_array_axioms;

/// A color with one byte for each of red, green and blue.
#[derive(Copy, Clone, Default, PartialEq, Debug)]
pub struct Rgb(pub NTuple<u8, 3>);

impl Rgb {
    pub fn new(red: u8, green: u8, blue: u8) -> (r: Self)
        ensures
            r.0@ == seq![red, green, blue],
    {
        let r = Self(NTuple([red, green, blue]));
        assert(r.0@ =~= seq![red, green, blue]);
        r
    }

    pub fn r(self) -> (r: u8)
        ensures
            r == self.0@[0],
    {
        self.0.0[0]
    }

    pub fn g(self) -> (r: u8)
        ensures
            r == self.0@[1],
    {
        self.0.0[1]
    }

    pub fn b(self) -> (r: u8)
        ensures
            r == self.0@[2],
    {
        self.0.0[2]
    }
}

impl NTupleNewtype<u8, 3> for Rgb {
    fn ntuple(&self) -> NTuple<u8, 3> {
        self.0
    }
}

impl From<NTuple<u8, 3>> for Rgb {
    fn from(ntuple: NTuple<u8, 3>) -> (r: Rgb)
        ensures
            r.0 == ntuple,
    {
        Rgb(ntuple)
    }
}

impl vstd::std_specs::convert::FromSpecImpl<NTuple<u8, 3>> for Rgb {
    open spec fn obeys_from_spec() -> bool {
        true
    }

    open spec fn from_spec(ntuple: NTuple<u8, 3>) -> Rgb {
        Rgb(ntuple)
    }
}

impl From<Rgb> for NTuple<u8, 3> {
    fn from(c: Rgb) -> (r: NTuple<u8, 3>)
        ensures
            r == c.0,
    {
        c.0
    }
}

impl vstd::std_specs::convert::FromSpecImpl<Rgb> for NTuple<u8, 3> {
    open spec fn obeys_from_spec() -> bool {
        true
    }

    open spec fn from_spec(c: Rgb) -> NTuple<u8, 3> {
        c.0
    }
}

} // verus!
