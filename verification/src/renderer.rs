use vstd::prelude::*;

pub mod image;
pub mod mesh;
pub mod primitives;
pub mod tessellator;

verus! {

} // verus!
