use vstd::prelude::*;

verus! {

/// A point of the signed integer grid.
#[derive(Clone, Copy, Debug)]
pub struct IVec3 {
    pub x: i32,
    pub y: i32,
    pub z: i32,
}

impl IVec3 {
    pub fn new(x: i32, y: i32, z: i32) -> (v: IVec3)
        ensures
            v == (IVec3 { x, y, z }),
    {
        IVec3 { x, y, z }
    }
}

/// A point of the unsigned integer grid.
#[derive(Clone, Copy, Debug)]
pub struct UVec3 {
    pub x: u32,
    pub y: u32,
    pub z: u32,
}

impl UVec3 {
    pub fn new(x: u32, y: u32, z: u32) -> (v: UVec3)
        ensures
            v == (UVec3 { x, y, z }),
    {
        UVec3 { x, y, z }
    }
}

} // verus!
