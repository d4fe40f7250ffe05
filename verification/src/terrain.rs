use vstd::prelude::*;
use crate::math::IVec3;

verus! {

#[derive(Clone, Copy, Debug, PartialEq, Eq, Structural)]
pub enum BlockType {
    Air,
    Dirt,
    Stone,
}

/// A cube of blocks, `side` blocks along each axis, stored row by row: `x` runs
/// fastest, then `z`, then `y`.
#[derive(Debug)]
pub struct Terrain {
    pub blocks: Vec<BlockType>,
    pub side: i32,
}

/// The place of block `i` in the array of a cube of the given side.
pub open spec fn offset(side: int, i: IVec3) -> int {
    i.x + i.z * side + i.y * side * side
}

impl Default for Terrain {
    /// The empty cube, of side 0.
    fn default() -> (r: Terrain)
        ensures
            r.wf(),
            r.side == 0,
            r.blocks@ == Seq::<BlockType>::empty(),
    {
        Terrain { blocks: Vec::new(), side: 0 }
    }
}

impl Clone for Terrain {
    fn clone(&self) -> (r: Terrain)
        ensures
            r.side == self.side,
            r.blocks@ == self.blocks@,
    {
        Terrain { blocks: self.blocks.clone(), side: self.side }
    }
}

impl Terrain {
    /// The side is not negative and the array holds the whole cube.
    pub open spec fn wf(&self) -> bool {
        &&& 0 <= self.side
        &&& self.side * self.side * self.side <= i32::MAX
        &&& self.blocks@.len() == self.side * self.side * self.side
    }

    /// The block's place can be computed in `i32` and lies inside the array.
    pub open spec fn addressable(&self, i: IVec3) -> bool {
        let s = self.side as int;
        &&& i32::MIN <= i.z * s <= i32::MAX
        &&& i32::MIN <= i.x + i.z * s <= i32::MAX
        &&& i32::MIN <= i.y * s <= i32::MAX
        &&& i32::MIN <= i.y * s * s <= i32::MAX
        &&& 0 <= offset(s, i) <= i32::MAX
        &&& offset(s, i) < self.blocks@.len()
    }

    /// A cube of air.
    pub fn new(side: i32) -> (r: Terrain)
        requires
            0 <= side,
            side * side * side <= i32::MAX,
        ensures
            r.wf(),
            r.side == side,
            forall|k: int| 0 <= k < r.blocks@.len() ==> r.blocks@[k] == BlockType::Air,
    {
        proof {
            assert(0 <= side * side <= side * side * side || side == 0) by (nonlinear_arith)
                requires
                    0 <= side,
            ;
        }
        Terrain { blocks: vec![BlockType::Air; (side * side * side) as usize], side }
    }

    /// The block at `i`.
    pub fn block(&self, i: IVec3) -> (b: BlockType)
        requires
            self.addressable(i),
        ensures
            b == self.blocks@[offset(self.side as int, i)],
    {
        self.blocks[((i.x) + (i.z) * self.side + (i.y) * self.side * self.side) as usize]
    }
}

/// Every block whose coordinates lie inside the cube is addressable.
pub proof fn lemma_inside_is_addressable(t: Terrain, i: IVec3)
    requires
        t.wf(),
        0 <= i.x < t.side,
        0 <= i.y < t.side,
        0 <= i.z < t.side,
    ensures
        t.addressable(i),
{
    let s = t.side as int;
    let x = i.x as int;
    let y = i.y as int;
    let z = i.z as int;
    assert(0 <= z * s <= (s - 1) * s) by (nonlinear_arith)
        requires
            0 <= z < s,
    ;
    assert(0 <= y * s <= (s - 1) * s) by (nonlinear_arith)
        requires
            0 <= y < s,
    ;
    assert(0 <= y * s * s <= (s - 1) * s * s) by (nonlinear_arith)
        requires
            0 <= y < s,
    ;
    assert((s - 1) * s * s + (s - 1) * s + (s - 1) == s * s * s - 1) by (nonlinear_arith);
    assert((s - 1) * s <= s * s * s) by (nonlinear_arith)
        requires
            1 <= s,
    ;
}

} // verus!
