//! Cells of the world: integer coordinates, the four horizontal directions,
//! and the distance that the crop index measures.

use vstd::prelude::*;

verus! {

/// Every coordinate of a cell that the index can hold lies in
/// `-COORDINATE_LIMIT .. COORDINATE_LIMIT`. Two such cells are never further
/// apart along one axis than an `i32` can say.
pub const COORDINATE_LIMIT: i32 = 0x4000_0000;

/// The integer coordinates of one cell of the world.
#[derive(Clone, Copy, Debug, PartialEq, Eq, Structural)]
pub struct BlockPos {
    pub x: i32,
    pub y: i32,
    pub z: i32,
}

/// One of the four horizontal directions a block can face.
#[derive(Clone, Copy, Debug, PartialEq, Eq, Structural)]
pub enum FacingCardinal {
    North,
    South,
    West,
    East,
}

/// The distance between two coordinates on one axis.
pub open spec fn axis_gap(a: int, b: int) -> int {
    if a >= b {
        a - b
    } else {
        b - a
    }
}

impl BlockPos {
    /// The cell `n` below this one, where the coordinate space has one.
    pub open spec fn below(self, n: int) -> Option<BlockPos> {
        if i32::MIN <= self.y - n <= i32::MAX {
            Some(BlockPos { x: self.x, y: (self.y - n) as i32, z: self.z })
        } else {
            None
        }
    }

    /// The neighbour of this cell in the direction `facing`, where the
    /// coordinate space has one. North is towards smaller `z`, west towards
    /// smaller `x`.
    pub open spec fn neighbour(self, facing: FacingCardinal) -> Option<BlockPos> {
        match facing {
            FacingCardinal::North => if self.z > i32::MIN {
                Some(BlockPos { x: self.x, y: self.y, z: (self.z - 1) as i32 })
            } else {
                None
            },
            FacingCardinal::South => if self.z < i32::MAX {
                Some(BlockPos { x: self.x, y: self.y, z: (self.z + 1) as i32 })
            } else {
                None
            },
            FacingCardinal::West => if self.x > i32::MIN {
                Some(BlockPos { x: (self.x - 1) as i32, y: self.y, z: self.z })
            } else {
                None
            },
            FacingCardinal::East => if self.x < i32::MAX {
                Some(BlockPos { x: (self.x + 1) as i32, y: self.y, z: self.z })
            } else {
                None
            },
        }
    }

    /// The Manhattan distance between two cells.
    pub open spec fn manhattan(self, other: BlockPos) -> int {
        axis_gap(self.x as int, other.x as int) + axis_gap(self.y as int, other.y as int)
            + axis_gap(self.z as int, other.z as int)
    }

    /// The Manhattan distance as the index reports it: capped at `i32::MAX`.
    pub open spec fn reach(self, other: BlockPos) -> int {
        if self.manhattan(other) <= i32::MAX {
            self.manhattan(other)
        } else {
            i32::MAX as int
        }
    }

    /// Whether the index can hold this cell.
    pub open spec fn spec_in_range(&self) -> bool {
        &&& -COORDINATE_LIMIT <= self.x < COORDINATE_LIMIT
        &&& -COORDINATE_LIMIT <= self.y < COORDINATE_LIMIT
        &&& -COORDINATE_LIMIT <= self.z < COORDINATE_LIMIT
    }

    /// The number under which the position map files this cell. No two cells
    /// share one.
    pub open spec fn spec_key(&self) -> u128 {
        ((self.x - i32::MIN) * 0x1_0000_0000_0000_0000 + (self.y - i32::MIN) * 0x1_0000_0000 + (
        self.z - i32::MIN)) as u128
    }

    pub fn new(x: i32, y: i32, z: i32) -> (r: BlockPos)
        ensures
            r == (BlockPos { x, y, z }),
    {
        BlockPos { x, y, z }
    }

    /// This position with the y coordinate decreased by `y`.
    pub fn down(&self, y: i32) -> (r: BlockPos)
        requires
            i32::MIN <= self.y - y <= i32::MAX,
        ensures
            r.x == self.x,
            r.y == self.y - y,
            r.z == self.z,
    {
        BlockPos { x: self.x, y: self.y - y, z: self.z }
    }

    /// This position with the z coordinate decreased by `z`.
    pub fn north(&self, z: i32) -> (r: BlockPos)
        requires
            i32::MIN <= self.z - z <= i32::MAX,
        ensures
            r.x == self.x,
            r.y == self.y,
            r.z == self.z - z,
    {
        BlockPos { x: self.x, y: self.y, z: self.z - z }
    }

    /// This position with the z coordinate increased by `z`.
    pub fn south(&self, z: i32) -> (r: BlockPos)
        requires
            i32::MIN <= self.z + z <= i32::MAX,
        ensures
            r.x == self.x,
            r.y == self.y,
            r.z == self.z + z,
    {
        BlockPos { x: self.x, y: self.y, z: self.z + z }
    }

    /// This position with the x coordinate decreased by `x`.
    pub fn west(&self, x: i32) -> (r: BlockPos)
        requires
            i32::MIN <= self.x - x <= i32::MAX,
        ensures
            r.x == self.x - x,
            r.y == self.y,
            r.z == self.z,
    {
        BlockPos { x: self.x - x, y: self.y, z: self.z }
    }

    /// This position with the x coordinate increased by `x`.
    pub fn east(&self, x: i32) -> (r: BlockPos)
        requires
            i32::MIN <= self.x + x <= i32::MAX,
        ensures
            r.x == self.x + x,
            r.y == self.y,
            r.z == self.z,
    {
        BlockPos { x: self.x + x, y: self.y, z: self.z }
    }

    /// The cell `n` below this one, or `None` where that would leave the
    /// coordinate space.
    pub fn checked_down(&self, n: u8) -> (r: Option<BlockPos>)
        ensures
            r == self.below(n as int),
    {
        if self.y >= i32::MIN + (n as i32) {
            Some(self.down(n as i32))
        } else {
            None
        }
    }

    /// The Manhattan distance to `other`, capped at `i32::MAX`.
    pub fn capped_distance(&self, other: BlockPos) -> (r: i32)
        ensures
            r == self.reach(other),
    {
        let dx: i64 = if self.x >= other.x {
            self.x as i64 - other.x as i64
        } else {
            other.x as i64 - self.x as i64
        };
        let dy: i64 = if self.y >= other.y {
            self.y as i64 - other.y as i64
        } else {
            other.y as i64 - self.y as i64
        };
        let dz: i64 = if self.z >= other.z {
            self.z as i64 - other.z as i64
        } else {
            other.z as i64 - self.z as i64
        };
        let sum: i64 = dx + dy + dz;
        if sum <= 0x7fff_ffff {
            sum as i32
        } else {
            i32::MAX
        }
    }

    #[verifier::when_used_as_spec(spec_in_range)]
    pub fn in_range(&self) -> (r: bool)
        ensures
            r == self.spec_in_range(),
    {
        -COORDINATE_LIMIT <= self.x && self.x < COORDINATE_LIMIT && -COORDINATE_LIMIT <= self.y
            && self.y < COORDINATE_LIMIT && -COORDINATE_LIMIT <= self.z && self.z
            < COORDINATE_LIMIT
    }

    #[verifier::when_used_as_spec(spec_key)]
    pub fn key(&self) -> (r: u128)
        ensures
            r == self.spec_key(),
    {
        let x: u128 = (self.x as i64 + 0x8000_0000) as u128;
        let y: u128 = (self.y as i64 + 0x8000_0000) as u128;
        let z: u128 = (self.z as i64 + 0x8000_0000) as u128;
        x * 0x1_0000_0000_0000_0000 + y * 0x1_0000_0000 + z
    }
}

/// The cell next to `pos` on the side that `facing` names, or `None` where
/// the coordinate space ends there.
pub fn adjacent_position(pos: BlockPos, facing: FacingCardinal) -> (r: Option<BlockPos>)
    ensures
        r == pos.neighbour(facing),
{
    match facing {
        FacingCardinal::North => if pos.z > i32::MIN {
            Some(pos.north(1))
        } else {
            None
        },
        FacingCardinal::South => if pos.z < i32::MAX {
            Some(pos.south(1))
        } else {
            None
        },
        FacingCardinal::West => if pos.x > i32::MIN {
            Some(pos.west(1))
        } else {
            None
        },
        FacingCardinal::East => if pos.x < i32::MAX {
            Some(pos.east(1))
        } else {
            None
        },
    }
}

/// Two cells with one key are one cell.
pub proof fn lemma_key_injective(a: BlockPos, b: BlockPos)
    requires
        a.spec_key() == b.spec_key(),
    ensures
        a == b,
{
    let high: int = 0x1_0000_0000_0000_0000;
    let mid: int = 0x1_0000_0000;
    let (ax, ay, az) = (a.x - i32::MIN, a.y - i32::MIN, a.z - i32::MIN);
    let (bx, by, bz) = (b.x - i32::MIN, b.y - i32::MIN, b.z - i32::MIN);
    let a_low = ay * mid + az;
    let b_low = by * mid + bz;
    assert(0 <= a_low < high && 0 <= b_low < high);
    assert(0 <= ax * high + a_low < 0x1_0000_0000_0000_0000_0000_0000);
    assert(0 <= bx * high + b_low < 0x1_0000_0000_0000_0000_0000_0000);
    assert(ax * high + a_low == bx * high + b_low);
    if ax < bx {
        assert((bx - ax) * high >= high);
    }
    if bx < ax {
        assert((ax - bx) * high >= high);
    }
    assert(ax == bx);
    assert(a_low == b_low);
    if ay < by {
        assert((by - ay) * mid >= mid);
    }
    if by < ay {
        assert((ay - by) * mid >= mid);
    }
    assert(ay == by);
}

/// The cells whose keys the set holds.
pub open spec fn cells_of(keys: Set<u128>) -> Set<BlockPos> {
    Set::new(|pos: BlockPos| keys.contains(pos.spec_key()))
}

/// The map from cells that a map from their keys stands for.
pub open spec fn by_cell<V>(filed: Map<u128, V>) -> Map<BlockPos, V> {
    Map::new(
        |pos: BlockPos| filed.contains_key(pos.spec_key()),
        |pos: BlockPos| filed[pos.spec_key()],
    )
}

/// To put in or take out the key of a cell is to put in or take out the
/// cell.
pub proof fn lemma_cells_follow_keys(keys: Set<u128>, pos: BlockPos)
    ensures
        cells_of(keys.insert(pos.spec_key())) == cells_of(keys).insert(pos),
        cells_of(keys.remove(pos.spec_key())) == cells_of(keys).remove(pos),
{
    assert forall|other: BlockPos| other.spec_key() == pos.spec_key() implies other == pos by {
        lemma_key_injective(other, pos);
    }
    assert(cells_of(keys.insert(pos.spec_key())) =~= cells_of(keys).insert(pos));
    assert(cells_of(keys.remove(pos.spec_key())) =~= cells_of(keys).remove(pos));
}

/// To file or drop a value under the key of a cell is to file or drop it
/// under the cell.
pub proof fn lemma_by_cell_follows_keys<V>(filed: Map<u128, V>, pos: BlockPos, value: V)
    ensures
        by_cell(filed.insert(pos.spec_key(), value)) == by_cell(filed).insert(pos, value),
        by_cell(filed.remove(pos.spec_key())) == by_cell(filed).remove(pos),
{
    assert forall|other: BlockPos| other.spec_key() == pos.spec_key() implies other == pos by {
        lemma_key_injective(other, pos);
    }
    assert(by_cell(filed.insert(pos.spec_key(), value)) =~= by_cell(filed).insert(pos, value));
    assert(by_cell(filed.remove(pos.spec_key())) =~= by_cell(filed).remove(pos));
}

} // verus!
