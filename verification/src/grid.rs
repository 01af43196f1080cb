//! The layout of a chunk: a flat square grid of blocks.
//!
//! A chunk of side `n` has one block on each cell `(x, z)` with `x` and `z`
//! below `n`. The host places the block of a cell at `x` and `z` times the
//! block size along the two horizontal axes, at height zero, and draws it
//! as a cube whose edge is the block size less `grid_gap()`, so that
//! neighbours show a seam between them.

use vstd::prelude::*;
use vstd::arithmetic::div_mod::lemma_fundamental_div_mod_converse;
use crate::entity::MaterialId;
use crate::materials::BlockMaterials;
use crate::scalar::Scalar;

verus! {

/// The bits of 0.02, the width of the seam between neighbouring blocks.
pub const GRID_GAP_BITS: u32 = 0x3CA3_D70A;

/// The width of the seam between neighbouring blocks: 0.02.
pub fn grid_gap() -> (s: Scalar)
    ensures
        s.bits == GRID_GAP_BITS,
{
    Scalar { bits: GRID_GAP_BITS }
}

/// A block to create: the cell it stands on, the material it starts in,
/// and whether it is shown.
#[derive(Clone, Copy, Debug, PartialEq, Eq, Structural)]
pub struct Placement {
    pub x: u32,
    pub z: u32,
    pub material: MaterialId,
    pub visible: bool,
}

/// The blocks of a chunk of side `chunk_size`, row by row: all cells of
/// `z == 0` by rising `x`, then those of `z == 1`, and so on. Every block
/// is shown.
pub open spec fn chunk_layout(chunk_size: nat, material: MaterialId) -> Seq<Placement> {
    Seq::new(
        chunk_size * chunk_size,
        |i: int|
            Placement {
                x: (i % chunk_size as int) as u32,
                z: (i / chunk_size as int) as u32,
                material,
                visible: true,
            },
    )
}

/// A chunk has exactly one block on each cell of its grid: the block of
/// cell `(x, z)` is the one at `z * chunk_size + x` in the layout.
pub proof fn lemma_chunk_has_each_cell(chunk_size: nat, material: MaterialId, x: nat, z: nat)
    requires
        chunk_size <= u32::MAX,
        x < chunk_size,
        z < chunk_size,
    ensures
        chunk_layout(chunk_size, material).len() == chunk_size * chunk_size,
        z * chunk_size + x < chunk_size * chunk_size,
        chunk_layout(chunk_size, material)[(z * chunk_size + x) as int] == (Placement {
            x: x as u32,
            z: z as u32,
            material,
            visible: true,
        }),
{
    let n = chunk_size as int;
    assert(z * n + x < n * n) by (nonlinear_arith)
        requires
            0 <= x < n,
            0 <= z < n,
    ;
    lemma_fundamental_div_mod_converse(z * n + x, n, z as int, x as int);
}

/// Every block of a chunk stands on a cell of its grid, and no two stand
/// on the same cell.
pub proof fn lemma_chunk_cells_are_distinct(chunk_size: nat, material: MaterialId, i: int, j: int)
    requires
        chunk_size <= u32::MAX,
        0 <= i < chunk_size * chunk_size,
        0 <= j < chunk_size * chunk_size,
    ensures
        chunk_layout(chunk_size, material)[i].x < chunk_size,
        chunk_layout(chunk_size, material)[i].z < chunk_size,
        i != j ==> chunk_layout(chunk_size, material)[i].x != chunk_layout(chunk_size, material)[j].x
            || chunk_layout(chunk_size, material)[i].z != chunk_layout(chunk_size, material)[j].z,
{
    let n = chunk_size as int;
    lemma_cell_of_index(n, i);
    lemma_cell_of_index(n, j);
}

/// An index below `n * n` splits into a column and a row below `n`.
proof fn lemma_cell_of_index(n: int, i: int)
    requires
        0 <= n,
        0 <= i < n * n,
    ensures
        0 <= i % n < n,
        0 <= i / n < n,
        i == (i / n) * n + i % n,
{
    assert(0 <= i % n < n && 0 <= i / n < n && i == (i / n) * n + i % n) by (nonlinear_arith)
        requires
            0 <= n,
            0 <= i < n * n,
    ;
}

/// Lays out a chunk of side `chunk_size`: one block for each cell of the
/// grid, row by row, each shown and in the normal material.
pub fn generate_chunk(materials: &BlockMaterials, chunk_size: u32) -> (blocks: Vec<Placement>)
    requires
        chunk_size * chunk_size <= usize::MAX,
    ensures
        blocks@ == chunk_layout(chunk_size as nat, materials.normal),
        blocks@.len() == chunk_size * chunk_size,
{
    let mut blocks: Vec<Placement> = Vec::new();
    let ghost n = chunk_size as int;
    let ghost layout = chunk_layout(chunk_size as nat, materials.normal);
    let mut z: u32 = 0;
    while z < chunk_size
        invariant
            n == chunk_size,
            layout == chunk_layout(chunk_size as nat, materials.normal),
            z <= chunk_size,
            blocks@.len() == z * n,
            forall|k: int| 0 <= k < blocks@.len() ==> blocks@[k] == layout[k],
        decreases chunk_size - z,
    {
        let mut x: u32 = 0;
        while x < chunk_size
            invariant
                n == chunk_size,
                layout == chunk_layout(chunk_size as nat, materials.normal),
                z < chunk_size,
                x <= chunk_size,
                blocks@.len() == z * n + x,
                forall|k: int| 0 <= k < blocks@.len() ==> blocks@[k] == layout[k],
            decreases chunk_size - x,
        {
            proof {
                lemma_chunk_has_each_cell(chunk_size as nat, materials.normal, x as nat, z as nat);
            }
            blocks.push(Placement { x, z, material: materials.normal, visible: true });
            x = x + 1;
        }
        assert(z * n + n == (z + 1) * n) by (nonlinear_arith);
        z = z + 1;
    }
    assert(blocks@ =~= layout);
    blocks
}

} // verus!
