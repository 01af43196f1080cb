//! The two materials a block is drawn with.

use vstd::prelude::*;
use crate::entity::MaterialId;

verus! {

/// A colour as three 8-bit sRGB channels.
#[derive(Clone, Copy, Debug, PartialEq, Eq, Structural)]
pub struct Tint {
    pub red: u8,
    pub green: u8,
    pub blue: u8,
}

/// The materials shared by every block: the one a block is drawn with, and
/// the one that shows that the block is the pick. They are made once, when
/// the host starts, and never change afterwards.
#[derive(Clone, Copy, Debug, PartialEq, Eq, Structural)]
pub struct BlockMaterials {
    pub normal: MaterialId,
    pub highlighted: MaterialId,
}

/// The colour of a block that is not the pick: a light blue.
pub fn normal_tint() -> (tint: Tint)
    ensures
        tint == (Tint { red: 124, green: 144, blue: 255 }),
{
    Tint { red: 124, green: 144, blue: 255 }
}

/// The colour of the pick: white.
pub fn highlight_tint() -> (tint: Tint)
    ensures
        tint == (Tint { red: 255, green: 255, blue: 255 }),
{
    Tint { red: 255, green: 255, blue: 255 }
}

/// Pairs the materials that the host stored for `normal_tint()` and for
/// `highlight_tint()`, in that order.
pub fn setup_block_materials(
    normal: MaterialId,
    highlighted: MaterialId,
) -> (materials: BlockMaterials)
    ensures
        materials.normal == normal,
        materials.highlighted == highlighted,
{
    BlockMaterials { normal, highlighted }
}

} // verus!
