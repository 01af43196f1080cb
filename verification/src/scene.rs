//! The blocks of a scene, the highlight marks on them, and the changes that
//! clear the marks and set one.
//!
//! The scene is a copy of what the host's world holds. Every step changes
//! the copy and says, change by change, what the host has to do to its
//! world to follow.

use vstd::prelude::*;
use crate::entity::{EntityId, MaterialId};
use crate::materials::BlockMaterials;

verus! {

/// A block of the grid: an entity and the material it is drawn with.
#[derive(Clone, Copy, Debug, PartialEq, Eq, Structural)]
pub struct Block {
    pub entity: EntityId,
    pub material: MaterialId,
}

/// The mark of the highlighted block, on the entity that carries it.
#[derive(Clone, Copy, Debug, PartialEq, Eq, Structural)]
pub struct BlockHighlight {
    pub entity: EntityId,
}

/// The blocks that are alive and the marks that are set, each in the order
/// in which the host lists them. A mark may sit on an entity that is not,
/// or is no longer, a block.
#[derive(Clone, Debug, PartialEq, Eq)]
pub struct Scene {
    pub blocks: Vec<Block>,
    pub highlights: Vec<BlockHighlight>,
}

/// A scene as mathematics: the blocks in their order, and the set of the
/// entities that carry a mark.
#[verifier::ext_equal]
pub struct SceneState {
    pub blocks: Seq<Block>,
    pub marked: Set<EntityId>,
}

/// One thing for the host to do to its world.
#[derive(Clone, Copy, Debug, PartialEq, Eq, Structural)]
pub enum Change {
    /// Draw the block of this entity with this material.
    Paint { entity: EntityId, material: MaterialId },
    /// Take the mark off this entity.
    Unmark { entity: EntityId },
    /// Put the mark on this entity.
    Mark { entity: EntityId },
}

/// The entities that the marks sit on.
pub open spec fn marked_entities(marks: Seq<BlockHighlight>) -> Set<EntityId> {
    Set::new(|entity: EntityId| marks.contains(BlockHighlight { entity }))
}

/// The entity is one of the blocks.
pub open spec fn is_block(blocks: Seq<Block>, entity: EntityId) -> bool {
    exists|i: int| 0 <= i < blocks.len() && (#[trigger] blocks[i]).entity == entity
}

/// The blocks with every block of one of the `entities` in `material`.
pub open spec fn repainted(
    blocks: Seq<Block>,
    entities: Set<EntityId>,
    material: MaterialId,
) -> Seq<Block> {
    Seq::new(
        blocks.len(),
        |i: int|
            if entities.contains(blocks[i].entity) {
                Block { entity: blocks[i].entity, material }
            } else {
                blocks[i]
            },
    )
}

impl View for Scene {
    type V = SceneState;

    open spec fn view(&self) -> SceneState {
        SceneState { blocks: self.blocks@, marked: marked_entities(self.highlights@) }
    }
}

impl SceneState {
    /// The scene after the host has made one change.
    pub open spec fn changed(self, change: Change) -> SceneState {
        match change {
            Change::Paint { entity, material } => SceneState {
                blocks: repainted(self.blocks, set![entity], material),
                marked: self.marked,
            },
            Change::Unmark { entity } => SceneState {
                blocks: self.blocks,
                marked: self.marked.remove(entity),
            },
            Change::Mark { entity } => SceneState {
                blocks: self.blocks,
                marked: self.marked.insert(entity),
            },
        }
    }

    /// The scene after the host has made the changes, one after the other.
    pub open spec fn changed_by(self, changes: Seq<Change>) -> SceneState
        decreases changes.len(),
    {
        if changes.len() == 0 {
            self
        } else {
            self.changed_by(changes.drop_last()).changed(changes.last())
        }
    }

    /// The scene with every mark removed and every marked block back in the
    /// normal material.
    pub open spec fn cleared(self, materials: BlockMaterials) -> SceneState {
        SceneState {
            blocks: repainted(self.blocks, self.marked, materials.normal),
            marked: Set::empty(),
        }
    }

    /// The scene with a mark on `entity` too, and with the block of that
    /// entity, if it is one, in the highlighted material.
    pub open spec fn highlighting(self, materials: BlockMaterials, entity: EntityId) -> SceneState {
        SceneState {
            blocks: repainted(self.blocks, set![entity], materials.highlighted),
            marked: self.marked.insert(entity),
        }
    }
}

/// What taking one mark away asks of the host: if the marked entity is a
/// block, to draw it in the normal material again; in any case to take the
/// mark off.
pub open spec fn mark_removal(
    blocks: Seq<Block>,
    entity: EntityId,
    materials: BlockMaterials,
) -> Seq<Change> {
    if is_block(blocks, entity) {
        seq![Change::Paint { entity, material: materials.normal }, Change::Unmark { entity }]
    } else {
        seq![Change::Unmark { entity }]
    }
}

/// What clearing asks of the host: the removal of each mark, in the order
/// of the marks.
pub open spec fn clearing_changes(
    blocks: Seq<Block>,
    marks: Seq<BlockHighlight>,
    materials: BlockMaterials,
) -> Seq<Change>
    decreases marks.len(),
{
    if marks.len() == 0 {
        Seq::empty()
    } else {
        clearing_changes(blocks, marks.drop_last(), materials) + mark_removal(
            blocks,
            marks.last().entity,
            materials,
        )
    }
}

/// What highlighting an entity asks of the host: if the entity is a block,
/// to draw it in the highlighted material; in any case to put the mark on.
pub open spec fn highlighting_changes(
    blocks: Seq<Block>,
    entity: EntityId,
    materials: BlockMaterials,
) -> Seq<Change> {
    if is_block(blocks, entity) {
        seq![Change::Paint { entity, material: materials.highlighted }, Change::Mark { entity }]
    } else {
        seq![Change::Mark { entity }]
    }
}

/// Making one more change is making the others first.
pub proof fn lemma_changed_by_one_more(scene: SceneState, changes: Seq<Change>, change: Change)
    ensures
        scene.changed_by(changes.push(change)) == scene.changed_by(changes).changed(change),
{
    assert(changes.push(change).drop_last() =~= changes);
}

/// Making two runs of changes is making the first, then the second.
pub proof fn lemma_changed_by_both(scene: SceneState, first: Seq<Change>, second: Seq<Change>)
    ensures
        scene.changed_by(first + second) == scene.changed_by(first).changed_by(second),
    decreases second.len(),
{
    if second.len() == 0 {
        assert(first + second =~= first);
    } else {
        lemma_changed_by_both(scene, first, second.drop_last());
        assert((first + second).drop_last() =~= first + second.drop_last());
        assert((first + second).last() == second.last());
    }
}

/// One more mark marks one more entity.
proof fn lemma_marked_entities_with_one_more(marks: Seq<BlockHighlight>, mark: BlockHighlight)
    ensures
        marked_entities(marks.push(mark)) == marked_entities(marks).insert(mark.entity),
{
    let more = marks.push(mark);
    assert forall|entity: EntityId|
        marked_entities(more).contains(entity) <==> marked_entities(marks).insert(
            mark.entity,
        ).contains(entity) by {
        let wanted = BlockHighlight { entity };
        if marks.contains(wanted) {
            let k = choose|k: int| 0 <= k < marks.len() && marks[k] == wanted;
            assert(more[k] == wanted);
        }
        if entity == mark.entity {
            assert(more[marks.len() as int] == wanted);
        }
        if more.contains(wanted) {
            let k = choose|k: int| 0 <= k < more.len() && more[k] == wanted;
            if k < marks.len() {
                assert(marks[k] == wanted);
            }
        }
    }
    assert(marked_entities(more) =~= marked_entities(marks).insert(mark.entity));
}

/// The changes of one mark's removal do what they say.
proof fn lemma_mark_removal_unmarks(scene: SceneState, entity: EntityId, materials: BlockMaterials)
    ensures
        scene.changed_by(mark_removal(scene.blocks, entity, materials)) == (SceneState {
            blocks: repainted(scene.blocks, set![entity], materials.normal),
            marked: scene.marked.remove(entity),
        }),
{
    let paint = Change::Paint { entity, material: materials.normal };
    let unmark = Change::Unmark { entity };
    let none = Seq::<Change>::empty();
    if is_block(scene.blocks, entity) {
        assert(mark_removal(scene.blocks, entity, materials) =~= none.push(paint).push(unmark));
        lemma_changed_by_one_more(scene, none.push(paint), unmark);
        lemma_changed_by_one_more(scene, none, paint);
    } else {
        assert(mark_removal(scene.blocks, entity, materials) =~= none.push(unmark));
        lemma_changed_by_one_more(scene, none, unmark);
        assert(repainted(scene.blocks, set![entity], materials.normal) =~= scene.blocks);
    }
}

/// The changes of highlighting do what they say.
pub proof fn lemma_highlighting_changes_highlight(
    scene: SceneState,
    entity: EntityId,
    materials: BlockMaterials,
)
    ensures
        scene.changed_by(highlighting_changes(scene.blocks, entity, materials))
            == scene.highlighting(materials, entity),
{
    let paint = Change::Paint { entity, material: materials.highlighted };
    let mark = Change::Mark { entity };
    let none = Seq::<Change>::empty();
    if is_block(scene.blocks, entity) {
        assert(highlighting_changes(scene.blocks, entity, materials) =~= none.push(paint).push(
            mark,
        ));
        lemma_changed_by_one_more(scene, none.push(paint), mark);
        lemma_changed_by_one_more(scene, none, paint);
    } else {
        assert(highlighting_changes(scene.blocks, entity, materials) =~= none.push(mark));
        lemma_changed_by_one_more(scene, none, mark);
        assert(repainted(scene.blocks, set![entity], materials.highlighted) =~= scene.blocks);
    }
}

/// Repainting keeps every block's entity, so the same entities are blocks.
pub proof fn lemma_repainted_keeps_entities(
    blocks: Seq<Block>,
    entities: Set<EntityId>,
    material: MaterialId,
    entity: EntityId,
)
    ensures
        is_block(repainted(blocks, entities, material), entity) == is_block(blocks, entity),
{
    let after = repainted(blocks, entities, material);
    if is_block(blocks, entity) {
        let i = choose|i: int| 0 <= i < blocks.len() && (#[trigger] blocks[i]).entity == entity;
        assert(after[i].entity == entity);
    }
    if is_block(after, entity) {
        let i = choose|i: int| 0 <= i < after.len() && (#[trigger] after[i]).entity == entity;
        assert(blocks[i].entity == entity);
    }
}

/// Removing the marks one by one takes each of their entities out of the
/// marked set and puts each of their blocks in the normal material.
pub proof fn lemma_clearing_changes_unmark(
    scene: SceneState,
    marks: Seq<BlockHighlight>,
    materials: BlockMaterials,
)
    ensures
        scene.changed_by(clearing_changes(scene.blocks, marks, materials)) == (SceneState {
            blocks: repainted(scene.blocks, marked_entities(marks), materials.normal),
            marked: scene.marked.difference(marked_entities(marks)),
        }),
    decreases marks.len(),
{
    let normal = materials.normal;
    if marks.len() == 0 {
        assert(marked_entities(marks) =~= Set::empty());
        assert(repainted(scene.blocks, marked_entities(marks), normal) =~= scene.blocks);
        assert(scene.marked.difference(marked_entities(marks)) =~= scene.marked);
    } else {
        let earlier = marks.drop_last();
        let entity = marks.last().entity;
        lemma_clearing_changes_unmark(scene, earlier, materials);
        let midway = scene.changed_by(clearing_changes(scene.blocks, earlier, materials));
        lemma_changed_by_both(
            scene,
            clearing_changes(scene.blocks, earlier, materials),
            mark_removal(scene.blocks, entity, materials),
        );
        assert(mark_removal(scene.blocks, entity, materials) == mark_removal(
            midway.blocks,
            entity,
            materials,
        )) by {
            lemma_repainted_keeps_entities(scene.blocks, marked_entities(earlier), normal, entity);
        }
        lemma_mark_removal_unmarks(midway, entity, materials);
        assert(marks =~= earlier.push(marks.last()));
        lemma_marked_entities_with_one_more(earlier, marks.last());
        assert(repainted(midway.blocks, set![entity], normal) =~= repainted(
            scene.blocks,
            marked_entities(marks),
            normal,
        ));
        assert(midway.marked.remove(entity) =~= scene.marked.difference(marked_entities(marks)));
    }
}

/// Puts every block of `entity` in `material`, and tells whether there was
/// one.
pub fn paint_block(blocks: &mut Vec<Block>, entity: EntityId, material: MaterialId) -> (found: bool)
    ensures
        final(blocks)@ == repainted(old(blocks)@, set![entity], material),
        found == is_block(old(blocks)@, entity),
{
    let ghost before = blocks@;
    let mut found = false;
    let mut index: usize = 0;
    while index < blocks.len()
        invariant
            index <= blocks@.len(),
            blocks@.len() == before.len(),
            forall|i: int|
                0 <= i < index ==> blocks@[i] == repainted(before, set![entity], material)[i],
            forall|i: int| index <= i < blocks@.len() ==> blocks@[i] == before[i],
            found == exists|i: int| 0 <= i < index && (#[trigger] before[i]).entity == entity,
        decreases blocks@.len() - index,
    {
        if blocks[index].entity == entity {
            blocks.set(index, Block { entity, material });
            found = true;
            assert(before[index as int].entity == entity);
        }
        index = index + 1;
    }
    assert(blocks@ =~= repainted(before, set![entity], material));
    found
}

/// Removes every mark, and puts every block that carried one back in the
/// normal material. Returns what that asks of the host.
pub fn clear_highlights(scene: &mut Scene, materials: &BlockMaterials) -> (changes: Vec<Change>)
    ensures
        final(scene)@ == old(scene)@.cleared(*materials),
        final(scene).highlights@.len() == 0,
        changes@ == clearing_changes(old(scene).blocks@, old(scene).highlights@, *materials),
{
    let ghost before = scene.blocks@;
    let ghost marks = scene.highlights@;
    let mut changes: Vec<Change> = Vec::new();
    let mut done: usize = 0;
    assert(marks.take(0) =~= Seq::empty());
    assert(marked_entities(marks.take(0)) =~= Set::empty());
    assert(scene.blocks@ =~= repainted(before, marked_entities(marks.take(0)), materials.normal));
    while done < scene.highlights.len()
        invariant
            done <= marks.len(),
            scene.highlights@ == marks,
            scene.blocks@ == repainted(
                before,
                marked_entities(marks.take(done as int)),
                materials.normal,
            ),
            changes@ == clearing_changes(before, marks.take(done as int), *materials),
        decreases marks.len() - done,
    {
        let entity = scene.highlights[done].entity;
        proof {
            let earlier = marks.take(done as int);
            let now = marks.take(done + 1);
            assert(now.drop_last() =~= earlier);
            assert(now.last() == marks[done as int]);
            assert(now =~= earlier.push(marks[done as int]));
            lemma_marked_entities_with_one_more(earlier, marks[done as int]);
            lemma_repainted_keeps_entities(
                before,
                marked_entities(earlier),
                materials.normal,
                entity,
            );
            assert(repainted(scene.blocks@, set![entity], materials.normal) =~= repainted(
                before,
                marked_entities(now),
                materials.normal,
            ));
        }
        let found = paint_block(&mut scene.blocks, entity, materials.normal);
        if found {
            changes.push(Change::Paint { entity, material: materials.normal });
        }
        changes.push(Change::Unmark { entity });
        done = done + 1;
        assert(changes@ =~= clearing_changes(before, marks.take(done as int), *materials));
    }
    scene.highlights.clear();
    assert(marks.take(marks.len() as int) =~= marks);
    assert(marked_entities(scene.highlights@) =~= Set::empty());
    changes
}

/// Marks `entity`, and puts its block, if it is one, in the highlighted
/// material. Returns what that asks of the host.
pub fn apply_highlight(
    scene: &mut Scene,
    materials: &BlockMaterials,
    entity: EntityId,
) -> (changes: Vec<Change>)
    ensures
        final(scene)@ == old(scene)@.highlighting(*materials, entity),
        final(scene).highlights@ == old(scene).highlights@.push(BlockHighlight { entity }),
        changes@ == highlighting_changes(old(scene).blocks@, entity, *materials),
{
    let mut changes: Vec<Change> = Vec::new();
    let found = paint_block(&mut scene.blocks, entity, materials.highlighted);
    if found {
        changes.push(Change::Paint { entity, material: materials.highlighted });
    }
    changes.push(Change::Mark { entity });
    proof {
        lemma_marked_entities_with_one_more(scene.highlights@, BlockHighlight { entity });
    }
    scene.highlights.push(BlockHighlight { entity });
    assert(changes@ =~= highlighting_changes(old(scene).blocks@, entity, *materials));
    changes
}

} // verus!
