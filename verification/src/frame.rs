//! The step that moves the highlight to the block under the pick ray, once
//! per frame.

use vstd::prelude::*;
use crate::entity::EntityId;
use crate::materials::BlockMaterials;
use crate::pick::{picked, pick_block, Candidate};
use crate::scene::{
    apply_highlight, clear_highlights, clearing_changes, highlighting_changes,
    lemma_changed_by_both, lemma_clearing_changes_unmark, lemma_highlighting_changes_highlight,
    lemma_repainted_keeps_entities, marked_entities, BlockHighlight, Block, Change, Scene,
    SceneState,
};

verus! {

/// What the host found when it looked for the pick ray in one frame.
#[derive(Clone, Debug)]
pub struct FrameView {
    /// How many active 3D cameras there are.
    pub cameras: usize,
    /// How many windows there are.
    pub windows: usize,
    /// The blocks as the ray through the centre of the window sees them, or
    /// `None` where the camera could not give that ray. Read only when
    /// there is one camera and one window.
    pub cast: Option<Vec<Candidate>>,
}

impl FrameView {
    /// There is exactly one camera and exactly one window, and the camera
    /// gave a ray.
    pub open spec fn has_ray(self) -> bool {
        self.cameras == 1 && self.windows == 1 && self.cast is Some
    }

    /// The entity to highlight in this frame: the pick of the ray, where
    /// there is a ray and it has a pick.
    pub open spec fn target(self) -> Option<EntityId> {
        if self.has_ray() {
            picked(self.cast->0@)
        } else {
            None
        }
    }

    /// The entity to highlight in this frame, if any.
    pub fn find_target(&self) -> (target: Option<EntityId>)
        ensures
            target == self.target(),
    {
        if self.cameras != 1 || self.windows != 1 {
            return None;
        }
        match &self.cast {
            Some(candidates) => pick_block(candidates),
            None => None,
        }
    }
}

impl SceneState {
    /// The scene after one frame: cleared, then highlighting the frame's
    /// target if it has one.
    pub open spec fn after_frame(self, materials: BlockMaterials, view: FrameView) -> SceneState {
        match view.target() {
            Some(entity) => self.cleared(materials).highlighting(materials, entity),
            None => self.cleared(materials),
        }
    }
}

/// What a frame asks of the host: to clear, then to highlight the frame's
/// target if it has one.
pub open spec fn frame_changes(
    blocks: Seq<Block>,
    marks: Seq<BlockHighlight>,
    materials: BlockMaterials,
    view: FrameView,
) -> Seq<Change> {
    clearing_changes(blocks, marks, materials) + match view.target() {
        Some(entity) => highlighting_changes(blocks, entity, materials),
        None => Seq::empty(),
    }
}

/// The changes that a frame asks for lead the host's world to the scene
/// that the frame leaves.
pub proof fn lemma_frame_changes_lead_to_the_frame(
    scene: SceneState,
    marks: Seq<BlockHighlight>,
    materials: BlockMaterials,
    view: FrameView,
)
    requires
        scene.marked == marked_entities(marks),
    ensures
        scene.changed_by(frame_changes(scene.blocks, marks, materials, view)) == scene.after_frame(
            materials,
            view,
        ),
{
    let clearing = clearing_changes(scene.blocks, marks, materials);
    lemma_clearing_changes_unmark(scene, marks, materials);
    let cleared = scene.changed_by(clearing);
    assert(cleared.marked =~= Set::empty());
    assert(cleared == scene.cleared(materials));
    match view.target() {
        Some(entity) => {
            lemma_changed_by_both(
                scene,
                clearing,
                highlighting_changes(scene.blocks, entity, materials),
            );
            assert(highlighting_changes(scene.blocks, entity, materials) == highlighting_changes(
                cleared.blocks,
                entity,
                materials,
            )) by {
                lemma_repainted_keeps_entities(
                    scene.blocks,
                    scene.marked,
                    materials.normal,
                    entity,
                );
            }
            lemma_highlighting_changes_highlight(cleared, entity, materials);
        },
        None => {
            assert(clearing + Seq::<Change>::empty() =~= clearing);
        },
    }
}

/// A frame leaves at most one entity marked: none where it has no target,
/// and otherwise its target alone, whatever marks the scene held before.
pub proof fn lemma_frame_leaves_one_mark_at_most(
    scene: SceneState,
    materials: BlockMaterials,
    view: FrameView,
)
    ensures
        scene.after_frame(materials, view).marked.finite(),
        scene.after_frame(materials, view).marked.len() <= 1,
        scene.after_frame(materials, view).marked == match view.target() {
            Some(entity) => set![entity],
            None => Set::empty(),
        },
{
    match view.target() {
        Some(entity) => {
            assert(scene.after_frame(materials, view).marked =~= set![entity]);
        },
        None => {},
    }
}

/// A frame never adds, removes or reorders blocks, and changes the entity
/// of none.
pub proof fn lemma_frame_keeps_the_blocks(
    scene: SceneState,
    materials: BlockMaterials,
    view: FrameView,
)
    ensures
        scene.after_frame(materials, view).blocks.len() == scene.blocks.len(),
        forall|i: int|
            0 <= i < scene.blocks.len() ==> (#[trigger] scene.after_frame(
                materials,
                view,
            ).blocks[i]).entity == scene.blocks[i].entity,
{
}

/// Running a frame a second time on what the host found the first time
/// changes nothing: the same block is highlighted, or none is, and no mark
/// piles up.
pub proof fn lemma_frame_is_idempotent(
    scene: SceneState,
    materials: BlockMaterials,
    view: FrameView,
)
    ensures
        scene.after_frame(materials, view).after_frame(materials, view) == scene.after_frame(
            materials,
            view,
        ),
{
    let once = scene.after_frame(materials, view);
    let twice = once.after_frame(materials, view);
    lemma_frame_leaves_one_mark_at_most(scene, materials, view);
    lemma_frame_leaves_one_mark_at_most(once, materials, view);
    assert(twice.blocks =~= once.blocks);
    assert(twice.marked =~= once.marked);
}

/// Without exactly one camera a frame only clears: it asks the host for
/// nothing but the removal of the marks, no entity is left marked, and
/// every block that carried no mark, or was in the normal material
/// already, is as it was.
pub proof fn lemma_frame_without_camera_only_clears(
    scene: SceneState,
    marks: Seq<BlockHighlight>,
    materials: BlockMaterials,
    view: FrameView,
)
    requires
        view.cameras != 1,
    ensures
        frame_changes(scene.blocks, marks, materials, view) == clearing_changes(
            scene.blocks,
            marks,
            materials,
        ),
        scene.after_frame(materials, view) == scene.cleared(materials),
        scene.after_frame(materials, view).marked == Set::<EntityId>::empty(),
        forall|i: int|
            0 <= i < scene.blocks.len() && (!scene.marked.contains(scene.blocks[i].entity)
                || scene.blocks[i].material == materials.normal) ==> (#[trigger] scene.after_frame(
                materials,
                view,
            ).blocks[i]) == scene.blocks[i],
{
}

/// With no camera, and no marked block in another material than the
/// normal one, a frame leaves every material as it was and removes every
/// mark.
pub proof fn lemma_frame_without_camera_keeps_materials(
    scene: SceneState,
    materials: BlockMaterials,
    view: FrameView,
)
    requires
        view.cameras == 0,
        forall|i: int|
            0 <= i < scene.blocks.len() && scene.marked.contains((#[trigger] scene.blocks[i]).entity)
                ==> scene.blocks[i].material == materials.normal,
    ensures
        scene.after_frame(materials, view).blocks == scene.blocks,
        scene.after_frame(materials, view).marked == Set::<EntityId>::empty(),
{
    assert(scene.after_frame(materials, view).blocks =~= scene.blocks);
}

/// Runs one frame of highlighting, and returns what it asks of the host.
///
/// First every mark is removed and every marked block goes back to the
/// normal material. Then, if there is exactly one camera, exactly one
/// window, and the camera gave a ray, the block that the ray picks is
/// marked and put in the highlighted material. In every other case the
/// frame ends with the scene cleared: a missing camera is no error.
pub fn highlight_hovered_block(
    scene: &mut Scene,
    materials: &BlockMaterials,
    view: &FrameView,
) -> (changes: Vec<Change>)
    ensures
        final(scene)@ == old(scene)@.after_frame(*materials, *view),
        final(scene).highlights@ == match view.target() {
            Some(entity) => seq![BlockHighlight { entity }],
            None => Seq::empty(),
        },
        final(scene).highlights@.len() <= 1,
        changes@ == frame_changes(old(scene).blocks@, old(scene).highlights@, *materials, *view),
{
    let mut changes = clear_highlights(scene, materials);
    match view.find_target() {
        Some(entity) => {
            let mut more = apply_highlight(scene, materials, entity);
            proof {
                lemma_repainted_keeps_entities(
                    old(scene).blocks@,
                    old(scene)@.marked,
                    materials.normal,
                    entity,
                );
            }
            changes.append(&mut more);
            assert(scene.highlights@ =~= seq![BlockHighlight { entity }]);
        },
        None => {
            assert(changes@ + Seq::<Change>::empty() =~= changes@);
        },
    }
    changes
}

} // verus!
