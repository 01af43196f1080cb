use voxel_blocks::crossing::{AxisSpan, Crossing};
use voxel_blocks::entity::{EntityId, MaterialId};
use voxel_blocks::materials::BlockMaterials;
use voxel_blocks::pick::Candidate;
use voxel_blocks::scalar::Scalar;
use voxel_blocks::frame::{highlight_hovered_block, FrameView};
use voxel_blocks::scene::{
    apply_highlight, clear_highlights, paint_block, Block, BlockHighlight, Change, Scene,
};

const NORMAL: MaterialId = MaterialId::Slot(1);
const HIGHLIGHTED: MaterialId = MaterialId::Slot(2);
const FOREIGN: MaterialId = MaterialId::Uuid(77);

fn materials() -> BlockMaterials {
    BlockMaterials { normal: NORMAL, highlighted: HIGHLIGHTED }
}

fn id(bits: u64) -> EntityId {
    EntityId { bits }
}

fn block(entity: u64, material: MaterialId) -> Block {
    Block { entity: id(entity), material }
}

fn mark(entity: u64) -> BlockHighlight {
    BlockHighlight { entity: id(entity) }
}

fn scalar(value: f32) -> Scalar {
    Scalar::from_bits(value.to_bits())
}

fn span(origin: f32, direction: f32, center: f32) -> AxisSpan {
    AxisSpan {
        at_min: scalar((center - 0.5 - origin) / direction),
        at_max: scalar((center + 0.5 - origin) / direction),
    }
}

fn seen(entity: u64, origin: [f32; 3], direction: [f32; 3], center: [f32; 3]) -> Candidate {
    Candidate {
        entity: id(entity),
        crossing: Crossing {
            x: span(origin[0], direction[0], center[0]),
            y: span(origin[1], direction[1], center[1]),
            z: span(origin[2], direction[2], center[2]),
        },
    }
}

/// A row of three blocks along x, entities 1 to 3, seen from `origin`
/// looking along +z.
fn row_seen_from(origin: [f32; 3]) -> Vec<Candidate> {
    vec![
        seen(1, origin, [0.0, 0.0, 1.0], [0.0, 0.0, 0.0]),
        seen(2, origin, [0.0, 0.0, 1.0], [1.0, 0.0, 0.0]),
        seen(3, origin, [0.0, 0.0, 1.0], [2.0, 0.0, 0.0]),
    ]
}

fn row(materials: [MaterialId; 3], highlights: Vec<BlockHighlight>) -> Scene {
    Scene {
        blocks: vec![block(1, materials[0]), block(2, materials[1]), block(3, materials[2])],
        highlights,
    }
}

fn paint(entity: u64, material: MaterialId) -> Change {
    Change::Paint { entity: id(entity), material }
}

fn unmark(entity: u64) -> Change {
    Change::Unmark { entity: id(entity) }
}

fn mark_on(entity: u64) -> Change {
    Change::Mark { entity: id(entity) }
}

/// Does to `world` what the changes ask, as a host would.
fn follow(world: &mut Scene, changes: &[Change]) {
    for change in changes {
        match *change {
            Change::Paint { entity, material } => {
                for block in world.blocks.iter_mut().filter(|b| b.entity == entity) {
                    block.material = material;
                }
            }
            Change::Unmark { entity } => world.highlights.retain(|h| h.entity != entity),
            Change::Mark { entity } => {
                if !world.highlights.iter().any(|h| h.entity == entity) {
                    world.highlights.push(BlockHighlight { entity });
                }
            }
        }
    }
}

fn looking(cast: Vec<Candidate>) -> FrameView {
    FrameView { cameras: 1, windows: 1, cast: Some(cast) }
}

#[test]
fn painting_repaints_the_block_of_the_entity() {
    let mut blocks = vec![block(1, NORMAL), block(2, NORMAL), block(1, FOREIGN)];
    assert!(paint_block(&mut blocks, id(1), HIGHLIGHTED));
    assert_eq!(blocks, vec![block(1, HIGHLIGHTED), block(2, NORMAL), block(1, HIGHLIGHTED)]);
    assert!(!paint_block(&mut blocks, id(3), FOREIGN));
    assert_eq!(blocks, vec![block(1, HIGHLIGHTED), block(2, NORMAL), block(1, HIGHLIGHTED)]);
    assert!(!paint_block(&mut Vec::new(), id(1), NORMAL));
}

#[test]
fn clearing_resets_marked_blocks_and_drops_every_mark() {
    let mut scene = row([HIGHLIGHTED, HIGHLIGHTED, FOREIGN], vec![mark(2), mark(3), mark(99)]);
    let changes = clear_highlights(&mut scene, &materials());
    assert_eq!(scene, row([HIGHLIGHTED, NORMAL, NORMAL], vec![]));
    assert_eq!(
        changes,
        vec![paint(2, NORMAL), unmark(2), paint(3, NORMAL), unmark(3), unmark(99)]
    );
}

#[test]
fn clearing_an_unmarked_scene_changes_nothing() {
    let mut scene = row([HIGHLIGHTED, NORMAL, FOREIGN], vec![]);
    let changes = clear_highlights(&mut scene, &materials());
    assert_eq!(scene, row([HIGHLIGHTED, NORMAL, FOREIGN], vec![]));
    assert_eq!(changes, vec![]);
}

#[test]
fn applying_marks_the_entity_and_highlights_its_block() {
    let mut scene = row([NORMAL, NORMAL, NORMAL], vec![]);
    let changes = apply_highlight(&mut scene, &materials(), id(2));
    assert_eq!(scene, row([NORMAL, HIGHLIGHTED, NORMAL], vec![mark(2)]));
    assert_eq!(changes, vec![paint(2, HIGHLIGHTED), mark_on(2)]);
}

#[test]
fn applying_to_an_entity_that_is_no_block_only_marks_it() {
    let mut scene = row([NORMAL, NORMAL, NORMAL], vec![mark(1)]);
    let changes = apply_highlight(&mut scene, &materials(), id(42));
    assert_eq!(scene, row([NORMAL, NORMAL, NORMAL], vec![mark(1), mark(42)]));
    assert_eq!(changes, vec![mark_on(42)]);
}

#[test]
fn frame_highlights_the_block_under_the_ray() {
    let mut scene = row([NORMAL, NORMAL, NORMAL], vec![]);
    let changes = highlight_hovered_block(
        &mut scene,
        &materials(),
        &looking(row_seen_from([1.0, 0.0, -3.0])),
    );
    assert_eq!(scene, row([NORMAL, HIGHLIGHTED, NORMAL], vec![mark(2)]));
    assert_eq!(changes, vec![paint(2, HIGHLIGHTED), mark_on(2)]);
}

#[test]
fn frame_moves_the_highlight() {
    let mut scene = row([NORMAL, HIGHLIGHTED, NORMAL], vec![mark(2)]);
    let changes = highlight_hovered_block(
        &mut scene,
        &materials(),
        &looking(row_seen_from([2.0, 0.0, -3.0])),
    );
    assert_eq!(scene, row([NORMAL, NORMAL, HIGHLIGHTED], vec![mark(3)]));
    assert_eq!(
        changes,
        vec![paint(2, NORMAL), unmark(2), paint(3, HIGHLIGHTED), mark_on(3)]
    );
}

#[test]
fn frame_on_the_same_block_takes_the_mark_off_and_puts_it_back() {
    let mut scene = row([NORMAL, HIGHLIGHTED, NORMAL], vec![mark(2)]);
    let changes = highlight_hovered_block(
        &mut scene,
        &materials(),
        &looking(row_seen_from([1.0, 0.0, -3.0])),
    );
    assert_eq!(scene, row([NORMAL, HIGHLIGHTED, NORMAL], vec![mark(2)]));
    assert_eq!(
        changes,
        vec![paint(2, NORMAL), unmark(2), paint(2, HIGHLIGHTED), mark_on(2)]
    );
}

#[test]
fn frame_with_nothing_in_reach_clears() {
    let mut scene = row([NORMAL, HIGHLIGHTED, NORMAL], vec![mark(2)]);
    let changes = highlight_hovered_block(
        &mut scene,
        &materials(),
        &looking(row_seen_from([1.0, 0.0, -10.0])),
    );
    assert_eq!(scene, row([NORMAL, NORMAL, NORMAL], vec![]));
    assert_eq!(changes, vec![paint(2, NORMAL), unmark(2)]);
}

#[test]
fn frame_that_picks_an_entity_that_is_no_block_only_marks_it() {
    let mut scene = row([NORMAL, NORMAL, NORMAL], vec![]);
    let cast = vec![seen(9, [0.0, 0.0, -3.0], [0.0, 0.0, 1.0], [0.0, 0.0, 0.0])];
    let changes = highlight_hovered_block(&mut scene, &materials(), &looking(cast));
    assert_eq!(scene, row([NORMAL, NORMAL, NORMAL], vec![mark(9)]));
    assert_eq!(changes, vec![mark_on(9)]);
}

#[test]
fn following_the_changes_leads_to_the_scene() {
    let views = [
        looking(row_seen_from([0.0, 0.0, -3.0])),
        looking(row_seen_from([2.0, 0.0, -3.0])),
        looking(row_seen_from([1.0, 0.0, -10.0])),
        FrameView { cameras: 0, windows: 1, cast: None },
        FrameView { cameras: 1, windows: 2, cast: None },
    ];
    let scenes = [
        row([NORMAL, NORMAL, NORMAL], vec![]),
        row([FOREIGN, HIGHLIGHTED, NORMAL], vec![mark(2)]),
        row([HIGHLIGHTED, HIGHLIGHTED, FOREIGN], vec![mark(3), mark(1), mark(50)]),
    ];
    for view in &views {
        for start in &scenes {
            let mut scene = start.clone();
            let mut world = start.clone();
            let changes = highlight_hovered_block(&mut scene, &materials(), view);
            follow(&mut world, &changes);
            assert_eq!(world, scene);
        }
    }
}

#[test]
fn frame_leaves_at_most_one_mark() {
    let views = [
        looking(row_seen_from([0.0, 0.0, -3.0])),
        looking(row_seen_from([5.0, 0.0, -3.0])),
        looking(Vec::new()),
        FrameView { cameras: 0, windows: 1, cast: None },
        FrameView { cameras: 1, windows: 1, cast: None },
    ];
    for view in &views {
        let mut scene = row(
            [HIGHLIGHTED, HIGHLIGHTED, HIGHLIGHTED],
            vec![mark(1), mark(2), mark(3), mark(3), mark(50)],
        );
        highlight_hovered_block(&mut scene, &materials(), view);
        assert!(scene.highlights.len() <= 1);
        assert_eq!(scene.blocks.len(), 3);
    }
}

#[test]
fn frame_run_twice_gives_the_same_scene() {
    let views = [
        looking(row_seen_from([0.0, 0.0, -3.0])),
        looking(row_seen_from([1.0, 0.0, -10.0])),
        FrameView { cameras: 0, windows: 1, cast: None },
    ];
    for view in &views {
        let mut scene = row([FOREIGN, HIGHLIGHTED, NORMAL], vec![mark(2), mark(3)]);
        highlight_hovered_block(&mut scene, &materials(), view);
        let once = scene.clone();
        highlight_hovered_block(&mut scene, &materials(), view);
        assert_eq!(scene, once);
    }
    let mut scene = row([FOREIGN, HIGHLIGHTED, NORMAL], vec![mark(2), mark(3)]);
    highlight_hovered_block(&mut scene, &materials(), &views[0]);
    assert_eq!(scene, row([HIGHLIGHTED, NORMAL, NORMAL], vec![mark(1)]));
}

#[test]
fn frame_without_a_camera_removes_stale_marks() {
    let mut scene = row([NORMAL, NORMAL, FOREIGN], vec![mark(2), mark(77)]);
    let view = FrameView { cameras: 0, windows: 1, cast: Some(row_seen_from([0.0, 0.0, -3.0])) };
    let changes = highlight_hovered_block(&mut scene, &materials(), &view);
    assert_eq!(scene, row([NORMAL, NORMAL, FOREIGN], vec![]));
    assert_eq!(changes, vec![paint(2, NORMAL), unmark(2), unmark(77)]);
}

#[test]
fn frame_without_a_camera_resets_the_marked_block() {
    let mut scene = row([NORMAL, HIGHLIGHTED, NORMAL], vec![mark(2)]);
    let view = FrameView { cameras: 0, windows: 1, cast: None };
    highlight_hovered_block(&mut scene, &materials(), &view);
    assert_eq!(scene, row([NORMAL, NORMAL, NORMAL], vec![]));
}

#[test]
fn frame_with_two_cameras_only_clears() {
    let mut scene = row([NORMAL, HIGHLIGHTED, NORMAL], vec![mark(2)]);
    let view = FrameView { cameras: 2, windows: 1, cast: Some(row_seen_from([0.0, 0.0, -3.0])) };
    highlight_hovered_block(&mut scene, &materials(), &view);
    assert_eq!(scene, row([NORMAL, NORMAL, NORMAL], vec![]));
}

#[test]
fn frame_without_exactly_one_window_only_clears() {
    for windows in [0usize, 2, 3] {
        let mut scene = row([NORMAL, HIGHLIGHTED, NORMAL], vec![mark(2)]);
        let view =
            FrameView { cameras: 1, windows, cast: Some(row_seen_from([0.0, 0.0, -3.0])) };
        highlight_hovered_block(&mut scene, &materials(), &view);
        assert_eq!(scene, row([NORMAL, NORMAL, NORMAL], vec![]));
    }
}

#[test]
fn frame_without_a_ray_only_clears() {
    let mut scene = row([NORMAL, HIGHLIGHTED, NORMAL], vec![mark(2)]);
    let view = FrameView { cameras: 1, windows: 1, cast: None };
    highlight_hovered_block(&mut scene, &materials(), &view);
    assert_eq!(scene, row([NORMAL, NORMAL, NORMAL], vec![]));
}

#[test]
fn find_target_needs_one_camera_one_window_and_a_ray() {
    let cast = row_seen_from([2.0, 0.0, -3.0]);
    assert_eq!(looking(cast.clone()).find_target(), Some(id(3)));
    assert_eq!(FrameView { cameras: 0, windows: 1, cast: Some(cast.clone()) }.find_target(), None);
    assert_eq!(FrameView { cameras: 2, windows: 1, cast: Some(cast.clone()) }.find_target(), None);
    assert_eq!(FrameView { cameras: 1, windows: 0, cast: Some(cast.clone()) }.find_target(), None);
    assert_eq!(FrameView { cameras: 1, windows: 2, cast: Some(cast) }.find_target(), None);
    assert_eq!(FrameView { cameras: 1, windows: 1, cast: None }.find_target(), None);
    assert_eq!(looking(Vec::new()).find_target(), None);
}

#[test]
fn frame_with_a_degenerate_ray_highlights_nothing() {
    let nan = [f32::NAN, f32::NAN, f32::NAN];
    let cast = vec![
        seen(1, [0.0, 0.0, -3.0], nan, [0.0, 0.0, 0.0]),
        seen(2, [0.0, 0.0, -3.0], [0.0, 0.0, 0.0], [1.0, 0.0, 0.0]),
    ];
    let mut scene = row([NORMAL, HIGHLIGHTED, NORMAL], vec![mark(2)]);
    highlight_hovered_block(&mut scene, &materials(), &looking(cast));
    assert_eq!(scene, row([NORMAL, NORMAL, NORMAL], vec![]));
}
