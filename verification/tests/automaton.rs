use living_terrain::automaton::{next_voxel, regime, update_terrain, Regime};
use living_terrain::grid::BitGrid;
use living_terrain::terrain::VoxelizedView;

/// Makes `n` more voxels solid, in a slab that starts at column 40.
fn fill(voxels: &mut VoxelizedView, n: u32) {
    let mut left = n;
    for x in 40..128 {
        for y in 0..128 {
            if left == 0 {
                return;
            }
            voxels.set(x, y, true);
            left -= 1;
        }
    }
}

fn terrain_with(total: u32, probe: &[(u32, u32)]) -> VoxelizedView {
    let mut voxels = VoxelizedView::empty();
    for &(x, y) in probe {
        voxels.set(x, y, true);
    }
    fill(&mut voxels, total - probe.len() as u32);
    assert_eq!(voxels.total(), total);
    voxels
}

fn tick(voxels: &VoxelizedView) -> VoxelizedView {
    update_terrain(voxels, &BitGrid::empty(), &BitGrid::empty())
}

#[test]
fn regime_thresholds() {
    assert_eq!(regime(0), Regime::Grow);
    assert_eq!(regime(1000), Regime::Grow);
    assert_eq!(regime(1637), Regime::Grow);
    assert_eq!(regime(1638), Regime::Steady);
    assert_eq!(regime(3000), Regime::Steady);
    assert_eq!(regime(4915), Regime::Steady);
    assert_eq!(regime(4916), Regime::Shrink);
    assert_eq!(regime(5000), Regime::Shrink);
    assert_eq!(regime(16384), Regime::Shrink);
}

#[test]
fn rule_table_of_grow() {
    for s in 0..=9u32 {
        let survives = s >= 5;
        let born = matches!(s, 1 | 3 | 4);
        assert_eq!(next_voxel(Regime::Grow, true, false, s), survives, "s = {s}");
        assert_eq!(next_voxel(Regime::Grow, true, true, s), survives, "s = {s}");
        assert_eq!(next_voxel(Regime::Grow, false, true, s), survives, "s = {s}");
        assert_eq!(next_voxel(Regime::Grow, false, false, s), born, "s = {s}");
    }
}

#[test]
fn rule_table_of_shrink() {
    for s in 0..=9u32 {
        let survives = s >= 7 || s == 1;
        let set = matches!(s, 4 | 5);
        assert_eq!(next_voxel(Regime::Shrink, true, true, s), survives, "s = {s}");
        assert_eq!(next_voxel(Regime::Shrink, true, false, s), set, "s = {s}");
        assert_eq!(next_voxel(Regime::Shrink, false, true, s), set, "s = {s}");
        assert_eq!(next_voxel(Regime::Shrink, false, false, s), set, "s = {s}");
    }
}

#[test]
fn rule_table_of_steady() {
    for s in 0..=9u32 {
        let survives = s >= 7;
        let set = matches!(s, 4 | 5);
        assert_eq!(next_voxel(Regime::Steady, true, false, s), survives, "s = {s}");
        assert_eq!(next_voxel(Regime::Steady, true, true, s), survives, "s = {s}");
        assert_eq!(next_voxel(Regime::Steady, false, true, s), survives, "s = {s}");
        assert_eq!(next_voxel(Regime::Steady, false, false, s), set, "s = {s}");
    }
}

#[test]
fn terrain_of_1000_voxels_grows() {
    // Two solid neighbours: no birth.
    let voxels = terrain_with(1000, &[(9, 10), (11, 10)]);
    assert_eq!(voxels.get_surrounding(10, 10, 1), 2);
    assert!(!tick(&voxels).get(10, 10));

    // Three solid neighbours: birth, which only the grow rule has.
    let voxels = terrain_with(1000, &[(9, 10), (11, 10), (10, 9)]);
    assert_eq!(voxels.get_surrounding(10, 10, 1), 3);
    assert!(tick(&voxels).get(10, 10));

    // A solid voxel with all nine solid survives.
    assert_eq!(voxels.get_surrounding(42, 50, 1), 9);
    assert!(tick(&voxels).get(42, 50));
}

#[test]
fn terrain_of_5000_voxels_shrinks() {
    let voxels = terrain_with(5000, &[(9, 10), (11, 10), (10, 9)]);
    assert_eq!(voxels.get_surrounding(10, 10, 1), 3);
    assert!(!tick(&voxels).get(10, 10));

    let voxels = terrain_with(5000, &[(9, 10), (11, 10), (10, 9), (10, 11)]);
    assert_eq!(voxels.get_surrounding(10, 10, 1), 4);
    assert!(tick(&voxels).get(10, 10));

    // A calm solid voxel dies even with all nine solid ...
    assert_eq!(voxels.get_surrounding(42, 50, 1), 9);
    assert!(!tick(&voxels).get(42, 50));

    // ... and survives where the noise is high.
    let mut excited = BitGrid::empty();
    excited.set(42, 50, true);
    let next = update_terrain(&voxels, &BitGrid::empty(), &excited);
    assert!(next.get(42, 50));
    assert!(!next.get(43, 50));
}

#[test]
fn terrain_of_3000_voxels_is_steady() {
    let voxels = terrain_with(3000, &[(9, 10), (11, 10), (10, 9)]);
    assert_eq!(voxels.get_surrounding(10, 10, 1), 3);
    assert!(!tick(&voxels).get(10, 10));

    let voxels = terrain_with(3000, &[(9, 10), (11, 10), (10, 9), (10, 11)]);
    assert_eq!(voxels.get_surrounding(10, 10, 1), 4);
    assert!(tick(&voxels).get(10, 10));

    // A calm solid voxel with all nine solid survives, unlike under shrink.
    assert_eq!(voxels.get_surrounding(42, 50, 1), 9);
    assert!(tick(&voxels).get(42, 50));

    // On the face of the slab six are solid: too few to survive.
    assert_eq!(voxels.get_surrounding(40, 50, 1), 6);
    assert!(!tick(&voxels).get(40, 50));
}

#[test]
fn solid_block_grows_by_the_birth_rule() {
    let mut voxels = VoxelizedView::empty();
    for x in 60..63 {
        for y in 60..63 {
            voxels.set(x, y, true);
        }
    }
    assert_eq!(voxels.total(), 9);
    let next = tick(&voxels);

    // The centre counts nine and the middle of each side six: they survive.
    assert!(next.get(61, 61));
    for (x, y) in [(60, 61), (62, 61), (61, 60), (61, 62)] {
        assert!(next.get(x, y), "side ({x}, {y})");
    }
    // A corner counts four: too few for a solid voxel.
    for (x, y) in [(60, 60), (62, 60), (60, 62), (62, 62)] {
        assert!(!next.get(x, y), "corner ({x}, {y})");
    }
    // Beside the middle of a side three are solid: birth.
    for (x, y) in [(59, 61), (63, 61), (61, 59), (61, 63)] {
        assert!(next.get(x, y), "beside the side ({x}, {y})");
    }
    // Beside a corner two are solid: no birth.
    for (x, y) in [(59, 60), (59, 62), (63, 60), (63, 62), (60, 59), (62, 59), (60, 63), (62, 63)] {
        assert!(!next.get(x, y), "beside the corner ({x}, {y})");
    }
    // Diagonally off a corner one is solid: birth.
    for (x, y) in [(59, 59), (63, 59), (59, 63), (63, 63)] {
        assert!(next.get(x, y), "off the corner ({x}, {y})");
    }
    // Further out nothing is solid: nothing is born.
    assert!(!next.get(58, 61));
    assert!(!next.get(61, 64));
    assert!(!next.get(0, 0));
    assert_eq!(next.total(), 13);

    // The tick left its input alone.
    assert_eq!(voxels.total(), 9);
    assert!(voxels.get(60, 60));
}

#[test]
fn frozen_voxels_keep_their_state() {
    let mut voxels = VoxelizedView::empty();
    for x in 60..63 {
        for y in 60..63 {
            voxels.set(x, y, true);
        }
    }
    let mut frozen = BitGrid::empty();
    frozen.set(60, 60, true);
    frozen.set(59, 61, true);
    frozen.set(59, 59, true);
    let next = update_terrain(&voxels, &frozen, &BitGrid::empty());
    assert!(next.get(60, 60));
    assert!(!next.get(59, 61));
    assert!(!next.get(59, 59));
    assert!(!next.get(62, 62));
    assert!(next.get(63, 61));
    assert!(next.get(63, 63));
}

#[test]
fn everything_frozen_changes_nothing() {
    let voxels = terrain_with(1000, &[(9, 10), (11, 10), (10, 9)]);
    let mut frozen = BitGrid::empty();
    for x in 0..128 {
        for y in 0..128 {
            frozen.set(x, y, true);
        }
    }
    let next = update_terrain(&voxels, &frozen, &BitGrid::empty());
    for x in 0..128 {
        for y in 0..128 {
            assert_eq!(next.get(x, y), voxels.get(x, y));
        }
    }
}

#[test]
fn finish_coordinates_survive_the_tick_untouched() {
    let mut voxels = VoxelizedView::empty();
    for x in 60..63 {
        for y in 60..63 {
            voxels.set(x, y, true);
        }
    }
    voxels.set_finish_coords(vec![(60, 60), (59, 61)]);
    let next = tick(&voxels);
    assert!(next.get(60, 60));
    assert!(!next.get(59, 61));
    assert!(next.is_finish(60, 60));
    assert!(next.is_finish(59, 61));
    assert!(!next.get(62, 62));
    assert!(next.get(63, 61));
}

#[test]
fn noise_turns_birth_into_survival() {
    let mut voxels = VoxelizedView::empty();
    voxels.set(9, 10, true);
    voxels.set(11, 10, true);
    voxels.set(10, 9, true);
    let mut excited = BitGrid::empty();
    excited.set(10, 10, true);
    // Grow, empty and excited: solid only with five or more, and it has three.
    let next = update_terrain(&voxels, &BitGrid::empty(), &excited);
    assert!(!next.get(10, 10));
    // The same voxel without the noise is born.
    assert!(tick(&voxels).get(10, 10));
}

#[test]
fn empty_terrain_stays_empty() {
    let next = tick(&VoxelizedView::empty());
    assert_eq!(next.total(), 0);
}
