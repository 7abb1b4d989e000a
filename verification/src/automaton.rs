use crate::cells::{in_grid, neighbors};
use crate::grid::BitGrid;
use crate::terrain::VoxelizedView;
use vstd::prelude::*;

verus! {

/// With fewer solid voxels than this, about a tenth of the grid, the terrain
/// grows.
pub const GROW_BELOW: u32 = 1638;

/// With more solid voxels than this, about three tenths of the grid, the
/// terrain shrinks.
pub const SHRINK_ABOVE: u32 = 4915;

/// What the terrain as a whole does in one tick.
#[derive(Clone, Copy, PartialEq, Eq, Debug, Structural)]
pub enum Regime {
    Grow,
    Shrink,
    Steady,
}

/// The regime for a terrain of `total` solid voxels.
pub open spec fn regime_of(total: nat) -> Regime {
    if total < 1638 {
        Regime::Grow
    } else if total > 4915 {
        Regime::Shrink
    } else {
        Regime::Steady
    }
}

/// The regime for a terrain of `total` solid voxels.
pub fn regime(total: u32) -> (r: Regime)
    ensures
        r == regime_of(total as nat),
{
    if total < GROW_BELOW {
        Regime::Grow
    } else if total > SHRINK_ABOVE {
        Regime::Shrink
    } else {
        Regime::Steady
    }
}

/// The rule of the automaton: whether a voxel is solid after the tick.
///
/// `solid` is its state before, `excited` says that the noise sampled at the
/// voxel is above the threshold, and `s` counts the solid voxels among the
/// nine of its neighbourhood, itself included.
pub open spec fn next_state(regime: Regime, solid: bool, excited: bool, s: nat) -> bool {
    match regime {
        Regime::Grow => if solid || excited {
            s >= 5
        } else {
            s == 3 || s == 4 || s == 1
        },
        Regime::Shrink => if solid && excited {
            s >= 7 || s == 1
        } else {
            s == 4 || s == 5
        },
        Regime::Steady => if solid || excited {
            s >= 7
        } else {
            s == 4 || s == 5
        },
    }
}

/// Applies the rule of the automaton to one voxel.
pub fn next_voxel(regime: Regime, solid: bool, excited: bool, s: u32) -> (b: bool)
    ensures
        b == next_state(regime, solid, excited, s as nat),
{
    match regime {
        Regime::Grow => {
            if solid || excited {
                s >= 5
            } else {
                s == 3 || s == 4 || s == 1
            }
        },
        Regime::Shrink => {
            if solid && excited {
                s >= 7 || s == 1
            } else {
                s == 4 || s == 5
            }
        },
        Regime::Steady => {
            if solid || excited {
                s >= 7
            } else {
                s == 4 || s == 5
            }
        },
    }
}

/// Whether the voxel `(x, y)` is solid after one tick on `terrain`.
///
/// A voxel in `frozen` keeps its state, and so does a finish coordinate.
/// Every other voxel follows the rule, with the regime, its own state and
/// its neighbours all taken from the terrain before the tick.
pub open spec fn evolved(
    terrain: VoxelizedView,
    frozen: Set<(int, int)>,
    excited: Set<(int, int)>,
    x: int,
    y: int,
) -> bool {
    if frozen.contains((x, y)) || terrain.protects(x as u32, y as u32) {
        terrain@.contains((x, y))
    } else {
        next_state(
            regime_of(terrain@.len()),
            terrain@.contains((x, y)),
            excited.contains((x, y)),
            neighbors(terrain@, x, y, 1),
        )
    }
}

/// One tick of the automaton: the terrain that follows `voxels`.
///
/// `frozen` holds the voxels that the tick must not touch, those within the
/// protection radius of the player; `excited` holds the voxels whose noise
/// sample is above the threshold. The finish coordinates carry over.
pub fn update_terrain(voxels: &VoxelizedView, frozen: &BitGrid, excited: &BitGrid) -> (next:
    VoxelizedView)
    ensures
        next.finish_coords() == voxels.finish_coords(),
        next@ == Set::new(
            |p: (int, int)| in_grid(p.0, p.1) && evolved(*voxels, frozen@, excited@, p.0, p.1),
        ),
{
    let total: u32 = voxels.total();
    let r: Regime = regime(total);
    let mut new_voxels: VoxelizedView = voxels.clone();
    proof {
        voxels.lemma_view_within_grid();
    }
    let mut x: u32 = 0;
    while x < 128
        invariant
            x <= 128,
            r == regime_of(voxels@.len()),
            new_voxels.finish_coords() == voxels.finish_coords(),
            forall|p: (int, int)| #[trigger]
                new_voxels@.contains(p) == if in_grid(p.0, p.1) && p.0 < x {
                    evolved(*voxels, frozen@, excited@, p.0, p.1)
                } else {
                    voxels@.contains(p)
                },
        decreases 128 - x,
    {
        let mut y: u32 = 0;
        while y < 128
            invariant
                x < 128,
                y <= 128,
                r == regime_of(voxels@.len()),
                new_voxels.finish_coords() == voxels.finish_coords(),
                forall|p: (int, int)| #[trigger]
                    new_voxels@.contains(p) == if in_grid(p.0, p.1) && (p.0 < x || (p.0 == x
                        && p.1 < y)) {
                        evolved(*voxels, frozen@, excited@, p.0, p.1)
                    } else {
                        voxels@.contains(p)
                    },
            decreases 128 - y,
        {
            if !frozen.get(x, y) {
                let s: u32 = voxels.get_surrounding(x, y, 1);
                let c: bool = voxels.get(x, y);
                let e: bool = excited.get(x, y);
                new_voxels.set(x, y, next_voxel(r, c, e, s));
            }
            y = y + 1;
        }
        x = x + 1;
    }
    proof {
        assert(new_voxels@ =~= Set::new(
            |p: (int, int)| in_grid(p.0, p.1) && evolved(*voxels, frozen@, excited@, p.0, p.1),
        ));
    }
    new_voxels
}

} // verus!
