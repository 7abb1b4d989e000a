use crate::cells::{
    clipped_span, in_grid, lemma_neighbors_of_empty, lemma_neighbors_of_full,
    lemma_shape_of_single, neighbors, rect, shape_of, texture_of, GRID_SIZE,
};
use crate::grid::BitGrid;
use crate::levels::LevelScreens;
use crate::texture::{image_data, image_size, nearest_r32_image, nearest_texture};
use bevy::image::Image;
use vstd::prelude::*;

verus! {

/// Edge length of a voxel in world units.
pub const VOXEL_SIZE: i32 = 20;

/// The automaton leaves alone every voxel that is nearer to the player than
/// this, in world units.
pub const PROTECTION_RADIUS: i32 = 300;

/// A player further than this from the origin along either axis, in world
/// units, is out of bounds.
pub const WORLD_BOUND: i32 = 1300;

/// The world position of the voxel `(x, y)`: column 64 and row 63 lie at
/// the origin, and rows grow downwards.
pub open spec fn world_position(x: int, y: int) -> (int, int) {
    ((x - 64) * 20, (63 - y) * 20)
}

/// The world position of a voxel of the grid, in machine integers.
pub open spec fn world_of(c: (u32, u32)) -> (i32, i32) {
    let w = world_position(c.0 as int, c.1 as int);
    (w.0 as i32, w.1 as i32)
}

/// The world position of the voxel `(x, y)`.
pub fn voxel_to_world(x: u32, y: u32) -> (w: (i32, i32))
    requires
        x < 128,
        y < 128,
    ensures
        (w.0 as int, w.1 as int) == world_position(x as int, y as int),
        w == world_of((x, y)),
{
    ((x as i32 - 64) * VOXEL_SIZE, (63 - y as i32) * VOXEL_SIZE)
}

/// The terrain: the solid voxels of the grid, and the coordinates of the
/// finish markers, which no write may touch.
///
/// Its view is the set of the solid voxels.
pub struct VoxelizedView {
    voxels: BitGrid,
    finish_coords: Vec<(u32, u32)>,
}

impl View for VoxelizedView {
    type V = Set<(int, int)>;

    closed spec fn view(&self) -> Set<(int, int)> {
        self.voxels@
    }
}

impl VoxelizedView {
    /// The finish coordinates, in the order in which they were given.
    pub closed spec fn finish_coords(&self) -> Seq<(u32, u32)> {
        self.finish_coords@
    }

    /// Whether `(x, y)` is a finish coordinate.
    pub open spec fn protects(&self, x: u32, y: u32) -> bool {
        self.finish_coords().contains((x, y))
    }

    /// The terrain with no solid voxel and no finish coordinate.
    pub fn empty() -> (t: VoxelizedView)
        ensures
            t@ == Set::<(int, int)>::empty(),
            t.finish_coords() == Seq::<(u32, u32)>::empty(),
    {
        VoxelizedView { voxels: BitGrid::empty(), finish_coords: Vec::new() }
    }

    /// Whether the voxel `(x, y)` is solid.
    pub fn get(&self, x: u32, y: u32) -> (b: bool)
        requires
            x < 128,
            y < 128,
        ensures
            b == self@.contains((x as int, y as int)),
    {
        self.voxels.get(x, y)
    }

    /// Whether the voxel `(x, y)` is solid, where the grid is surrounded by
    /// emptiness: no coordinate outside it is solid.
    pub fn get_checked(&self, x: i32, y: i32) -> (b: bool)
        ensures
            b == self@.contains((x as int, y as int)),
            !in_grid(x as int, y as int) ==> !b,
    {
        self.voxels.get_checked(x, y)
    }

    /// The number of solid voxels in the square window of radius `size`
    /// around `(x, y)`, the centre included.
    pub fn get_surrounding(&self, x: u32, y: u32, size: i32) -> (n: u32)
        ensures
            n == neighbors(self@, x as int, y as int, size as int),
    {
        self.voxels.get_surrounding(x, y, size)
    }

    /// Whether `(x, y)` is a finish coordinate.
    pub fn is_finish(&self, x: u32, y: u32) -> (b: bool)
        ensures
            b == self.protects(x, y),
    {
        let mut i: usize = 0;
        while i < self.finish_coords.len()
            invariant
                i <= self.finish_coords@.len(),
                forall|j: int| 0 <= j < i ==> self.finish_coords@[j] != (x, y),
            decreases self.finish_coords@.len() - i,
        {
            let c: (u32, u32) = self.finish_coords[i];
            if c.0 == x && c.1 == y {
                return true;
            }
            i = i + 1;
        }
        false
    }

    /// Replaces the finish coordinates. The voxels stay as they are.
    pub fn set_finish_coords(&mut self, coords: Vec<(u32, u32)>)
        ensures
            final(self).finish_coords() == coords@,
            final(self)@ == old(self)@,
    {
        self.finish_coords = coords;
    }

    /// Makes the voxel `(x, y)` solid or empty, unless it is a finish
    /// coordinate: then nothing changes.
    pub fn set(&mut self, x: u32, y: u32, v: bool)
        requires
            x < 128,
            y < 128,
        ensures
            final(self).finish_coords() == old(self).finish_coords(),
            old(self).protects(x, y) ==> final(self)@ == old(self)@,
            !old(self).protects(x, y) ==> final(self)@ == if v {
                old(self)@.insert((x as int, y as int))
            } else {
                old(self)@.remove((x as int, y as int))
            },
            !old(self).protects(x, y) ==> final(self)@.contains((x as int, y as int)) == v,
    {
        if self.is_finish(x, y) {
            return ;
        }
        self.voxels.set(x, y, v);
    }

    /// The number of solid voxels.
    pub fn total(&self) -> (n: u32)
        ensures
            n == self@.len(),
            n <= 16384,
    {
        self.voxels.total()
    }

    /// The coordinates of the collision shape, one per solid voxel in scan
    /// order, or `None` where no voxel is solid.
    pub fn collider(&self) -> (shape: Option<Vec<(i32, i32)>>)
        ensures
            shape is None <==> self@ == Set::<(int, int)>::empty(),
            shape matches Some(v) ==> v@ == shape_of(self@) && v@.len() == self@.len(),
    {
        self.voxels.shape_coordinates()
    }

    /// The height texture for the render stage: 128 x 128 texels, one per
    /// voxel in scan order, one for a solid voxel and zero for an empty one.
    pub fn as_tex(&self) -> (image: Image)
        ensures
            image == nearest_texture(128, 128, texture_of(self@)),
            image_data(image) == texture_of(self@),
            image_size(image) == (128u32, 128u32),
    {
        nearest_r32_image(GRID_SIZE, GRID_SIZE, self.voxels.texture_bytes())
    }

    /// Only voxels of the grid are solid, so the view is finite.
    pub proof fn lemma_view_within_grid(&self)
        ensures
            forall|p: (int, int)| self@.contains(p) ==> in_grid(p.0, p.1),
            self@.finite(),
            self@.len() <= 16384,
    {
        self.voxels.lemma_view_within_grid();
    }
}

impl Clone for VoxelizedView {
    fn clone(&self) -> (t: Self)
        ensures
            t@ == self@,
            t.finish_coords() == self.finish_coords(),
    {
        let mut finish_coords: Vec<(u32, u32)> = Vec::new();
        let mut i: usize = 0;
        while i < self.finish_coords.len()
            invariant
                i <= self.finish_coords@.len(),
                finish_coords@ == self.finish_coords@.take(i as int),
            decreases self.finish_coords@.len() - i,
        {
            let c: (u32, u32) = self.finish_coords[i];
            finish_coords.push(c);
            assert(self.finish_coords@.take(i + 1) =~= self.finish_coords@.take(i as int).push(c));
            i = i + 1;
        }
        assert(self.finish_coords@.take(i as int) =~= self.finish_coords@);
        VoxelizedView { voxels: self.voxels.clone(), finish_coords }
    }
}

/// On terrain without a solid voxel, no voxel has a solid neighbour,
/// whatever the radius.
pub proof fn lemma_neighbors_all_empty(t: VoxelizedView, x: int, y: int, r: int)
    requires
        t@ == Set::<(int, int)>::empty(),
    ensures
        neighbors(t@, x, y, r) == 0,
{
    lemma_neighbors_of_empty(x, y, r);
}

/// On terrain whose every voxel is solid, the window of radius 1 holds 9
/// solid voxels around an interior voxel, 6 around one on an edge and 4
/// around a corner: what lies outside the grid is never solid.
pub proof fn lemma_neighbors_all_solid(t: VoxelizedView, x: int, y: int)
    requires
        in_grid(x, y),
        forall|p: (int, int)| in_grid(p.0, p.1) ==> t@.contains(p),
    ensures
        neighbors(t@, x, y, 1) == clipped_span(x, 1) * clipped_span(y, 1),
        0 < x < 127 && 0 < y < 127 ==> neighbors(t@, x, y, 1) == 9,
        !(0 < x < 127 && 0 < y < 127) ==> neighbors(t@, x, y, 1) < 9,
{
    t.lemma_view_within_grid();
    assert(t@ =~= rect(0, 127, 0, 127));
    lemma_neighbors_of_full(x, y, 1);
    let a = clipped_span(x, 1);
    let b = clipped_span(y, 1);
    assert(a * b == if a == 3 && b == 3 {
        9int
    } else if a == 2 && b == 2 {
        4int
    } else {
        6int
    }) by (nonlinear_arith)
        requires
            a == 2 || a == 3,
            b == 2 || b == 3,
    ;
}

/// Terrain with a single solid voxel has a collision shape of a single
/// coordinate: column 64 maps to 0, row 63 maps to 0, and rows grow
/// downwards.
pub proof fn lemma_collider_of_single(t: VoxelizedView, x: int, y: int)
    requires
        t@ == set![(x, y)],
    ensures
        in_grid(x, y),
        shape_of(t@) == seq![((x - 64) as i32, (63 - y) as i32)],
{
    t.lemma_view_within_grid();
    assert(t@.contains((x, y)));
    lemma_shape_of_single(x, y);
}

/// How many finish markers are still to be collected.
#[derive(Clone, Copy, PartialEq, Eq, Debug, Structural)]
pub struct RequiredFinishes(pub u32);

/// Something touched a finish marker. Only the player collects it: the
/// count goes down by one, never below zero, and once it is zero the level
/// is complete and the intermission follows.
pub fn collect_finish(required: &mut RequiredFinishes, by_player: bool) -> (next: Option<
    LevelScreens,
>)
    ensures
        !by_player ==> *final(required) == *old(required) && next is None,
        by_player ==> final(required).0 == if old(required).0 > 0 {
            old(required).0 - 1
        } else {
            0
        },
        by_player ==> next == if final(required).0 == 0 {
            Some(LevelScreens::Intermission)
        } else {
            None
        },
{
    if !by_player {
        return None;
    }
    if required.0 > 0 {
        required.0 = required.0 - 1;
    }
    if required.0 == 0 {
        Some(LevelScreens::Intermission)
    } else {
        None
    }
}

/// Something touched a kill zone. Where it was the player, the level
/// restarts.
pub fn player_dies(by_player: bool) -> (next: Option<LevelScreens>)
    ensures
        next == if by_player {
            Some(LevelScreens::Restart)
        } else {
            None
        },
{
    if by_player {
        Some(LevelScreens::Restart)
    } else {
        None
    }
}

/// The kill zones of a level: the voxels that end the run when touched.
///
/// Its view is the set of those voxels.
pub struct Killzones {
    voxels: BitGrid,
}

impl View for Killzones {
    type V = Set<(int, int)>;

    closed spec fn view(&self) -> Set<(int, int)> {
        self.voxels@
    }
}

impl Killzones {
    /// No kill zone at all.
    pub fn empty() -> (k: Killzones)
        ensures
            k@ == Set::<(int, int)>::empty(),
    {
        Killzones { voxels: BitGrid::empty() }
    }

    /// Whether the voxel `(x, y)` is a kill zone.
    pub fn get(&self, x: u32, y: u32) -> (b: bool)
        requires
            x < 128,
            y < 128,
        ensures
            b == self@.contains((x as int, y as int)),
    {
        self.voxels.get(x, y)
    }

    /// Makes the voxel `(x, y)` a kill zone or not.
    pub fn set(&mut self, x: u32, y: u32, v: bool)
        requires
            x < 128,
            y < 128,
        ensures
            final(self)@ == if v {
                old(self)@.insert((x as int, y as int))
            } else {
                old(self)@.remove((x as int, y as int))
            },
    {
        self.voxels.set(x, y, v);
    }

    /// The coordinates of the collision shape, one per kill-zone voxel in
    /// scan order, or `None` where there is none.
    pub fn collider(&self) -> (shape: Option<Vec<(i32, i32)>>)
        ensures
            shape is None <==> self@ == Set::<(int, int)>::empty(),
            shape matches Some(v) ==> v@ == shape_of(self@) && v@.len() == self@.len(),
    {
        self.voxels.shape_coordinates()
    }

    /// The kill-zone texture for the render stage: 128 x 128 texels, one
    /// per voxel in scan order, one for a kill zone and zero for any other.
    pub fn as_tex(&self) -> (image: Image)
        ensures
            image == nearest_texture(128, 128, texture_of(self@)),
            image_data(image) == texture_of(self@),
            image_size(image) == (128u32, 128u32),
    {
        nearest_r32_image(GRID_SIZE, GRID_SIZE, self.voxels.texture_bytes())
    }

    /// Only voxels of the grid are kill zones, so the view is finite.
    pub proof fn lemma_view_within_grid(&self)
        ensures
            forall|p: (int, int)| self@.contains(p) ==> in_grid(p.0, p.1),
            self@.finite(),
            self@.len() <= 16384,
    {
        self.voxels.lemma_view_within_grid();
    }
}

impl Clone for Killzones {
    fn clone(&self) -> (k: Self)
        ensures
            k@ == self@,
    {
        Killzones { voxels: self.voxels.clone() }
    }
}

} // verus!
