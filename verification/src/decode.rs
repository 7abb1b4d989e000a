use crate::cells::{in_grid, lemma_filter_map_keeps};
use crate::terrain::{
    voxel_to_world, world_of, world_position, Killzones, RequiredFinishes, VoxelizedView,
};
use vstd::prelude::*;

verus! {

/// What a pixel of a level image stands for.
#[derive(Clone, Copy, PartialEq, Eq, Debug, Structural)]
pub enum PixelClass {
    /// Any colour outside the palette: empty space.
    Void,
    /// `#1A1C2C`
    Terrain,
    /// `#B13E53`
    Killzone,
    /// `#73EFF7`
    Finish,
    /// `#566C86`
    Spawn,
}

/// The class of an sRGB colour of 8 bits per channel.
///
/// A pixel takes the class of a palette colour that it matches within a ten
/// thousandth of the channel range. Two colours of 8 bits per channel that
/// differ are further apart than that, so here only the palette colour
/// itself matches. The palette is tried in the order terrain, kill zone,
/// finish, spawn; its colours differ, so no colour has two classes.
pub open spec fn class_of(r: u8, g: u8, b: u8) -> PixelClass {
    if r == 0x1A && g == 0x1C && b == 0x2C {
        PixelClass::Terrain
    } else if r == 0xB1 && g == 0x3E && b == 0x53 {
        PixelClass::Killzone
    } else if r == 0x73 && g == 0xEF && b == 0xF7 {
        PixelClass::Finish
    } else if r == 0x56 && g == 0x6C && b == 0x86 {
        PixelClass::Spawn
    } else {
        PixelClass::Void
    }
}

/// The class of an sRGB colour of 8 bits per channel.
pub fn classify(r: u8, g: u8, b: u8) -> (class: PixelClass)
    ensures
        class == class_of(r, g, b),
{
    if r == 0x1A && g == 0x1C && b == 0x2C {
        PixelClass::Terrain
    } else if r == 0xB1 && g == 0x3E && b == 0x53 {
        PixelClass::Killzone
    } else if r == 0x73 && g == 0xEF && b == 0xF7 {
        PixelClass::Finish
    } else if r == 0x56 && g == 0x6C && b == 0x86 {
        PixelClass::Spawn
    } else {
        PixelClass::Void
    }
}

/// The class of the pixel `(x, y)` of an image of 128 x 128 pixels, given as
/// its bytes: rows from top to bottom, each from left to right, four bytes
/// per pixel (red, green, blue, alpha). Alpha has no part in it.
pub open spec fn class_at(bytes: Seq<u8>, x: int, y: int) -> PixelClass {
    let k = 4 * (y * 128 + x);
    class_of(bytes[k], bytes[k + 1], bytes[k + 2])
}

/// Every pixel of a level image, by rows from top to bottom, each row from
/// left to right.
pub open spec fn pixel_order() -> Seq<(int, int)> {
    Seq::new(16384, |k: int| (k % 128, k / 128))
}

/// The coordinate of a finish pixel, and nothing for any other pixel.
pub open spec fn finish_in(bytes: Seq<u8>) -> spec_fn((int, int)) -> Option<(u32, u32)> {
    |p: (int, int)|
        if class_at(bytes, p.0, p.1) == PixelClass::Finish {
            Some((p.0 as u32, p.1 as u32))
        } else {
            None
        }
}

/// The coordinates of the finish pixels, in pixel order.
pub open spec fn finish_pixels(bytes: Seq<u8>) -> Seq<(u32, u32)> {
    pixel_order().filter_map(finish_in(bytes))
}

/// The world position of each coordinate.
pub open spec fn world_positions(coords: Seq<(u32, u32)>) -> Seq<(i32, i32)> {
    Seq::new(coords.len(), |i: int| world_of(coords[i]))
}

/// A coordinate is among the finish pixels if and only if its pixel has the
/// finish colour.
pub proof fn lemma_finish_pixels_members(bytes: Seq<u8>, x: u32, y: u32)
    requires
        x < 128,
        y < 128,
    ensures
        finish_pixels(bytes).contains((x, y)) <==> class_at(bytes, x as int, y as int)
            == PixelClass::Finish,
{
    let f = finish_in(bytes);
    if class_at(bytes, x as int, y as int) == PixelClass::Finish {
        assert(pixel_order()[y * 128 + x] == (x as int, y as int));
        lemma_filter_map_keeps(pixel_order(), f, y * 128 + x);
    }
    if finish_pixels(bytes).contains((x, y)) {
        pixel_order().lemma_filter_map_contains(f, (x, y));
        let t = choose|t: (int, int)| #[trigger]
            pixel_order().contains(t) && f(t) == Some((x, y));
        let k = choose|k: int| 0 <= k < pixel_order().len() && pixel_order()[k] == t;
        assert(t == (x as int, y as int));
    }
}

/// The position in pixel order of the last spawn pixel among the first `n`
/// pixels, or -1 where none of them is a spawn pixel.
pub open spec fn last_spawn(bytes: Seq<u8>, n: int) -> int
    decreases n,
{
    if n <= 0 {
        -1
    } else if class_at(bytes, (n - 1) % 128, (n - 1) / 128) == PixelClass::Spawn {
        n - 1
    } else {
        last_spawn(bytes, n - 1)
    }
}

/// `last_spawn` names a spawn pixel after which no spawn pixel comes, or
/// is -1 where there is no spawn pixel.
pub proof fn lemma_last_spawn(bytes: Seq<u8>, n: int)
    requires
        0 <= n,
    ensures
        -1 <= last_spawn(bytes, n) < n,
        last_spawn(bytes, n) >= 0 ==> class_at(
            bytes,
            last_spawn(bytes, n) % 128,
            last_spawn(bytes, n) / 128,
        ) == PixelClass::Spawn,
        forall|k: int|
            last_spawn(bytes, n) < k < n ==> #[trigger] class_at(bytes, k % 128, k / 128)
                != PixelClass::Spawn,
    decreases n,
{
    if n > 0 {
        lemma_last_spawn(bytes, n - 1);
    }
}

/// The world position of the player's spawn: that of the last spawn pixel
/// in pixel order, or the origin where the image has no spawn pixel.
pub open spec fn spawn_position(bytes: Seq<u8>) -> (int, int) {
    let k = last_spawn(bytes, 16384);
    if k < 0 {
        (0, 0)
    } else {
        world_position(k % 128, k / 128)
    }
}

/// A level image: 128 x 128 pixels of 8-bit sRGB with alpha.
///
/// Its view is the sequence of its bytes: rows from top to bottom, each from
/// left to right, four bytes per pixel.
pub struct LevelImage {
    pixels: Vec<u8>,
}

impl View for LevelImage {
    type V = Seq<u8>;

    closed spec fn view(&self) -> Seq<u8> {
        self.pixels@
    }
}

impl LevelImage {
    #[verifier::type_invariant]
    spec fn well_formed(&self) -> bool {
        self.pixels@.len() == 65536
    }

    /// Takes the bytes of an image of `width` x `height` pixels. A level is
    /// 128 pixels wide and 128 high: any other image is no level image.
    pub fn from_rgba8(width: u32, height: u32, pixels: Vec<u8>) -> (image: Option<LevelImage>)
        ensures
            image is Some <==> width == 128 && height == 128 && pixels@.len() == 65536,
            image matches Some(i) ==> i@ == pixels@,
    {
        if width == 128 && height == 128 && pixels.len() == 65536 {
            Some(LevelImage { pixels })
        } else {
            None
        }
    }

    /// The class of the pixel `(x, y)`.
    pub fn pixel_class(&self, x: u32, y: u32) -> (class: PixelClass)
        requires
            x < 128,
            y < 128,
        ensures
            class == class_at(self@, x as int, y as int),
    {
        proof {
            use_type_invariant(self);
        }
        let k: usize = 4 * (y as usize * 128 + x as usize);
        classify(self.pixels[k], self.pixels[k + 1], self.pixels[k + 2])
    }
}

/// What a level image holds.
pub struct Level {
    /// The terrain, with the finish voxels as its finish coordinates.
    pub voxels: VoxelizedView,
    /// The kill zones.
    pub killzones: Killzones,
    /// The world position of each finish voxel, in pixel order.
    pub finishes: Vec<(i32, i32)>,
    /// The world position of the player's spawn.
    pub spawn: (i32, i32),
    /// The number of finish markers to collect: one per finish voxel.
    pub required_finishes: RequiredFinishes,
}

/// Reads a level from its image.
///
/// A terrain pixel gives a solid voxel and a kill-zone pixel a kill-zone
/// voxel. Each finish pixel gives a finish position and a finish coordinate
/// of the terrain, which stays empty there. The last spawn pixel gives the
/// spawn position.
pub fn spawn_level(image: &LevelImage) -> (level: Level)
    ensures
        level.voxels@ == Set::new(
            |p: (int, int)|
                in_grid(p.0, p.1) && class_at(image@, p.0, p.1) == PixelClass::Terrain,
        ),
        level.killzones@ == Set::new(
            |p: (int, int)|
                in_grid(p.0, p.1) && class_at(image@, p.0, p.1) == PixelClass::Killzone,
        ),
        level.voxels.finish_coords() == finish_pixels(image@),
        level.finishes@ == world_positions(finish_pixels(image@)),
        (level.spawn.0 as int, level.spawn.1 as int) == spawn_position(image@),
        level.required_finishes.0 == finish_pixels(image@).len(),
{
    let mut voxels: VoxelizedView = VoxelizedView::empty();
    let mut killzones: Killzones = Killzones::empty();
    let mut finishes: Vec<(i32, i32)> = Vec::new();
    let mut finish_coords: Vec<(u32, u32)> = Vec::new();
    let mut spawn: (i32, i32) = (0, 0);
    proof {
        assert(pixel_order().take(0) =~= Seq::<(int, int)>::empty());
        assert(world_positions(finish_coords@) =~= finishes@);
    }
    let mut y: u32 = 0;
    while y < 128
        invariant
            y <= 128,
            voxels.finish_coords() == Seq::<(u32, u32)>::empty(),
            forall|p: (int, int)| #[trigger]
                voxels@.contains(p) == (in_grid(p.0, p.1) && p.1 < y && class_at(
                    image@,
                    p.0,
                    p.1,
                ) == PixelClass::Terrain),
            forall|p: (int, int)| #[trigger]
                killzones@.contains(p) == (in_grid(p.0, p.1) && p.1 < y && class_at(
                    image@,
                    p.0,
                    p.1,
                ) == PixelClass::Killzone),
            finish_coords@ == pixel_order().take(y * 128).filter_map(finish_in(image@)),
            finish_coords@.len() <= y * 128,
            finishes@ == world_positions(finish_coords@),
            (spawn.0 as int, spawn.1 as int) == if last_spawn(image@, y * 128) < 0 {
                (0int, 0int)
            } else {
                world_position(
                    last_spawn(image@, y * 128) % 128,
                    last_spawn(image@, y * 128) / 128,
                )
            },
        decreases 128 - y,
    {
        let mut x: u32 = 0;
        while x < 128
            invariant
                y < 128,
                x <= 128,
                voxels.finish_coords() == Seq::<(u32, u32)>::empty(),
                forall|p: (int, int)| #[trigger]
                    voxels@.contains(p) == (in_grid(p.0, p.1) && (p.1 < y || (p.1 == y && p.0
                        < x)) && class_at(image@, p.0, p.1) == PixelClass::Terrain),
                forall|p: (int, int)| #[trigger]
                    killzones@.contains(p) == (in_grid(p.0, p.1) && (p.1 < y || (p.1 == y && p.0
                        < x)) && class_at(image@, p.0, p.1) == PixelClass::Killzone),
                finish_coords@ == pixel_order().take(y * 128 + x).filter_map(
                    finish_in(image@),
                ),
                finish_coords@.len() <= y * 128 + x,
                finishes@ == world_positions(finish_coords@),
                (spawn.0 as int, spawn.1 as int) == if last_spawn(image@, y * 128 + x) < 0 {
                    (0int, 0int)
                } else {
                    world_position(
                        last_spawn(image@, y * 128 + x) % 128,
                        last_spawn(image@, y * 128 + x) / 128,
                    )
                },
            decreases 128 - x,
        {
            let class: PixelClass = image.pixel_class(x, y);
            proof {
                pixel_order().lemma_filter_map_take_succ(finish_in(image@), y * 128 + x);
                assert(pixel_order()[y * 128 + x] == (x as int, y as int));
                assert(!voxels.protects(x, y));
            }
            voxels.set(x, y, class == PixelClass::Terrain);
            killzones.set(x, y, class == PixelClass::Killzone);
            if class == PixelClass::Finish {
                let w: (i32, i32) = voxel_to_world(x, y);
                finishes.push(w);
                finish_coords.push((x, y));
                proof {
                    assert(world_positions(finish_coords@) =~= finishes@);
                }
            }
            if class == PixelClass::Spawn {
                spawn = voxel_to_world(x, y);
            }
            x = x + 1;
        }
        y = y + 1;
    }
    let required_finishes: RequiredFinishes = RequiredFinishes(finish_coords.len() as u32);
    voxels.set_finish_coords(finish_coords);
    proof {
        assert(pixel_order().take(16384) =~= pixel_order());
        assert(voxels@ =~= Set::new(
            |p: (int, int)|
                in_grid(p.0, p.1) && class_at(image@, p.0, p.1) == PixelClass::Terrain,
        ));
        assert(killzones@ =~= Set::new(
            |p: (int, int)|
                in_grid(p.0, p.1) && class_at(image@, p.0, p.1) == PixelClass::Killzone,
        ));
    }
    Level { voxels, killzones, finishes, spawn, required_finishes }
}

} // verus!
