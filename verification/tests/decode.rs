use living_terrain::decode::{classify, spawn_level, LevelImage, PixelClass};
use living_terrain::terrain::RequiredFinishes;

const TERRAIN: [u8; 3] = [0x1A, 0x1C, 0x2C];
const KILLZONE: [u8; 3] = [0xB1, 0x3E, 0x53];
const SPAWN: [u8; 3] = [0x56, 0x6C, 0x86];
const FINISH: [u8; 3] = [0x73, 0xEF, 0xF7];

fn image_with(pixels: &[(u32, u32, [u8; 3])]) -> LevelImage {
    let mut bytes = vec![0u8; 128 * 128 * 4];
    for chunk in bytes.chunks_mut(4) {
        chunk[3] = 0xFF;
    }
    for &(x, y, rgb) in pixels {
        let at = 4 * (y as usize * 128 + x as usize);
        bytes[at..at + 3].copy_from_slice(&rgb);
    }
    LevelImage::from_rgba8(128, 128, bytes).unwrap()
}

#[test]
fn palette_colours_are_classified() {
    assert_eq!(classify(0x1A, 0x1C, 0x2C), PixelClass::Terrain);
    assert_eq!(classify(0xB1, 0x3E, 0x53), PixelClass::Killzone);
    assert_eq!(classify(0x56, 0x6C, 0x86), PixelClass::Spawn);
    assert_eq!(classify(0x73, 0xEF, 0xF7), PixelClass::Finish);
}

#[test]
fn other_colours_are_void() {
    assert_eq!(classify(0, 0, 0), PixelClass::Void);
    assert_eq!(classify(255, 255, 255), PixelClass::Void);
    assert_eq!(classify(0x1A, 0x1C, 0x2D), PixelClass::Void);
    assert_eq!(classify(0x1B, 0x1C, 0x2C), PixelClass::Void);
    assert_eq!(classify(0x1A, 0x1D, 0x2C), PixelClass::Void);
    assert_eq!(classify(0xB1, 0x3E, 0x52), PixelClass::Void);
    assert_eq!(classify(0x2C, 0x1C, 0x1A), PixelClass::Void);
}

#[test]
fn image_of_another_size_is_no_level_image() {
    assert!(LevelImage::from_rgba8(128, 128, vec![0u8; 65536]).is_some());
    assert!(LevelImage::from_rgba8(127, 128, vec![0u8; 127 * 128 * 4]).is_none());
    assert!(LevelImage::from_rgba8(128, 129, vec![0u8; 128 * 129 * 4]).is_none());
    assert!(LevelImage::from_rgba8(64, 256, vec![0u8; 65536]).is_none());
    assert!(LevelImage::from_rgba8(128, 128, vec![0u8; 65535]).is_none());
    assert!(LevelImage::from_rgba8(128, 128, Vec::new()).is_none());
    assert!(LevelImage::from_rgba8(0, 0, Vec::new()).is_none());
}

#[test]
fn pixel_class_reads_row_major_bytes() {
    let image = image_with(&[(1, 0, TERRAIN), (0, 1, KILLZONE), (127, 127, FINISH)]);
    assert_eq!(image.pixel_class(1, 0), PixelClass::Terrain);
    assert_eq!(image.pixel_class(0, 1), PixelClass::Killzone);
    assert_eq!(image.pixel_class(127, 127), PixelClass::Finish);
    assert_eq!(image.pixel_class(0, 0), PixelClass::Void);
    assert_eq!(image.pixel_class(1, 1), PixelClass::Void);
}

#[test]
fn alpha_has_no_part_in_the_class() {
    let mut bytes = vec![0u8; 65536];
    bytes[0..4].copy_from_slice(&[0x1A, 0x1C, 0x2C, 0x00]);
    bytes[4..8].copy_from_slice(&[0x1A, 0x1C, 0x2C, 0x7F]);
    let image = LevelImage::from_rgba8(128, 128, bytes).unwrap();
    assert_eq!(image.pixel_class(0, 0), PixelClass::Terrain);
    assert_eq!(image.pixel_class(1, 0), PixelClass::Terrain);
}

#[test]
fn empty_image_gives_an_empty_level() {
    let level = spawn_level(&image_with(&[]));
    assert_eq!(level.voxels.total(), 0);
    assert_eq!(level.killzones.collider(), None);
    assert!(level.finishes.is_empty());
    assert_eq!(level.spawn, (0, 0));
    assert_eq!(level.required_finishes, RequiredFinishes(0));
}

#[test]
fn each_class_lands_in_its_own_layer() {
    let level = spawn_level(&image_with(&[
        (10, 20, TERRAIN),
        (11, 20, TERRAIN),
        (30, 40, KILLZONE),
        (50, 60, FINISH),
        (70, 80, SPAWN),
    ]));
    assert!(level.voxels.get(10, 20));
    assert!(level.voxels.get(11, 20));
    assert_eq!(level.voxels.total(), 2);

    assert!(level.killzones.get(30, 40));
    assert!(!level.killzones.get(10, 20));
    assert_eq!(level.killzones.collider(), Some(vec![(30 - 64, 63 - 40)]));

    assert_eq!(level.finishes, vec![((50 - 64) * 20, (63 - 60) * 20)]);
    assert!(level.voxels.is_finish(50, 60));
    assert!(!level.voxels.get(50, 60));
    assert_eq!(level.required_finishes, RequiredFinishes(1));

    assert_eq!(level.spawn, ((70 - 64) * 20, (63 - 80) * 20));
    assert!(!level.voxels.get(70, 80));
}

#[test]
fn finishes_come_in_row_major_order() {
    let level = spawn_level(&image_with(&[
        (100, 5, FINISH),
        (3, 9, FINISH),
        (2, 5, FINISH),
        (127, 0, FINISH),
    ]));
    assert_eq!(
        level.finishes,
        vec![(1260, 1260), (-1240, 1160), (720, 1160), (-1220, 1080)]
    );
    assert_eq!(level.required_finishes, RequiredFinishes(4));
    for (x, y) in [(127, 0), (2, 5), (100, 5), (3, 9)] {
        assert!(level.voxels.is_finish(x, y));
    }
    assert!(!level.voxels.is_finish(0, 127));
}

#[test]
fn last_spawn_pixel_in_row_major_order_wins() {
    let level = spawn_level(&image_with(&[
        (100, 10, SPAWN),
        (5, 11, SPAWN),
        (120, 3, SPAWN),
    ]));
    assert_eq!(level.spawn, ((5 - 64) * 20, (63 - 11) * 20));

    let level = spawn_level(&image_with(&[(0, 0, SPAWN), (1, 0, SPAWN)]));
    assert_eq!(level.spawn, ((1 - 64) * 20, 63 * 20));
}

#[test]
fn finish_voxels_of_a_level_stay_empty() {
    let mut level = spawn_level(&image_with(&[(8, 8, FINISH), (9, 8, TERRAIN)]));
    level.voxels.set(8, 8, true);
    assert!(!level.voxels.get(8, 8));
    level.voxels.set(9, 8, false);
    assert!(!level.voxels.get(9, 8));
    level.voxels.set(9, 8, true);
    assert!(level.voxels.get(9, 8));
}
