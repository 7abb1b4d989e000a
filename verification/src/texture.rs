use bevy::asset::RenderAssetUsages;
use bevy::image::{Image, ImageSampler};
use bevy::render::render_resource::{Extent3d, TextureDimension, TextureFormat};
use vstd::prelude::*;

verus! {

/// Bevy's `Image`. The library makes one and hands it on; it reads none.
#[verifier::external_type_specification]
#[verifier::external_body]
pub struct ExImage(Image);

/// The bytes that an image holds: its field `data`, or no byte where the
/// image has no data.
pub uninterp spec fn image_data(image: Image) -> Seq<u8>;

/// The width and the height of an image, in texels.
pub uninterp spec fn image_size(image: Image) -> (u32, u32);

/// The two-dimensional image of `width` x `height` texels that Bevy makes
/// of `bytes`, each texel one little-endian single-precision channel, with
/// the nearest-neighbour sampler.
pub uninterp spec fn nearest_texture(width: u32, height: u32, bytes: Seq<u8>) -> Image;

/// Calls `Image::new` with a single layer, the `R32Float` format and every
/// asset usage, then sets the image's sampler to `ImageSampler::nearest()`.
///
/// Trusted: `Image::new` is a function of its arguments alone; it stores the
/// size and keeps the bytes as they are. It asserts that the bytes fill the
/// size exactly, four to a texel, which the precondition asks for.
#[verifier::external_body]
pub(crate) fn nearest_r32_image(width: u32, height: u32, bytes: Vec<u8>) -> (image: Image)
    requires
        width * height <= u32::MAX,
        bytes@.len() == width * height * 4,
    ensures
        image == nearest_texture(width, height, bytes@),
        image_data(image) == bytes@,
        image_size(image) == (width, height),
{
    let size = Extent3d { width, height, depth_or_array_layers: 1 };
    let mut image = Image::new(
        size,
        TextureDimension::D2,
        bytes,
        TextureFormat::R32Float,
        RenderAssetUsages::all(),
    );
    image.sampler = ImageSampler::nearest();
    image
}

} // verus!
