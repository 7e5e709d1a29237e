use crate::id_map::IdMapKey;
use vstd::prelude::*;

verus! {

/// Handle of a texture registered with the renderer.
#[derive(Default, Debug, PartialEq, Eq, Structural, Clone, Copy)]
pub struct Texture2DHandle(pub u64);

impl IdMapKey for Texture2DHandle {
    open spec fn key_id(&self) -> u64 {
        self.0
    }

    fn from(id: u64) -> (key: Self) {
        Texture2DHandle(id)
    }

    fn to(&self) -> (id: u64) {
        self.0
    }
}

/// What `image::load_from_memory` decodes `bytes` to, as 8-bit RGBA: width, height and
/// pixels row by row; `None` where the bytes are no image it can read.
pub uninterp spec fn decoded_rgba8(bytes: Seq<u8>) -> Option<(u32, u32, Seq<u8>)>;

/// `image::load_from_memory` (format guessed from the bytes), then `to_rgba8`: the image's
/// width, height and RGBA pixels (four bytes each, row by row); `None` when it fails.
#[verifier::external_body]
fn decode_rgba8(bytes: &[u8]) -> (r: Option<(u32, u32, Vec<u8>)>)
    ensures
        decoded_rgba8(bytes@) == (match r {
            Some(t) => Some((t.0, t.1, t.2@)),
            None => None,
        }),
        r matches Some(t) ==> t.2.len() == 4 * t.0 * t.1,
{
    match image::load_from_memory(bytes) {
        Ok(img) => {
            let rgba = img.to_rgba8();
            let (width, height) = rgba.dimensions();
            Some((width, height, rgba.into_raw()))
        },
        Err(_) => None,
    }
}

/// How the pixels of a `width` by `height` RGBA texture are uploaded: one layer of that
/// size, rows of four bytes a pixel.
#[derive(Debug, Clone, Copy)]
pub struct TextureUpload {
    pub size: (u32, u32, u32),
    pub bytes_per_row: u32,
    pub rows_per_image: u32,
}

/// The upload of a `width` by `height` RGBA texture.
pub fn texture_upload(width: u32, height: u32) -> (u: TextureUpload)
    requires
        4 * width <= u32::MAX,
    ensures
        u.size == (width, height, 1u32),
        u.bytes_per_row == 4 * width,
        u.rows_per_image == height,
{
    TextureUpload { size: (width, height, 1), bytes_per_row: 4 * width, rows_per_image: height }
}

/// An image file decoded for a texture: its RGBA pixels and how to upload them. `None`
/// when the bytes are no image that can be read, or the image is too wide for its rows
/// to be counted in 32-bit bytes.
pub fn decode_texture(bytes: &[u8]) -> (r: Option<(Vec<u8>, TextureUpload)>)
    ensures
        match decoded_rgba8(bytes@) {
            None => r is None,
            Some((w, h, pixels)) => if 4 * w <= u32::MAX {
                r matches Some((data, u)) && data@ == pixels && data@.len() == 4 * w * h
                    && u == (TextureUpload {
                    size: (w, h, 1u32),
                    bytes_per_row: (4 * w) as u32,
                    rows_per_image: h,
                })
            } else {
                r is None
            },
        },
{
    match decode_rgba8(bytes) {
        None => None,
        Some((width, height, pixels)) => {
            if width > u32::MAX / 4 {
                return None;
            }
            let upload = texture_upload(width, height);
            Some((pixels, upload))
        },
    }
}

} // verus!
