//! The glyph cache's texture: its size, its options, and the pixels that a
//! rasterised glyph is written as.
use vstd::prelude::*;

use crate::graphics::textures::{MaxFilterMode, MinFilterMode, TextureFormat, TextureOptions, WrapMode};

verus! {

/// Width of the glyph cache texture, in pixels.
pub const CACHE_WIDTH: u32 = 1024;

/// Height of the glyph cache texture, in pixels.
pub const CACHE_HEIGHT: u32 = 1024;

/// Options of the glyph cache texture: RGBA, repeated, linear filtering.
pub fn cache_texture_options() -> (r: TextureOptions)
    ensures
        r == (TextureOptions {
            format: TextureFormat::Rgba,
            h_wrap_mode: WrapMode::Repeat,
            v_wrap_mode: WrapMode::Repeat,
            min_filter_mode: MinFilterMode::Linear,
            max_filter_mode: MaxFilterMode::Linear,
        }),
{
    TextureOptions {
        format: TextureFormat::Rgba,
        h_wrap_mode: WrapMode::Repeat,
        v_wrap_mode: WrapMode::Repeat,
        min_filter_mode: MinFilterMode::Linear,
        max_filter_mode: MaxFilterMode::Linear,
    }
}

/// The RGBA pixels of a rasterised glyph: each coverage value becomes one
/// pixel of the text colour, with the coverage as its alpha.
pub fn glyph_pixels(color: (u8, u8, u8), coverage: &[u8]) -> (r: Vec<u8>)
    requires
        4 * coverage@.len() <= usize::MAX,
    ensures
        r@.len() == 4 * coverage@.len(),
        forall|i: int|
            0 <= i < coverage@.len() ==> {
                &&& #[trigger] r@[4 * i] == color.0
                &&& r@[4 * i + 1] == color.1
                &&& r@[4 * i + 2] == color.2
                &&& r@[4 * i + 3] == coverage@[i]
            },
{
    let mut out: Vec<u8> = Vec::with_capacity(4 * coverage.len());
    let mut i: usize = 0;
    while i < coverage.len()
        invariant
            0 <= i <= coverage@.len(),
            out@.len() == 4 * i,
            forall|j: int|
                0 <= j < i ==> {
                    &&& #[trigger] out@[4 * j] == color.0
                    &&& out@[4 * j + 1] == color.1
                    &&& out@[4 * j + 2] == color.2
                    &&& out@[4 * j + 3] == coverage@[j]
                },
        decreases coverage@.len() - i,
    {
        let ghost before = out@;
        out.push(color.0);
        out.push(color.1);
        out.push(color.2);
        out.push(coverage[i]);
        proof {
            assert forall|j: int| 0 <= j <= i implies {
                &&& #[trigger] out@[4 * j] == color.0
                &&& out@[4 * j + 1] == color.1
                &&& out@[4 * j + 2] == color.2
                &&& out@[4 * j + 3] == coverage@[j]
            } by {
                if j < i {
                    assert(out@[4 * j] == before[4 * j]);
                    assert(out@[4 * j + 1] == before[4 * j + 1]);
                    assert(out@[4 * j + 2] == before[4 * j + 2]);
                    assert(out@[4 * j + 3] == before[4 * j + 3]);
                }
            }
        }
        i = i + 1;
    }
    out
}

} // verus!
