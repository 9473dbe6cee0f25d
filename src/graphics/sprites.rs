//! Sprite sheets: a texture cut into a grid of equally sized sprites.
use vstd::prelude::*;

use crate::graphics::textures::{Texture, TextureView};

verus! {

/// A rectangle of a texture, in pixels: offset x, offset y, width, height.
pub type PixelRegion = (i64, i64, u32, u32);

/// The region of the sprite at grid cell (`x`, `y`) for sprites of this size.
pub open spec fn cell_region(sprite_width: u32, sprite_height: u32, x: i32, y: i32) -> PixelRegion {
    ((sprite_width * x) as i64, (sprite_height * y) as i64, sprite_width, sprite_height)
}

/// A texture sliced into rectangular sprites. The sheet owns the texture.
#[derive(Debug)]
pub struct SpriteSheet {
    texture: Texture,
    sprite_width: u32,
    sprite_height: u32,
}

impl SpriteSheet {
    pub closed spec fn spec_texture(&self) -> TextureView {
        self.texture@
    }

    pub closed spec fn spec_sprite_size(&self) -> (u32, u32) {
        (self.sprite_width, self.sprite_height)
    }

    /// A sheet over the texture, for sprites of this size in pixels.
    pub fn new(texture: Texture, sprite_width: u32, sprite_height: u32) -> (r: SpriteSheet)
        ensures
            r.spec_texture() == texture@,
            r.spec_sprite_size() == (sprite_width, sprite_height),
    {
        SpriteSheet { texture, sprite_width, sprite_height }
    }

    pub fn texture(&self) -> (r: &Texture)
        ensures
            r@ == self.spec_texture(),
    {
        &self.texture
    }

    /// The sprite at grid cell (`x`, `y`).
    pub fn sprite(&self, x: i32, y: i32) -> (r: Sprite<'_>)
        ensures
            r.spec_cell() == (x, y),
            r.spec_sheet() == self,
    {
        Sprite { sheet: self, x, y }
    }

    pub fn sprite_width(&self) -> (r: u32)
        ensures
            r == self.spec_sprite_size().0,
    {
        self.sprite_width
    }

    pub fn sprite_height(&self) -> (r: u32)
        ensures
            r == self.spec_sprite_size().1,
    {
        self.sprite_height
    }

    /// Where the sprite at grid cell (`x`, `y`) lies on the texture, in
    /// pixels. Dividing by the texture's size gives texture coordinates.
    pub fn pixel_region(&self, x: i32, y: i32) -> (r: PixelRegion)
        ensures
            r == cell_region(self.spec_sprite_size().0, self.spec_sprite_size().1, x, y),
    {
        let w = self.sprite_width as i64;
        let h = self.sprite_height as i64;
        assert(-0x8000_0000_0000_0000 < w * x < 0x8000_0000_0000_0000) by (nonlinear_arith)
            requires
                0 <= w < 0x1_0000_0000,
                -0x8000_0000 <= x < 0x8000_0000,
        ;
        assert(-0x8000_0000_0000_0000 < h * y < 0x8000_0000_0000_0000) by (nonlinear_arith)
            requires
                0 <= h < 0x1_0000_0000,
                -0x8000_0000 <= y < 0x8000_0000,
        ;
        (w * x as i64, h * y as i64, self.sprite_width, self.sprite_height)
    }
}

/// One tile of a sprite sheet.
#[derive(Debug)]
pub struct Sprite<'s> {
    sheet: &'s SpriteSheet,
    pub x: i32,
    pub y: i32,
}

impl<'s> Sprite<'s> {
    pub closed spec fn spec_sheet(&self) -> &'s SpriteSheet {
        self.sheet
    }

    /// The sprite's grid cell.
    pub closed spec fn spec_cell(&self) -> (i32, i32) {
        (self.x, self.y)
    }

    /// Texture used by this sprite.
    pub fn texture(&self) -> (r: &'s Texture)
        ensures
            r@ == self.spec_sheet().spec_texture(),
    {
        &self.sheet.texture
    }

    /// Where the sprite lies on the texture, in pixels.
    pub fn pixel_region(&self) -> (r: PixelRegion)
        ensures
            r == cell_region(
                self.spec_sheet().spec_sprite_size().0,
                self.spec_sheet().spec_sprite_size().1,
                self.spec_cell().0,
                self.spec_cell().1,
            ),
    {
        self.sheet.pixel_region(self.x, self.y)
    }
}

} // verus!
