//! Textures: sampling options, validation of pixel data, and the descriptor
//! of a texture that lives on the GPU.
//!
//! Creating a texture is split in two. `Texture::from_bytes` and
//! `Texture::load_from_bytes` check the pixels and decide every parameter of
//! the upload; the GPU side then performs a `TextureUpload` and turns it into
//! a `Texture` with the handle it allocated. Nothing is allocated for data
//! that is rejected.
use vstd::prelude::*;

verus! {

/// GPU handle of a texture.
pub type TextureID = u32;

#[verifier::external_type_specification]
#[verifier::external_body]
pub struct ExImageError(image::ImageError);

#[verifier::external_type_specification]
#[verifier::external_body]
pub struct ExIoError(std::io::Error);

/// Errors related to texture handling.
#[derive(Debug)]
pub enum TextureError {
    /// The texture's file could not be read.
    Io(std::io::Error),
    /// The image could not be decoded.
    ImageError(image::ImageError),
    /// The pixel data does not fit the size. Holds the length of one pixel
    /// in bytes, the width, the height and the data's length.
    InvalidTextureData(u32, u32, u32, usize),
}

impl From<std::io::Error> for TextureError {
    fn from(error: std::io::Error) -> (r: TextureError)
        ensures
            r == TextureError::Io(error),
    {
        TextureError::Io(error)
    }
}

impl vstd::std_specs::convert::FromSpecImpl<std::io::Error> for TextureError {
    open spec fn obeys_from_spec() -> bool {
        true
    }

    open spec fn from_spec(error: std::io::Error) -> TextureError {
        TextureError::Io(error)
    }
}

/// Layout of a pixel.
#[derive(Debug, Copy, Clone, PartialEq, Eq, Structural)]
pub enum TextureFormat {
    Rgb,
    Rgba,
}

impl TextureFormat {
    pub open spec fn spec_pixel_length(self) -> u32 {
        match self {
            TextureFormat::Rgb => 3,
            TextureFormat::Rgba => 4,
        }
    }

    /// Length of one pixel in a texture of this format, in bytes.
    pub fn pixel_length(self) -> (r: u32)
        ensures
            r == self.spec_pixel_length(),
    {
        match self {
            TextureFormat::Rgb => 3,
            TextureFormat::Rgba => 4,
        }
    }
}

/// How texture coordinates outside [0, 1] are mapped.
#[derive(Debug, Copy, Clone, PartialEq, Eq, Structural)]
pub enum WrapMode {
    ClampToEdge,
    ClampToBorder,
    MirroredRepeat,
    Repeat,
    MirrorClampToEdge,
}

/// Filtering used when a texture is drawn smaller than its size.
#[derive(Debug, Copy, Clone, PartialEq, Eq, Structural)]
pub enum MinFilterMode {
    Nearest,
    Linear,
    NearestMipmapNearest,
    LinearMipmapNearest,
    NearestMipmapLinear,
    LinearMipmapLinear,
}

impl MinFilterMode {
    pub open spec fn spec_uses_mipmaps(self) -> bool {
        !(self is Nearest || self is Linear)
    }

    /// The filter samples mipmaps, which must then be generated.
    pub fn uses_mipmaps(self) -> (r: bool)
        ensures
            r == self.spec_uses_mipmaps(),
    {
        match self {
            MinFilterMode::Nearest | MinFilterMode::Linear => false,
            MinFilterMode::NearestMipmapNearest
            | MinFilterMode::LinearMipmapNearest
            | MinFilterMode::NearestMipmapLinear
            | MinFilterMode::LinearMipmapLinear => true,
        }
    }
}

/// Filtering used when a texture is drawn larger than its size.
#[derive(Debug, Copy, Clone, PartialEq, Eq, Structural)]
pub enum MaxFilterMode {
    Nearest,
    Linear,
}

/// Options for texture display.
#[derive(Debug, Copy, Clone, PartialEq, Eq, Structural)]
pub struct TextureOptions {
    pub format: TextureFormat,
    pub h_wrap_mode: WrapMode,
    pub v_wrap_mode: WrapMode,
    pub min_filter_mode: MinFilterMode,
    pub max_filter_mode: MaxFilterMode,
}

impl Default for TextureOptions {
    /// RGBA pixels, repeated in both directions, nearest filtering with
    /// mipmaps when minified.
    fn default() -> (r: Self)
        ensures
            r.format == TextureFormat::Rgba,
            r.h_wrap_mode == WrapMode::Repeat,
            r.v_wrap_mode == WrapMode::Repeat,
            r.min_filter_mode == MinFilterMode::NearestMipmapNearest,
            r.max_filter_mode == MaxFilterMode::Nearest,
    {
        TextureOptions {
            format: TextureFormat::Rgba,
            h_wrap_mode: WrapMode::Repeat,
            v_wrap_mode: WrapMode::Repeat,
            min_filter_mode: MinFilterMode::NearestMipmapNearest,
            max_filter_mode: MaxFilterMode::Nearest,
        }
    }
}

/// What image decoding makes of `data`: RGBA pixels, width and height, or
/// nothing when the bytes are not an image that can be decoded.
pub uninterp spec fn decoded_rgba(data: Seq<u8>) -> Option<(Seq<u8>, u32, u32)>;

/// Relies on `image::load_from_memory`, which guesses the format from the
/// bytes and decodes them, and on `DynamicImage::to_rgba`, which converts the
/// pixels to 8-bit RGBA in a fresh buffer of four bytes per pixel
/// (`ImageBuffer::new`). Both depend on the bytes alone.
#[verifier::external_body]
fn decode_rgba(data: &[u8]) -> (r: Result<(Vec<u8>, u32, u32), image::ImageError>)
    ensures
        match r {
            Ok((pixels, width, height)) => {
                &&& decoded_rgba(data@) == Some((pixels@, width, height))
                &&& pixels@.len() == 4 * width * height
            },
            Err(_) => decoded_rgba(data@) is None,
        },
{
    #[allow(deprecated)]
    let img = image::load_from_memory(data)?.to_rgba();
    let (width, height) = img.dimensions();
    Ok((img.into_raw(), width, height))
}

/// Everything the GPU side needs to create a texture whose data was checked.
#[derive(Debug)]
pub struct TextureUpload {
    /// The pixels, row by row.
    pub pixels: Vec<u8>,
    pub width: u32,
    pub height: u32,
    pub options: TextureOptions,
    /// Mipmaps must be generated after the pixels are uploaded.
    pub generate_mipmaps: bool,
}

impl TextureUpload {
    /// The upload creates a texture of these pixels, size and options.
    pub open spec fn describes(
        self,
        pixels: Seq<u8>,
        options: TextureOptions,
        width: u32,
        height: u32,
    ) -> bool {
        &&& self.pixels@ == pixels
        &&& self.width == width
        &&& self.height == height
        &&& self.options == options
        &&& self.generate_mipmaps == options.min_filter_mode.spec_uses_mipmaps()
    }

    /// The texture that this upload created, under the handle that the GPU
    /// gave it.
    pub fn finish(self, id: TextureID) -> (r: Texture)
        ensures
            r@ == (TextureView {
                id,
                width: self.width,
                height: self.height,
                options: self.options,
            }),
    {
        Texture { id, width: self.width, height: self.height, options: self.options }
    }
}

/// The data length that a texture of this size and format needs.
pub open spec fn expected_len(options: TextureOptions, width: u32, height: u32) -> int {
    options.format.spec_pixel_length() * width * height
}

/// What `Texture::from_bytes` returns for these pixels.
pub open spec fn checked_upload(
    r: Result<TextureUpload, TextureError>,
    pixels: Seq<u8>,
    options: TextureOptions,
    width: u32,
    height: u32,
) -> bool {
    if pixels.len() == expected_len(options, width, height) {
        r is Ok && r->Ok_0.describes(pixels, options, width, height)
    } else {
        r == Err::<TextureUpload, TextureError>(
            TextureError::InvalidTextureData(
                options.format.spec_pixel_length(),
                width,
                height,
                pixels.len() as usize,
            ),
        )
    }
}

/// A texture, as mathematical values.
pub struct TextureView {
    pub id: TextureID,
    pub width: u32,
    pub height: u32,
    pub options: TextureOptions,
}

/// A texture created on the GPU, with its size and options.
///
/// A `Texture` is neither `Copy` nor `Clone`: one value owns the GPU object,
/// so that it is released exactly once.
#[derive(Debug)]
pub struct Texture {
    id: TextureID,
    width: u32,
    height: u32,
    options: TextureOptions,
}

/// Textures are equal when they are the same GPU object.
impl PartialEq for Texture {
    fn eq(&self, other: &Texture) -> (r: bool)
        ensures
            r == (self@.id == other@.id),
    {
        self.id == other.id
    }
}

impl vstd::std_specs::cmp::PartialEqSpecImpl for Texture {
    open spec fn obeys_eq_spec() -> bool {
        true
    }

    open spec fn eq_spec(&self, other: &Texture) -> bool {
        self@.id == other@.id
    }
}

impl View for Texture {
    type V = TextureView;

    closed spec fn view(&self) -> TextureView {
        TextureView { id: self.id, width: self.width, height: self.height, options: self.options }
    }
}

impl Texture {
    /// Handle of the texture on the GPU.
    pub fn id(&self) -> (r: TextureID)
        ensures
            r == self@.id,
    {
        self.id
    }

    /// Size of the texture in pixels, width then height.
    pub fn size(&self) -> (r: (u32, u32))
        ensures
            r == (self@.width, self@.height),
    {
        (self.width, self.height)
    }

    /// Width of the texture in pixels.
    pub fn width(&self) -> (r: u32)
        ensures
            r == self@.width,
    {
        self.width
    }

    /// Height of the texture in pixels.
    pub fn height(&self) -> (r: u32)
        ensures
            r == self@.height,
    {
        self.height
    }

    pub fn options(&self) -> (r: &TextureOptions)
        ensures
            *r == self@.options,
    {
        &self.options
    }

    /// Checks raw pixel data against the size and format, and plans the
    /// upload. The data must hold exactly `pixel_length * width * height`
    /// bytes; otherwise `InvalidTextureData` is returned.
    pub fn from_bytes(data: &[u8], options: TextureOptions, width: u32, height: u32) -> (r: Result<
        TextureUpload,
        TextureError,
    >)
        ensures
            checked_upload(r, data@, options, width, height),
    {
        let pixel_length = options.format.pixel_length();
        let row = pixel_length as u64 * width as u64;
        assert(row == pixel_length * width) by (nonlinear_arith)
            requires
                pixel_length <= 4,
                row == pixel_length as u64 * width as u64,
        ;
        let fits = match row.checked_mul(height as u64) {
            Some(expected) => data.len() as u64 == expected,
            None => false,
        };
        if !fits {
            return Err(TextureError::InvalidTextureData(pixel_length, width, height, data.len()));
        }
        let pixels = vstd::slice::slice_to_vec(data);
        Ok(
            TextureUpload {
                pixels,
                width,
                height,
                options,
                generate_mipmaps: options.min_filter_mode.uses_mipmaps(),
            },
        )
    }

    /// Decodes an encoded image, converts it to RGBA and plans its upload
    /// with these options. A decodable image always fits RGBA options.
    pub fn load_from_bytes(data: &[u8], options: TextureOptions) -> (r: Result<
        TextureUpload,
        TextureError,
    >)
        ensures
            decoded_rgba(data@) is None <==> r matches Err(TextureError::ImageError(_)),
            decoded_rgba(data@) matches Some((pixels, width, height)) ==> checked_upload(
                r,
                pixels,
                options,
                width,
                height,
            ),
            decoded_rgba(data@) is Some && options.format == TextureFormat::Rgba ==> r is Ok,
    {
        match decode_rgba(data) {
            Err(e) => Err(TextureError::ImageError(e)),
            Ok((pixels, width, height)) => Texture::from_bytes(pixels.as_slice(), options, width, height),
        }
    }
}

} // verus!
