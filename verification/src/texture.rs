use vstd::prelude::*;

verus! {

/// The error of the `image` crate, which this library passes on unread.
#[verifier::external_type_specification]
#[verifier::external_body]
pub struct ExImageError(image::ImageError);

/// Why an image makes no texture.
#[derive(Debug)]
pub enum TextureError {
    /// The bytes are no image that can be decoded.
    Decode(image::ImageError),
    /// A row of the image has more bytes than 32 bits can count.
    TooWide,
    /// The pixels are not four bytes for each texel of the image.
    WrongLength,
}

/// What is written to the GPU to fill a new texture: the pixels, eight bits
/// for each of red, green, blue and alpha, row after row, and how they are
/// laid out.
#[derive(Debug)]
pub struct TextureUpload {
    pub width: u32,
    pub height: u32,
    pub bytes_per_row: u32,
    pub rows_per_image: u32,
    pub pixels: Vec<u8>,
}

impl TextureUpload {
    /// The layout says what the pixels are: rows of `width` texels of four
    /// bytes, `height` of them.
    pub open spec fn wf(&self) -> bool {
        &&& self.bytes_per_row == 4 * self.width
        &&& self.rows_per_image == self.height
        &&& self.pixels@.len() == 4 * self.width * self.height
    }
}

/// What is made of what decoding ended in. The decoder's error is passed
/// on. Pixels are laid out in rows of `width` texels of four bytes, where a
/// row's bytes can be counted in 32 bits and the pixels are four bytes for
/// each texel of the image.
pub open spec fn laid_out(decoded: Result<(u32, u32, Vec<u8>), image::ImageError>) -> Result<
    TextureUpload,
    TextureError,
> {
    match decoded {
        Ok((width, height, pixels)) => if 4 * width > u32::MAX {
            Err(TextureError::TooWide)
        } else if pixels@.len() != 4 * width * height {
            Err(TextureError::WrongLength)
        } else {
            Ok(
                TextureUpload {
                    width,
                    height,
                    bytes_per_row: (4 * width) as u32,
                    rows_per_image: height,
                    pixels,
                },
            )
        },
        Err(error) => Err(TextureError::Decode(error)),
    }
}

/// Decodes an image with `image::load_from_memory` and hands out its width,
/// its height and its pixels as 8-bit RGBA (`to_rgba8`, `into_raw`).
///
/// Nothing is claimed of what comes back: which formats are known depends
/// on what the process has registered with the `image` crate.
#[verifier::external_body]
fn decode_rgba8(bytes: &[u8]) -> (decoded: Result<(u32, u32, Vec<u8>), image::ImageError>) {
    let decoded = image::load_from_memory(bytes)?;
    let size = image::GenericImageView::dimensions(&decoded);
    Ok((size.0, size.1, decoded.to_rgba8().into_raw()))
}

/// A handle on one GPU texture: the identifier of the resource and its size
/// in texels.
///
/// Two handles are `==` when they name the same resource, whatever sizes
/// they carry.
#[derive(Clone, Copy, Debug)]
pub struct Texture {
    id: u64,
    width: u32,
    height: u32,
}

impl Texture {
    pub closed spec fn spec_id(&self) -> u64 {
        self.id
    }

    pub closed spec fn spec_width(&self) -> u32 {
        self.width
    }

    pub closed spec fn spec_height(&self) -> u32 {
        self.height
    }

    /// Both handles name the same GPU resource.
    pub open spec fn same_resource(self, other: Texture) -> bool {
        self.spec_id() == other.spec_id()
    }

    pub fn new(id: u64, width: u32, height: u32) -> (t: Texture)
        ensures
            t.spec_id() == id,
            t.spec_width() == width,
            t.spec_height() == height,
    {
        Texture { id, width, height }
    }

    /// Lays out the pixels of an image of `width` by `height` texels for
    /// the GPU: exactly when a row's bytes can be counted in 32 bits and
    /// the pixels are four bytes for each texel.
    pub fn from_image(width: u32, height: u32, pixels: Vec<u8>) -> (upload: Result<
        TextureUpload,
        TextureError,
    >)
        ensures
            match upload {
                Ok(upload) => {
                    &&& upload.wf()
                    &&& upload.width == width
                    &&& upload.height == height
                    &&& upload.pixels == pixels
                },
                Err(TextureError::TooWide) => 4 * width > u32::MAX,
                Err(TextureError::WrongLength) => 4 * width <= u32::MAX && pixels@.len() != 4
                    * width * height,
                Err(TextureError::Decode(_)) => false,
            },
    {
        let bytes_per_row: u32 = match width.checked_mul(4) {
            Some(bytes) => bytes,
            None => { return Err(TextureError::TooWide); },
        };
        assert(bytes_per_row * height <= u64::MAX) by (nonlinear_arith)
            requires
                bytes_per_row <= u32::MAX,
                height <= u32::MAX,
        ;
        let wanted: u64 = bytes_per_row as u64 * height as u64;
        assert(wanted == 4 * width * height) by (nonlinear_arith)
            requires
                wanted == bytes_per_row * height,
                bytes_per_row == 4 * width,
        ;
        if pixels.len() as u64 != wanted {
            return Err(TextureError::WrongLength);
        }
        Ok(TextureUpload { width, height, bytes_per_row, rows_per_image: height, pixels })
    }

    /// Makes an upload of what decoding an image ended in: the decoder's
    /// error is passed on, and the pixels of a decoded image are laid out
    /// as [`Texture::from_image`] lays them out.
    pub fn from_decoded(decoded: Result<(u32, u32, Vec<u8>), image::ImageError>) -> (upload: Result<
        TextureUpload,
        TextureError,
    >)
        ensures
            upload == laid_out(decoded),
    {
        match decoded {
            Ok((width, height, pixels)) => Texture::from_image(width, height, pixels),
            Err(error) => Err(TextureError::Decode(error)),
        }
    }

    /// Decodes an image and lays out its pixels for the GPU.
    ///
    /// What comes of it is for the decoder to say. An upload that does come
    /// of it is laid out as [`Texture::from_image`] lays one out.
    pub fn from_bytes(bytes: &[u8]) -> (upload: Result<TextureUpload, TextureError>)
        ensures
            upload matches Ok(upload) ==> upload.wf(),
    {
        Texture::from_decoded(decode_rgba8(bytes))
    }

    #[verifier::when_used_as_spec(spec_id)]
    pub fn id(&self) -> (id: u64)
        ensures
            id == self.spec_id(),
    {
        self.id
    }

    #[verifier::when_used_as_spec(spec_width)]
    pub fn width(&self) -> (w: u32)
        ensures
            w == self.spec_width(),
    {
        self.width
    }

    #[verifier::when_used_as_spec(spec_height)]
    pub fn height(&self) -> (h: u32)
        ensures
            h == self.spec_height(),
    {
        self.height
    }
}

impl PartialEq for Texture {
    fn eq(&self, other: &Self) -> (b: bool) {
        self.id == other.id
    }
}

impl Eq for Texture {}

impl vstd::std_specs::cmp::PartialEqSpecImpl for Texture {
    open spec fn obeys_eq_spec() -> bool {
        true
    }

    open spec fn eq_spec(&self, other: &Self) -> bool {
        self.same_resource(*other)
    }
}

} // verus!
