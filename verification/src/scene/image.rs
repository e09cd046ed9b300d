//! The image normalizer: any supported source pixel format becomes 8-bit
//! RGBA.

use crate::scene::error::GltfSceneError;
use vstd::prelude::*;

verus! {

/// How the samples of a source image are laid out.
#[derive(Clone, Copy, Debug, PartialEq, Eq, Structural)]
pub enum PixelFormat {
    /// Red only.
    R8,
    /// Red, green.
    R8G8,
    /// Red, green, blue.
    R8G8B8,
    /// Red, green, blue, alpha.
    R8G8B8A8,
    /// Blue, green, red.
    B8G8R8,
    /// Blue, green, red, alpha.
    B8G8R8A8,
    /// Red only, 16 bits.
    R16,
    /// Red, green, 16 bits each.
    R16G16,
    /// Red, green, blue, 16 bits each.
    R16G16B16,
    /// Red, green, blue, alpha, 16 bits each.
    R16G16B16A16,
}

impl PixelFormat {
    /// Whether the normalizer has a rule for this format.
    pub open spec fn supported(self) -> bool {
        match self {
            PixelFormat::R8
            | PixelFormat::R8G8
            | PixelFormat::R8G8B8
            | PixelFormat::R8G8B8A8
            | PixelFormat::B8G8R8
            | PixelFormat::B8G8R8A8 => true,
            _ => false,
        }
    }

    /// Bytes that one source pixel takes; `0` for a format without a rule.
    pub open spec fn stride(self) -> nat {
        match self {
            PixelFormat::R8 => 1,
            PixelFormat::R8G8 => 2,
            PixelFormat::R8G8B8 | PixelFormat::B8G8R8 => 3,
            PixelFormat::R8G8B8A8 | PixelFormat::B8G8R8A8 => 4,
            _ => 0,
        }
    }

    /// Bytes that one source pixel takes, or `None` for a format that the
    /// normalizer has no rule for.
    pub fn bytes_per_pixel(self) -> (n: Option<usize>)
        ensures
            self.supported() <==> n is Some,
            n matches Some(k) ==> k == self.stride() && 1 <= k <= 4,
    {
        match self {
            PixelFormat::R8 => Some(1),
            PixelFormat::R8G8 => Some(2),
            PixelFormat::R8G8B8 | PixelFormat::B8G8R8 => Some(3),
            PixelFormat::R8G8B8A8 | PixelFormat::B8G8R8A8 => Some(4),
            _ => None,
        }
    }
}

/// The RGBA value of source pixel `i`: missing colour channels are `0`, a
/// missing alpha is `255`, and blue-first formats are reordered.
pub open spec fn rgba_of(pixels: Seq<u8>, format: PixelFormat, i: int) -> Seq<u8> {
    match format {
        PixelFormat::R8 => seq![pixels[i], 0u8, 0u8, 255u8],
        PixelFormat::R8G8 => seq![pixels[2 * i], pixels[2 * i + 1], 0u8, 255u8],
        PixelFormat::R8G8B8 => seq![pixels[3 * i], pixels[3 * i + 1], pixels[3 * i + 2], 255u8],
        PixelFormat::B8G8R8 => seq![pixels[3 * i + 2], pixels[3 * i + 1], pixels[3 * i], 255u8],
        PixelFormat::R8G8B8A8 => seq![
            pixels[4 * i],
            pixels[4 * i + 1],
            pixels[4 * i + 2],
            pixels[4 * i + 3],
        ],
        PixelFormat::B8G8R8A8 => seq![
            pixels[4 * i + 2],
            pixels[4 * i + 1],
            pixels[4 * i],
            pixels[4 * i + 3],
        ],
        _ => Seq::empty(),
    }
}

/// The RGBA buffer of the first `count` source pixels: four bytes for each,
/// in pixel order.
pub open spec fn normalized(pixels: Seq<u8>, format: PixelFormat, count: nat) -> Seq<u8> {
    Seq::new(4 * count, |k: int| rgba_of(pixels, format, k / 4)[k % 4])
}

/// A decoded source image, in the format its file had.
#[derive(Clone, Debug, PartialEq, Eq)]
pub struct SourceImage {
    pub pixels: Vec<u8>,
    pub format: PixelFormat,
    pub width: u32,
    pub height: u32,
}

/// A normalized image: `bytes` holds one RGBA pixel of four bytes for each
/// of the `width * height` pixels.
#[derive(Clone, Debug, PartialEq, Eq)]
pub struct ImageData {
    pub width: u32,
    pub height: u32,
    pub bytes: Vec<u8>,
}

impl SourceImage {
    /// The number of pixels.
    pub open spec fn pixel_count(self) -> nat {
        (self.width * self.height) as nat
    }

    /// The pixel data holds every pixel, and the normalized buffer can be
    /// addressed.
    pub open spec fn fits(self) -> bool {
        &&& self.pixel_count() * self.format.stride() <= self.pixels@.len()
        &&& 4 * self.pixel_count() <= usize::MAX
    }
}

/// What an `ImageData` holds, as plain mathematics.
pub struct ImageModel {
    pub width: u32,
    pub height: u32,
    pub bytes: Seq<u8>,
}

impl View for ImageData {
    type V = ImageModel;

    open spec fn view(&self) -> ImageModel {
        ImageModel { width: self.width, height: self.height, bytes: self.bytes@ }
    }
}

impl ImageModel {
    /// The normalized form of `source`.
    pub open spec fn of(source: SourceImage) -> ImageModel {
        ImageModel {
            width: source.width,
            height: source.height,
            bytes: normalized(source.pixels@, source.format, source.pixel_count()),
        }
    }

    /// The image that the scene keeps of `source`: the normalized image,
    /// unless its format is one without a rule.
    pub open spec fn admitted(source: SourceImage) -> Result<ImageModel, GltfSceneError> {
        if !source.format.supported() {
            Err(GltfSceneError::UnsupportedImageFormat)
        } else {
            Ok(ImageModel::of(source))
        }
    }

    /// The single opaque white pixel that stands in for a missing texture.
    pub open spec fn white() -> ImageModel {
        ImageModel { width: 1, height: 1, bytes: seq![255u8, 255u8, 255u8, 255u8] }
    }
}

/// Reads source pixel `index` and expands it to RGBA.
///
/// A format outside the table is an error; the pixel itself must lie inside
/// `pixels`.
pub fn get_next_rgba(pixels: &[u8], format: PixelFormat, index: usize) -> (rgba: Result<
    [u8; 4],
    GltfSceneError,
>)
    requires
        format.supported() ==> (index + 1) * format.stride() <= pixels@.len(),
    ensures
        match rgba {
            Ok(px) => format.supported() && px@ == rgba_of(pixels@, format, index as int),
            Err(e) => !format.supported() && e == GltfSceneError::UnsupportedImageFormat,
        },
{
    let stride: usize = match format.bytes_per_pixel() {
        Some(n) => n,
        None => {
            return Err(GltfSceneError::UnsupportedImageFormat);
        },
    };
    let len: usize = pixels.len();
    assert(0 <= index * stride && index * stride + stride <= len) by (nonlinear_arith)
        requires
            (index + 1) * stride <= len,
            0 <= index,
            0 <= stride,
    ;
    let at: usize = index * stride;
    match format {
        PixelFormat::R8 => {
            assert(at == index) by (nonlinear_arith)
                requires
                    at == index * stride,
                    stride == 1,
            ;
            Ok([pixels[at], 0, 0, u8::MAX])
        },
        PixelFormat::R8G8 => {
            assert(at == 2 * index) by (nonlinear_arith)
                requires
                    at == index * stride,
                    stride == 2,
            ;
            Ok([pixels[at], pixels[at + 1], 0, u8::MAX])
        },
        PixelFormat::R8G8B8 => {
            assert(at == 3 * index) by (nonlinear_arith)
                requires
                    at == index * stride,
                    stride == 3,
            ;
            Ok([pixels[at], pixels[at + 1], pixels[at + 2], u8::MAX])
        },
        PixelFormat::B8G8R8 => {
            assert(at == 3 * index) by (nonlinear_arith)
                requires
                    at == index * stride,
                    stride == 3,
            ;
            Ok([pixels[at + 2], pixels[at + 1], pixels[at], u8::MAX])
        },
        PixelFormat::R8G8B8A8 => {
            assert(at == 4 * index) by (nonlinear_arith)
                requires
                    at == index * stride,
                    stride == 4,
            ;
            Ok([pixels[at], pixels[at + 1], pixels[at + 2], pixels[at + 3]])
        },
        PixelFormat::B8G8R8A8 => {
            assert(at == 4 * index) by (nonlinear_arith)
                requires
                    at == index * stride,
                    stride == 4,
            ;
            Ok([pixels[at + 2], pixels[at + 1], pixels[at], pixels[at + 3]])
        },
        _ => Err(GltfSceneError::UnsupportedImageFormat),
    }
}

/// Normalizes a whole image: one RGBA pixel for each source pixel, in order.
pub fn build_rgba_buffer(image: &SourceImage) -> (buffer: Result<Vec<u8>, GltfSceneError>)
    requires
        image.format.supported() ==> image.fits(),
    ensures
        match buffer {
            Ok(bytes) => image.format.supported() && bytes@ == normalized(
                image.pixels@,
                image.format,
                image.pixel_count(),
            ),
            Err(e) => !image.format.supported() && e == GltfSceneError::UnsupportedImageFormat,
        },
{
    let stride: usize = match image.format.bytes_per_pixel() {
        Some(n) => n,
        None => {
            return Err(GltfSceneError::UnsupportedImageFormat);
        },
    };
    let width: usize = image.width as usize;
    proof {
        assert(image.width * image.height <= 4 * image.pixel_count());
    }
    let size: usize = width * (image.height as usize);
    let mut buffer: Vec<u8> = Vec::new();
    let mut index: usize = 0;
    while index < size
        invariant
            index <= size,
            size == image.pixel_count(),
            image.format.supported(),
            stride == image.format.stride(),
            size * stride <= image.pixels@.len(),
            buffer@ == normalized(image.pixels@, image.format, index as nat),
        decreases size - index,
    {
        proof {
            assert((index + 1) * stride <= size * stride) by (nonlinear_arith)
                requires
                    index + 1 <= size,
                    0 <= stride,
            ;
        }
        let rgba = match get_next_rgba(image.pixels.as_slice(), image.format, index) {
            Ok(px) => px,
            Err(e) => {
                return Err(e);
            },
        };
        let ghost before = buffer@;
        buffer.push(rgba[0]);
        buffer.push(rgba[1]);
        buffer.push(rgba[2]);
        buffer.push(rgba[3]);
        proof {
            let next = normalized(image.pixels@, image.format, (index + 1) as nat);
            assert(buffer@.len() == next.len());
            assert forall|k: int| 0 <= k < next.len() implies buffer@[k] == next[k] by {
                if k < 4 * index {
                    assert(buffer@[k] == before[k]);
                } else {
                    assert(k / 4 == index as int);
                    assert(k % 4 == k - 4 * index);
                }
            }
            assert(buffer@ =~= next);
        }
        index = index + 1;
    }
    Ok(buffer)
}

impl SourceImage {
    /// Whether the image can be normalized without reading past its pixel
    /// data: true of every image in a format without a rule, which is
    /// refused before a pixel is read.
    pub fn is_complete(&self) -> (ok: bool)
        ensures
            ok == (self.format.supported() ==> self.fits()),
    {
        match self.format.bytes_per_pixel() {
            None => true,
            Some(stride) => {
                let width: u128 = self.width as u128;
                let height: u128 = self.height as u128;
                assert(0 <= width * height <= 0xffff_ffff * 0xffff_ffff) by (nonlinear_arith)
                    requires
                        0 <= width <= 0xffff_ffff,
                        0 <= height <= 0xffff_ffff,
                ;
                let count: u128 = width * height;
                assert(0 <= count * stride <= 4 * (0xffff_ffff * 0xffff_ffff)) by (nonlinear_arith)
                    requires
                        0 <= count <= 0xffff_ffff * 0xffff_ffff,
                        0 <= stride <= 4,
                ;
                count * (stride as u128) <= self.pixels.len() as u128 && 4 * count
                    <= usize::MAX as u128
            },
        }
    }
}

impl ImageData {
    /// Normalizes `source` and keeps its size.
    pub fn new(source: &SourceImage) -> (image: Result<ImageData, GltfSceneError>)
        requires
            source.format.supported() ==> source.fits(),
        ensures
            match image {
                Ok(data) => ImageModel::admitted(*source) == Ok::<_, GltfSceneError>(data@),
                Err(e) => ImageModel::admitted(*source) == Err::<ImageModel, _>(e),
            },
    {
        match build_rgba_buffer(source) {
            Ok(bytes) => Ok(ImageData { width: source.width, height: source.height, bytes }),
            Err(e) => Err(e),
        }
    }

    /// One opaque white pixel.
    pub fn white() -> (image: ImageData)
        ensures
            image@ == ImageModel::white(),
    {
        let mut bytes: Vec<u8> = Vec::new();
        bytes.push(255);
        bytes.push(255);
        bytes.push(255);
        bytes.push(255);
        assert(bytes@ =~= seq![255u8, 255u8, 255u8, 255u8]);
        ImageData { width: 1, height: 1, bytes }
    }
}

} // verus!
