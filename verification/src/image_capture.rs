//! Image capture for headless rendering: copying a rendered texture into a
//! readable buffer, and the pure byte-layout work needed to turn the padded
//! copy into a tightly packed RGBA image.

use vstd::prelude::*;

use crate::gpu;
use crate::resource_manager::{Handle, HandleId, ResourceKind, ResourceManager};

verus! {

/// Errors that can occur during image capture operations.
#[derive(Debug)]
pub enum ImageCaptureError {
    InvalidTexture(String),
    MappingFailed(String),
    WriteFailed(String),
    UnsupportedFormat(String),
}

impl ImageCaptureError {
    /// A human-readable description of the error.
    pub fn message(&self) -> (r: String)
        ensures
            (self matches ImageCaptureError::InvalidTexture(m) ==> r@ == "Invalid texture: "@
                + m@),
            (self matches ImageCaptureError::MappingFailed(m) ==> r@
                == "Buffer mapping failed: "@ + m@),
            (self matches ImageCaptureError::WriteFailed(m) ==> r@ == "Image write failed: "@
                + m@),
            (self matches ImageCaptureError::UnsupportedFormat(m) ==> r@
                == "Unsupported format: "@ + m@),
    {
        match self {
            ImageCaptureError::InvalidTexture(m) => "Invalid texture: ".to_owned().concat(
                m.as_str(),
            ),
            ImageCaptureError::MappingFailed(m) => "Buffer mapping failed: ".to_owned().concat(
                m.as_str(),
            ),
            ImageCaptureError::WriteFailed(m) => "Image write failed: ".to_owned().concat(
                m.as_str(),
            ),
            ImageCaptureError::UnsupportedFormat(m) => "Unsupported format: ".to_owned().concat(
                m.as_str(),
            ),
        }
    }
}

/// Whether characters `a` and `b` are the same letter up to ASCII case.
pub open spec fn char_eq_ignore_ascii_case(a: char, b: char) -> bool {
    ||| a == b
    ||| (65 <= a as u32 <= 90 && a as u32 + 32 == b as u32)
    ||| (65 <= b as u32 <= 90 && b as u32 + 32 == a as u32)
}

/// Whether two strings are equal up to ASCII case.
pub open spec fn eq_ignore_ascii_case(s: Seq<char>, t: Seq<char>) -> bool {
    s.len() == t.len() && forall|i: int|
        0 <= i < s.len() ==> char_eq_ignore_ascii_case(s[i], t[i])
}

/// Compare two strings for equality up to ASCII case.
fn str_eq_ignore_ascii_case(s: &str, t: &str) -> (r: bool)
    ensures
        r == eq_ignore_ascii_case(s@, t@),
{
    let n = s.unicode_len();
    if n != t.unicode_len() {
        return false;
    }
    let mut i: usize = 0;
    while i < n
        invariant
            i <= n,
            n == s@.len(),
            n == t@.len(),
            forall|k: int| 0 <= k < i ==> char_eq_ignore_ascii_case(s@[k], t@[k]),
        decreases n - i,
    {
        let a = s.get_char(i) as u32;
        let b = t.get_char(i) as u32;
        let same = a == b || (65 <= a && a <= 90 && a + 32 == b) || (65 <= b && b <= 90 && b + 32
            == a);
        if !same {
            return false;
        }
        i = i + 1;
    }
    true
}

/// Two distinct lowercase-letter first characters cannot both match the
/// same string up to ASCII case.
proof fn lemma_ci_first_char_separates(s: Seq<char>, t1: Seq<char>, t2: Seq<char>)
    requires
        eq_ignore_ascii_case(s, t1),
        t1.len() == t2.len(),
        t1.len() > 0,
        97 <= t1[0] as u32 <= 122,
        97 <= t2[0] as u32 <= 122,
        t1[0] as u32 != t2[0] as u32,
    ensures
        !eq_ignore_ascii_case(s, t2),
{
    if eq_ignore_ascii_case(s, t2) {
        assert(char_eq_ignore_ascii_case(s[0], t1[0]));
        assert(char_eq_ignore_ascii_case(s[0], t2[0]));
        assert(false);
    }
}

/// Supported image output formats.
#[derive(Debug, Clone, Copy, PartialEq, Eq, Structural)]
pub enum ImageFormat {
    Png,
    Jpeg,
    Bmp,
}

impl ImageFormat {
    /// Get the file extension for this format.
    pub fn extension(&self) -> (r: &'static str)
        ensures
            (*self is Png ==> r@ == "png"@),
            (*self is Jpeg ==> r@ == "jpg"@),
            (*self is Bmp ==> r@ == "bmp"@),
    {
        match self {
            ImageFormat::Png => "png",
            ImageFormat::Jpeg => "jpg",
            ImageFormat::Bmp => "bmp",
        }
    }

    /// Parse a format name, ignoring letter case.
    pub fn from_str(s: &str) -> (r: Result<ImageFormat, ImageCaptureError>)
        ensures
            r == Ok::<ImageFormat, ImageCaptureError>(ImageFormat::Png) <==> eq_ignore_ascii_case(
                s@,
                "png"@,
            ),
            r == Ok::<ImageFormat, ImageCaptureError>(ImageFormat::Jpeg) <==> (
            eq_ignore_ascii_case(s@, "jpg"@) || eq_ignore_ascii_case(s@, "jpeg"@)),
            r == Ok::<ImageFormat, ImageCaptureError>(ImageFormat::Bmp) <==> eq_ignore_ascii_case(
                s@,
                "bmp"@,
            ),
            r is Err <==> !(eq_ignore_ascii_case(s@, "png"@) || eq_ignore_ascii_case(s@, "jpg"@)
                || eq_ignore_ascii_case(s@, "jpeg"@) || eq_ignore_ascii_case(s@, "bmp"@)),
            r matches Err(e) ==> e matches ImageCaptureError::UnsupportedFormat(m) && m@
                == "Unsupported format: "@ + s@,
    {
        proof {
            reveal_strlit("png");
            reveal_strlit("jpg");
            reveal_strlit("jpeg");
            reveal_strlit("bmp");
        }
        if str_eq_ignore_ascii_case(s, "png") {
            proof {
                lemma_ci_first_char_separates(s@, "png"@, "jpg"@);
                lemma_ci_first_char_separates(s@, "png"@, "bmp"@);
            }
            Ok(ImageFormat::Png)
        } else if str_eq_ignore_ascii_case(s, "jpg") || str_eq_ignore_ascii_case(s, "jpeg") {
            proof {
                if eq_ignore_ascii_case(s@, "jpg"@) {
                    lemma_ci_first_char_separates(s@, "jpg"@, "bmp"@);
                }
            }
            Ok(ImageFormat::Jpeg)
        } else if str_eq_ignore_ascii_case(s, "bmp") {
            Ok(ImageFormat::Bmp)
        } else {
            Err(
                ImageCaptureError::UnsupportedFormat(
                    "Unsupported format: ".to_owned().concat(s),
                ),
            )
        }
    }
}

/// The texture formats this crate's capture path can reason about, named
/// after the backend formats they stand for.
#[derive(Debug, Clone, Copy, PartialEq, Eq, Structural)]
pub enum CaptureFormat {
    Rgba8Unorm,
    Rgba8UnormSrgb,
    Bgra8Unorm,
    Bgra8UnormSrgb,
    Depth32Float,
}

/// How many bytes one pixel of the format occupies in a copy, for the
/// formats the capture path supports.
pub open spec fn spec_bytes_per_pixel(f: CaptureFormat) -> Option<u32> {
    match f {
        CaptureFormat::Rgba8Unorm => Some(4u32),
        CaptureFormat::Rgba8UnormSrgb => Some(4u32),
        CaptureFormat::Bgra8Unorm => Some(4u32),
        CaptureFormat::Bgra8UnormSrgb => Some(4u32),
        CaptureFormat::Depth32Float => None,
    }
}

/// Whether the format stores pixels blue-first, so that a captured image
/// must be swizzled into RGBA order.
pub open spec fn spec_is_bgra(f: CaptureFormat) -> bool {
    f is Bgra8Unorm || f is Bgra8UnormSrgb
}

/// A copied row is padded to the backend's row alignment of 256 bytes.
pub open spec fn spec_padded_bytes_per_row(width: u32, bytes_per_pixel: u32) -> int {
    ((width * bytes_per_pixel + 255) / 256) * 256
}

impl CaptureFormat {
    /// How many bytes one pixel occupies, if the capture path supports the
    /// format.
    pub fn bytes_per_pixel(&self) -> (r: Option<u32>)
        ensures
            r == spec_bytes_per_pixel(*self),
    {
        match self {
            CaptureFormat::Rgba8Unorm => Some(4),
            CaptureFormat::Rgba8UnormSrgb => Some(4),
            CaptureFormat::Bgra8Unorm => Some(4),
            CaptureFormat::Bgra8UnormSrgb => Some(4),
            CaptureFormat::Depth32Float => None,
        }
    }

    /// Whether pixels are stored blue-first.
    pub fn is_bgra(&self) -> (r: bool)
        ensures
            r == spec_is_bgra(*self),
    {
        match self {
            CaptureFormat::Bgra8Unorm => true,
            CaptureFormat::Bgra8UnormSrgb => true,
            _ => false,
        }
    }
}

/// Image capture utility for headless rendering. It owns the id of the
/// staging buffer the capture copies into, plus the capture geometry.
pub struct ImageCapture {
    staging_buffer_id: Option<HandleId>,
    width: u32,
    height: u32,
    format: CaptureFormat,
}

impl ImageCapture {
    pub closed spec fn spec_width(&self) -> u32 {
        self.width
    }

    pub closed spec fn spec_height(&self) -> u32 {
        self.height
    }

    pub closed spec fn spec_format(&self) -> CaptureFormat {
        self.format
    }

    pub closed spec fn spec_staging_id(&self) -> Option<u64> {
        match self.staging_buffer_id {
            Some(id) => Some(id@),
            None => None,
        }
    }

    /// The capture arithmetic stays within machine bounds for this
    /// geometry: a padded row fits in a `u32` and the whole buffer size in
    /// a `u64`.
    pub open spec fn geometry_fits(width: u32, height: u32) -> bool {
        &&& width * 4 + 255 <= u32::MAX
        &&& spec_padded_bytes_per_row(width, 4) * height <= u64::MAX
    }

    /// Create a new image capture instance.
    pub fn new(width: u32, height: u32, format: CaptureFormat) -> (c: Self)
        ensures
            c.spec_width() == width,
            c.spec_height() == height,
            c.spec_format() == format,
            c.spec_staging_id() is None,
    {
        ImageCapture { staging_buffer_id: None, width, height, format }
    }

    /// Initialize the staging buffer for texture copying.
    pub fn initialize(
        &mut self,
        device: &wgpu::Device,
        resource_manager: &mut ResourceManager,
    ) -> (r: Result<(), ImageCaptureError>)
        requires
            old(resource_manager).wf(),
            old(resource_manager).fresh_id() < u64::MAX,
            Self::geometry_fits(old(self).spec_width(), old(self).spec_height()),
        ensures
            final(resource_manager).wf(),
            final(self).spec_width() == old(self).spec_width(),
            final(self).spec_height() == old(self).spec_height(),
            final(self).spec_format() == old(self).spec_format(),
            match r {
                Ok(_) => {
                    &&& spec_bytes_per_pixel(old(self).spec_format()) is Some
                    &&& final(self).spec_staging_id() == Some(old(resource_manager).fresh_id())
                    &&& final(resource_manager).table() == old(resource_manager).table().insert(
                        old(resource_manager).fresh_id(),
                        ResourceKind::Buffer,
                    )
                    &&& final(resource_manager).names() == old(resource_manager).names()
                },
                Err(e) => {
                    &&& e is UnsupportedFormat
                    &&& spec_bytes_per_pixel(old(self).spec_format()) is None
                    &&& *final(self) == *old(self)
                    &&& *final(resource_manager) == *old(resource_manager)
                },
            },
    {
        let bytes_per_pixel = match self.format.bytes_per_pixel() {
            Some(b) => b,
            None => {
                return Err(
                    ImageCaptureError::UnsupportedFormat(
                        "Texture format not supported for image capture".to_owned(),
                    ),
                );
            },
        };
        proof {
            assert(bytes_per_pixel == 4);
        }
        let unpadded_bytes_per_row = self.width * bytes_per_pixel;
        let align = gpu::copy_row_alignment();
        let rounded = unpadded_bytes_per_row + (align - 1);
        proof {
            vstd::arithmetic::div_mod::lemma_fundamental_div_mod(rounded as int, align as int);
        }
        let padded_bytes_per_row = (rounded / align) * align;
        proof {
            assert(padded_bytes_per_row == spec_padded_bytes_per_row(self.width, 4));
        }
        let buffer_size = (padded_bytes_per_row as u64) * (self.height as u64);
        let desc = gpu::map_read_buffer_descriptor("Image Capture Staging Buffer", buffer_size);
        let staging_buffer = resource_manager.create_buffer(device, &desc);
        self.staging_buffer_id = Some(staging_buffer.id());
        Ok(())
    }

    /// Record a copy of the capture texture into the staging buffer.
    pub fn capture_texture(
        &self,
        encoder: &mut wgpu::CommandEncoder,
        texture_handle: Handle<wgpu::Texture>,
        resource_manager: &ResourceManager,
    ) -> (r: Result<(), ImageCaptureError>)
        requires
            Self::geometry_fits(self.spec_width(), self.spec_height()),
        ensures
            ({
                let staging_ok = self.spec_staging_id() is Some;
                let texture_ok = resource_manager.table().dom().contains(texture_handle@)
                    && resource_manager.table()[texture_handle@] == ResourceKind::Texture;
                let buffer_ok = staging_ok && resource_manager.table().dom().contains(
                    self.spec_staging_id()->Some_0,
                ) && resource_manager.table()[self.spec_staging_id()->Some_0]
                    == ResourceKind::Buffer;
                let format_ok = spec_bytes_per_pixel(self.spec_format()) is Some;
                match r {
                    Ok(_) => staging_ok && texture_ok && buffer_ok && format_ok,
                    Err(ImageCaptureError::InvalidTexture(_)) => !(staging_ok && texture_ok
                        && buffer_ok),
                    Err(ImageCaptureError::UnsupportedFormat(_)) => staging_ok && texture_ok
                        && buffer_ok && !format_ok,
                    Err(_) => false,
                }
            }),
    {
        let staging_buffer_handle = match self.staging_buffer() {
            Some(h) => h,
            None => {
                return Err(
                    ImageCaptureError::InvalidTexture("Staging buffer not initialized".to_owned()),
                );
            },
        };
        let texture = match resource_manager.get_texture(texture_handle) {
            Ok(t) => t,
            Err(e) => {
                return Err(
                    ImageCaptureError::InvalidTexture(
                        "Invalid capture texture: ".to_owned().concat(e.message().as_str()),
                    ),
                );
            },
        };
        let staging_buffer_resource = match resource_manager.get_buffer(staging_buffer_handle) {
            Ok(b) => b,
            Err(e) => {
                return Err(
                    ImageCaptureError::InvalidTexture(
                        "Invalid staging buffer: ".to_owned().concat(e.message().as_str()),
                    ),
                );
            },
        };
        let bytes_per_pixel = match self.format.bytes_per_pixel() {
            Some(b) => b,
            None => {
                return Err(
                    ImageCaptureError::UnsupportedFormat(
                        "Texture format not supported".to_owned(),
                    ),
                );
            },
        };
        proof {
            assert(bytes_per_pixel == 4);
        }
        let unpadded_bytes_per_row = self.width * bytes_per_pixel;
        let align = gpu::copy_row_alignment();
        let rounded = unpadded_bytes_per_row + (align - 1);
        proof {
            vstd::arithmetic::div_mod::lemma_fundamental_div_mod(rounded as int, align as int);
        }
        let padded_bytes_per_row = (rounded / align) * align;
        gpu::copy_texture_to_buffer(
            encoder,
            texture,
            staging_buffer_resource,
            padded_bytes_per_row,
            self.width,
            self.height,
        );
        Ok(())
    }

    /// Get the staging buffer handle if initialized.
    pub fn staging_buffer(&self) -> (r: Option<Handle<wgpu::Buffer>>)
        ensures
            match r {
                Some(h) => self.spec_staging_id() == Some(h@),
                None => self.spec_staging_id() is None,
            },
    {
        match self.staging_buffer_id {
            Some(id) => Some(Handle::from_id(id)),
            None => None,
        }
    }

    /// Get the capture dimensions.
    pub fn dimensions(&self) -> (r: (u32, u32))
        ensures
            r.0 == self.spec_width(),
            r.1 == self.spec_height(),
    {
        (self.width, self.height)
    }

    /// Get the texture format.
    pub fn format(&self) -> (r: CaptureFormat)
        ensures
            r == self.spec_format(),
    {
        self.format
    }
}

/// Drop the alignment padding from a captured image: keep the first
/// `width * bytes_per_pixel` bytes of each of the `height` rows, each row
/// starting `padded_bytes_per_row` bytes after the one before it. Output
/// byte `i` belongs to row `i / tight` at column `i % tight`, where
/// `tight` is the unpadded row width in bytes.
pub fn unpad_rows(
    data: &Vec<u8>,
    width: u32,
    height: u32,
    bytes_per_pixel: u32,
    padded_bytes_per_row: u32,
) -> (out: Vec<u8>)
    requires
        width * bytes_per_pixel <= padded_bytes_per_row,
        padded_bytes_per_row * height <= data@.len(),
        width * bytes_per_pixel * height <= usize::MAX,
        padded_bytes_per_row * height <= usize::MAX,
    ensures
        out@.len() == width * bytes_per_pixel * height,
        forall|i: int|
            0 <= i < out@.len() ==> #[trigger] out@[i] == data@[(i / (width * bytes_per_pixel))
                * padded_bytes_per_row + (i % (width * bytes_per_pixel))],
{
    let tight: usize = (width as usize) * (bytes_per_pixel as usize);
    let mut out: Vec<u8> = Vec::new();
    let mut row: usize = 0;
    proof {
        lemma_grid_bounds(width * bytes_per_pixel, padded_bytes_per_row as int, height as int);
    }
    while row < height as usize
        invariant
            row <= height,
            tight == width * bytes_per_pixel,
            width * bytes_per_pixel <= padded_bytes_per_row,
            padded_bytes_per_row * height <= data@.len(),
            padded_bytes_per_row * height <= usize::MAX,
            width * bytes_per_pixel * height <= usize::MAX,
            forall|r0: int|
                0 <= r0 <= height ==> #[trigger] (r0 * (width * bytes_per_pixel)) <= width
                    * bytes_per_pixel * height,
            forall|r0: int|
                0 <= r0 <= height ==> #[trigger] (r0 * padded_bytes_per_row)
                    <= padded_bytes_per_row * height,
            out@.len() == row * tight,
            forall|i: int|
                0 <= i < out@.len() ==> #[trigger] out@[i] == data@[(i / (width
                    * bytes_per_pixel)) * padded_bytes_per_row + (i % (width
                    * bytes_per_pixel))],
        decreases height - row,
    {
        proof {
            assert((row as int) * (padded_bytes_per_row as int) <= (padded_bytes_per_row as int)
                * (height as int));
        }
        let row_start: usize = row * (padded_bytes_per_row as usize);
        let mut col: usize = 0;
        while col < tight
            invariant
                col <= tight,
                row < height,
                tight == width * bytes_per_pixel,
                width * bytes_per_pixel <= padded_bytes_per_row,
                padded_bytes_per_row * height <= data@.len(),
                padded_bytes_per_row * height <= usize::MAX,
                width * bytes_per_pixel * height <= usize::MAX,
                row_start == row * padded_bytes_per_row,
                forall|r0: int|
                    0 <= r0 <= height ==> #[trigger] (r0 * (width * bytes_per_pixel)) <= width
                        * bytes_per_pixel * height,
                forall|r0: int|
                    0 <= r0 <= height ==> #[trigger] (r0 * padded_bytes_per_row)
                        <= padded_bytes_per_row * height,
                out@.len() == row * tight + col,
                forall|i: int|
                    0 <= i < out@.len() ==> #[trigger] out@[i] == data@[(i / (width
                        * bytes_per_pixel)) * padded_bytes_per_row + (i % (width
                        * bytes_per_pixel))],
            decreases tight - col,
        {
            proof {
                lemma_grid_step(
                    row as int,
                    width * bytes_per_pixel,
                    padded_bytes_per_row as int,
                    height as int,
                );
                assert(row_start + col < padded_bytes_per_row * height);
            }
            let ghost out0 = out@;
            out.push(data[row_start + col]);
            proof {
                vstd::arithmetic::div_mod::lemma_fundamental_div_mod_converse(
                    row * tight + col,
                    tight as int,
                    row as int,
                    col as int,
                );
                assert(forall|i: int| 0 <= i < out0.len() ==> out@[i] == out0[i]);
            }
            col = col + 1;
        }
        row = row + 1;
        proof {
            lemma_grid_step_up(row as int, tight as int);
        }
    }
    proof {
        assert(height * (width * bytes_per_pixel) == width * bytes_per_pixel * height)
            by (nonlinear_arith);
    }
    out
}

/// Multiplying by a row index within the grid stays within the whole-grid
/// product.
proof fn lemma_grid_bounds(tight: int, padded: int, height: int)
    requires
        0 <= tight <= padded,
        0 <= height,
    ensures
        forall|r0: int| 0 <= r0 <= height ==> #[trigger] (r0 * tight) <= tight * height,
        forall|r0: int| 0 <= r0 <= height ==> #[trigger] (r0 * padded) <= padded * height,
{
    assert forall|r0: int| 0 <= r0 <= height implies #[trigger] (r0 * tight) <= tight * height by {
        assert(r0 * tight <= height * tight) by (nonlinear_arith)
            requires
                0 <= r0 <= height,
                0 <= tight,
        ;
        assert(height * tight == tight * height) by (nonlinear_arith);
    }
    assert forall|r0: int| 0 <= r0 <= height implies #[trigger] (r0 * padded) <= padded
        * height by {
        assert(r0 * padded <= height * padded) by (nonlinear_arith)
            requires
                0 <= r0 <= height,
                0 <= padded,
        ;
        assert(height * padded == padded * height) by (nonlinear_arith);
    }
}

/// One row of the grid ends before the next row begins.
proof fn lemma_grid_step(row: int, tight: int, padded: int, height: int)
    requires
        0 <= row < height,
        0 <= tight <= padded,
    ensures
        row * tight + tight <= (row + 1) * tight,
        row * padded + tight <= (row + 1) * padded,
        (row + 1) * tight <= height * tight,
        (row + 1) * padded <= height * padded,
        height * tight == tight * height,
        height * padded == padded * height,
{
    assert((row + 1) * tight == row * tight + tight) by (nonlinear_arith);
    assert((row + 1) * padded == row * padded + padded) by (nonlinear_arith);
    assert((row + 1) * tight <= height * tight) by (nonlinear_arith)
        requires
            row + 1 <= height,
            0 <= tight,
    ;
    assert((row + 1) * padded <= height * padded) by (nonlinear_arith)
        requires
            row + 1 <= height,
            0 <= padded,
    ;
    assert(height * tight == tight * height) by (nonlinear_arith);
    assert(height * padded == padded * height) by (nonlinear_arith);
}

/// Stepping the row index forward accounts for exactly one tight row of
/// output bytes.
proof fn lemma_grid_step_up(row: int, tight: int)
    ensures
        (row - 1) * tight + tight == row * tight,
{
    assert((row - 1) * tight + tight == row * tight) by (nonlinear_arith);
}

/// Reorder a blue-first image into RGBA order: within every four-byte
/// pixel the first and third bytes swap places.
pub fn bgra_to_rgba(data: &Vec<u8>) -> (out: Vec<u8>)
    requires
        data@.len() % 4 == 0,
    ensures
        out@.len() == data@.len(),
        forall|i: int| 0 <= i < data@.len() && i % 4 == 0 ==> out@[i] == data@[i + 2],
        forall|i: int| 0 <= i < data@.len() && i % 4 == 1 ==> out@[i] == data@[i],
        forall|i: int| 0 <= i < data@.len() && i % 4 == 2 ==> out@[i] == data@[i - 2],
        forall|i: int| 0 <= i < data@.len() && i % 4 == 3 ==> out@[i] == data@[i],
{
    let n = data.len();
    let mut out: Vec<u8> = Vec::new();
    let mut i: usize = 0;
    while i < n
        invariant
            i <= n,
            n == data@.len(),
            n % 4 == 0,
            i % 4 == 0,
            out@.len() == i,
            forall|k: int| 0 <= k < i && k % 4 == 0 ==> out@[k] == data@[k + 2],
            forall|k: int| 0 <= k < i && k % 4 == 1 ==> out@[k] == data@[k],
            forall|k: int| 0 <= k < i && k % 4 == 2 ==> out@[k] == data@[k - 2],
            forall|k: int| 0 <= k < i && k % 4 == 3 ==> out@[k] == data@[k],
        decreases n - i,
    {
        out.push(data[i + 2]);
        out.push(data[i + 1]);
        out.push(data[i]);
        out.push(data[i + 3]);
        i = i + 4;
    }
    out
}

} // verus!
