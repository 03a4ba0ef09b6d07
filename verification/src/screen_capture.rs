//! The screen capture store: the committed scanout frame, the root4 staging slot that
//! holds a frame back until its geometry generation is presented, and the encoding of
//! captures (whole view, logical crop, or pane) as PNG images.
use vstd::prelude::*;
use crate::pixels::{
    pack_xrgb8888, packed_raster, rgb_from_xrgb, rotate_scanout_to_view, rotated_dims,
    scanout_view, xrgb8888_to_rgb,
};
use crate::rotation::{OutputRotation, spec_capture_pixel_rotation};

verus! {

/// Why a capture could not be produced.
#[derive(Clone, Copy, Debug, PartialEq, Eq, Structural)]
pub enum CaptureError {
    /// No frame has been committed yet.
    NotFound,
    /// The committed frame carries no root4 geometry.
    GeometryUnavailable,
    /// The committed frame holds no capture geometry for the requested pane.
    PaneCaptureUnavailable,
    /// The requested crop reaches outside the scanout.
    CropExceedsScanout,
    /// The image could not be encoded (an empty crop, or a size the encoder cannot hold).
    Encoding,
}

/// The bytes of row `row` and column byte `k` of a crop of a packed raster.
pub open spec fn crop_raster(
    pixels: Seq<u8>,
    src_width: int,
    x: int,
    y: int,
    width: int,
    height: int,
) -> Seq<u8> {
    Seq::new(
        (height * (width * 4)) as nat,
        |i: int| pixels[((y + i / (width * 4)) * src_width + x) * 4 + i % (width * 4)],
    )
}

/// `a + b`, saturated at `usize::MAX`.
pub open spec fn saturating_usize_sum(a: int, b: int) -> int {
    if a + b > usize::MAX { usize::MAX as int } else { a + b }
}

/// Whether the crop `(x, y, width, height)` is refused for a `src_width` x `src_height`
/// scanout: its right or bottom edge, each summed with saturation, passes the scanout's.
pub open spec fn crop_refused(src_width: int, src_height: int, x: int, y: int, width: int, height: int) -> bool {
    saturating_usize_sum(x, width) > src_width || saturating_usize_sum(y, height) > src_height
}

/// Whether the crop `(x, y, width, height)` lies inside a `src_width` x `src_height` scanout.
pub open spec fn crop_fits(src_width: int, src_height: int, x: int, y: int, width: int, height: int) -> bool {
    x + width <= src_width && y + height <= src_height
}

proof fn lemma_crop_index(row: int, k: int, width4: int)
    requires
        0 <= row,
        0 <= k < width4,
    ensures
        (row * width4 + k) / width4 == row,
        (row * width4 + k) % width4 == k,
{
    vstd::arithmetic::div_mod::lemma_fundamental_div_mod_converse(row * width4 + k, width4, row, k);
}

/// Copies the `width` x `height` pixel rectangle at `(x, y)` out of a packed raster
/// `src_width` pixels wide and `src_height` tall.
pub fn crop_xrgb8888(
    pixels: &[u8],
    src_width: usize,
    src_height: usize,
    x: usize,
    y: usize,
    width: usize,
    height: usize,
) -> (r: Result<Vec<u8>, CaptureError>)
    requires
        src_width * src_height * 4 <= pixels@.len(),
        y + height > usize::MAX && src_height == usize::MAX ==> x + width > src_width,
    ensures
        r is Err <==> crop_refused(src_width as int, src_height as int, x as int, y as int, width as int, height as int),
        r is Err ==> r == Err::<Vec<u8>, CaptureError>(CaptureError::CropExceedsScanout),
        r matches Ok(v) ==> v@ == crop_raster(pixels@, src_width as int, x as int, y as int, width as int, height as int),
{
    let len = pixels.len();
    if x.saturating_add(width) > src_width || y.saturating_add(height) > src_height {
        return Err(CaptureError::CropExceedsScanout);
    }
    if height == 0 {
        let empty: Vec<u8> = Vec::new();
        assert(empty@ =~= crop_raster(pixels@, src_width as int, x as int, y as int, width as int, height as int));
        return Ok(empty);
    }
    assert(src_height >= 1);
    assert(src_width * 4 <= src_width * src_height * 4) by (nonlinear_arith)
        requires
            src_height >= 1,
    ;
    assert(x + width <= src_width);
    assert(y + height <= src_height);
    let width4 = width * 4;
    let ghost src = pixels@;
    let mut cropped: Vec<u8> = Vec::new();
    let mut row: usize = 0;
    while row < height
        invariant
            row <= height,
            x + width <= src_width,
            y + height <= src_height,
            width4 == width * 4,
            src_width * src_height * 4 <= len,
            len == src.len(),
            src == pixels@,
            cropped@.len() == row * width4,
            forall|i: int|
                0 <= i < cropped@.len() ==> #[trigger] cropped@[i] == src[((y + i / (width4 as int))
                    * src_width + x) * 4 + i % (width4 as int)],
        decreases height - row,
    {
        assert(((y + row) * src_width + x + width) * 4 <= src_width * src_height * 4) by (nonlinear_arith)
            requires
                y + row < src_height,
                x + width <= src_width,
        ;
        let start = ((y + row) * src_width + x) * 4;
        let mut k: usize = 0;
        while k < width4
            invariant
                row < height,
                k <= width4,
                width4 == width * 4,
                start == ((y + row) * src_width + x) * 4,
                start + width4 <= len,
                len == src.len(),
                src == pixels@,
                cropped@.len() == row * width4 + k,
                forall|i: int|
                    0 <= i < cropped@.len() ==> #[trigger] cropped@[i] == src[((y + i / (width4 as int))
                        * src_width + x) * 4 + i % (width4 as int)],
            decreases width4 - k,
        {
            proof {
                lemma_crop_index(row as int, k as int, width4 as int);
            }
            cropped.push(pixels[start + k]);
            k = k + 1;
        }
        assert((row + 1) * width4 == row * width4 + width4) by (nonlinear_arith);
        row = row + 1;
    }
    assert(cropped@ =~= crop_raster(src, src_width as int, x as int, y as int, width as int, height as int));
    Ok(cropped)
}


#[verifier::external_type_specification]
#[verifier::external_body]
pub struct ExPngEncodingError(png::EncodingError);

/// The PNG file that the `png` encoder writes for an 8-bit RGB image of the given size.
pub uninterp spec fn png_rgb8_encoding(width: u32, height: u32, rgb: Seq<u8>) -> Seq<u8>;

/// The PNG signature and an IHDR chunk declaring `width` x `height` open the file.
pub open spec fn png_declares_size(bytes: Seq<u8>, width: u32, height: u32) -> bool {
    &&& bytes.len() >= 24
    &&& bytes.subrange(0, 8) == seq![137u8, 80, 78, 71, 13, 10, 26, 10]
    &&& bytes.subrange(12, 16) == seq![73u8, 72, 68, 82]
    &&& bytes[16] * 16777216 + bytes[17] * 65536 + bytes[18] * 256 + bytes[19] == width
    &&& bytes[20] * 16777216 + bytes[21] * 65536 + bytes[22] * 256 + bytes[23] == height
}

/// Encodes an 8-bit RGB image as a PNG file in memory with `png::Encoder` (color type
/// RGB, depth 8, default compression), writing the header, the image data and the end
/// chunk. Claimed of the encoder: it fails exactly when the size is zero in either
/// dimension or the data is not `3 * width * height` bytes (writing to a `Vec` cannot
/// fail); its output is a function of the size and the data alone; and the file opens
/// with the PNG signature and an IHDR chunk that holds the size, big-endian.
#[verifier::external_body]
fn png_encode_rgb8(width: u32, height: u32, rgb: &[u8]) -> (r: Result<Vec<u8>, png::EncodingError>)
    requires
        3 * width * height <= usize::MAX,
    ensures
        r is Ok <==> (width > 0 && height > 0 && rgb@.len() == 3 * width * height),
        r matches Ok(bytes) ==> bytes@ == png_rgb8_encoding(width, height, rgb@)
            && png_declares_size(bytes@, width, height),
{
    let mut bytes = Vec::new();
    let mut encoder = png::Encoder::new(&mut bytes, width, height);
    encoder.set_color(png::ColorType::Rgb);
    encoder.set_depth(png::BitDepth::Eight);
    let mut writer = encoder.write_header()?;
    writer.write_image_data(rgb)?;
    writer.finish()?;
    Ok(bytes)
}

/// The bytes of an encoding result.
pub open spec fn encoded_bytes(r: Result<Vec<u8>, CaptureError>) -> Result<Seq<u8>, CaptureError> {
    match r {
        Ok(bytes) => Ok(bytes@),
        Err(e) => Err(e),
    }
}

/// The PNG file of a `width` x `height` RGB image, or why there is none.
pub open spec fn spec_png_of(width: int, height: int, rgb: Seq<u8>) -> Result<Seq<u8>, CaptureError> {
    if 0 < width <= u32::MAX && 0 < height <= u32::MAX && rgb.len() == 3 * width * height {
        Ok(png_rgb8_encoding(width as u32, height as u32, rgb))
    } else {
        Err(CaptureError::Encoding)
    }
}

/// Encodes a `width` x `height` RGB image as PNG.
pub fn encode_png(width: usize, height: usize, rgb: &[u8]) -> (r: Result<Vec<u8>, CaptureError>)
    ensures
        encoded_bytes(r) == spec_png_of(width as int, height as int, rgb@),
        r matches Ok(bytes) ==> png_declares_size(bytes@, width as u32, height as u32),
{
    if width == 0 || height == 0 || width > 0xffff_ffff || height > 0xffff_ffff {
        return Err(CaptureError::Encoding);
    }
    let len = rgb.len();
    assert(3 * width * height == width * height * 3) by (nonlinear_arith);
    let expected = match width.checked_mul(height) {
        Some(pixels) => pixels.checked_mul(3),
        None => None,
    };
    match expected {
        Some(n) => {
            if n != len {
                return Err(CaptureError::Encoding);
            }
        },
        None => {
            proof {
                assert(rgb@.len() != 3 * width * height) by (nonlinear_arith)
                    requires
                        rgb@.len() == len,
                        len <= usize::MAX,
                        width * height > usize::MAX || width * height * 3 > usize::MAX,
                        width > 0,
                        height > 0,
                ;
            }
            return Err(CaptureError::Encoding);
        },
    }
    let w = width as u32;
    let h = height as u32;
    assert(3 * w * h == width * height * 3) by (nonlinear_arith)
        requires
            w == width,
            h == height,
    ;
    match png_encode_rgb8(w, h, rgb) {
        Ok(bytes) => Ok(bytes),
        Err(_) => Err(CaptureError::Encoding),
    }
}

/// Identity of a provider pane.
#[derive(Debug)]
pub struct PaneId(pub String);

impl Clone for PaneId {
    fn clone(&self) -> (r: Self)
        ensures
            r == *self,
    {
        PaneId(self.0.clone())
    }
}

/// A rectangle of physical scanout pixels.
#[derive(Clone, Copy, Debug, PartialEq, Eq, Structural)]
pub struct PixelRect {
    pub x: i32,
    pub y: i32,
    pub width: i32,
    pub height: i32,
}

/// Where a capture sits in the physical scanout, and the root geometry generation
/// it was resolved against.
#[derive(Clone, Copy, Debug, PartialEq, Eq, Structural)]
pub struct CaptureGeometry {
    pub physical_pixel_rect: PixelRect,
    pub root_geometry_generation: u64,
}

/// The root4 geometry a frame was rendered with: its generation and rotation, and the
/// rest of the snapshot (`detail`), which the store only carries for its callers.
pub struct RootGeometrySnapshot<S> {
    pub generation: u64,
    pub rotation: OutputRotation,
    pub detail: S,
}

/// One captured scanout frame, packed XRGB8888 in scanout orientation.
struct ScreenCaptureFrame<S> {
    src_width: usize,
    src_height: usize,
    output_rotation: OutputRotation,
    packed_xrgb8888: Vec<u8>,
    root_geometry: Option<RootGeometrySnapshot<S>>,
    pane_captures: Vec<(PaneId, CaptureGeometry)>,
}

/// The abstract content of a captured frame.
pub struct FrameView<S> {
    pub width: nat,
    pub height: nat,
    pub rotation: OutputRotation,
    pub pixels: Seq<u8>,
    pub root_geometry: Option<RootGeometrySnapshot<S>>,
    pub pane_captures: Seq<(PaneId, CaptureGeometry)>,
}

impl<S> ScreenCaptureFrame<S> {
    spec fn view(&self) -> FrameView<S> {
        FrameView {
            width: self.src_width as nat,
            height: self.src_height as nat,
            rotation: self.output_rotation,
            pixels: self.packed_xrgb8888@,
            root_geometry: self.root_geometry,
            pane_captures: self.pane_captures@,
        }
    }

    spec fn wf(&self) -> bool {
        &&& self.src_width > 0
        &&& self.src_height > 0
        &&& self.packed_xrgb8888@.len() == self.src_width * self.src_height * 4
    }

    /// The frame turned upright, with its width and height.
    fn view_xrgb8888(&self) -> (r: (usize, usize, Vec<u8>))
        requires
            self.wf(),
        ensures
            (r.0 as int, r.1 as int) == rotated_dims(
                spec_capture_pixel_rotation(self.output_rotation),
                self.src_width as int,
                self.src_height as int,
            ),
            r.2@ == scanout_view(self.packed_xrgb8888@, self.src_width as int, self.src_height as int, self.output_rotation),
    {
        let _ = self.packed_xrgb8888.len();
        rotate_scanout_to_view(self.packed_xrgb8888.as_slice(), self.src_width, self.src_height, self.output_rotation)
    }

    fn crop_png(&self, rect: PixelRect) -> (r: Result<Vec<u8>, CaptureError>)
        requires
            self.wf(),
        ensures
            encoded_bytes(r) == spec_crop_png(self.view(), rect),
            r matches Ok(bytes) ==> png_declares_size(bytes@, rect.width as u32, rect.height as u32),
    {
        if rect.x < 0 || rect.y < 0 || rect.width < 0 || rect.height < 0 {
            return Err(CaptureError::CropExceedsScanout);
        }
        let x = rect.x as usize;
        let y = rect.y as usize;
        let width = rect.width as usize;
        let height = rect.height as usize;
        match crop_xrgb8888(&self.packed_xrgb8888, self.src_width, self.src_height, x, y, width, height) {
            Err(e) => Err(e),
            Ok(cropped) => {
                let rgb = xrgb8888_to_rgb(&cropped);
                encode_png(width, height, &rgb)
            },
        }
    }
}

/// Whether a frame view is a well-formed packed raster.
pub open spec fn frame_wf<S>(f: FrameView<S>) -> bool {
    &&& f.width > 0
    &&& f.height > 0
    &&& f.pixels.len() == f.width * f.height * 4
}

/// The abstract state of the capture store: the committed frame, the root4 generation
/// being staged (if any), and the frame staged for it.
pub struct StoreView<S> {
    pub committed: Option<FrameView<S>>,
    pub staging_generation: Option<u64>,
    pub staged: Option<FrameView<S>>,
}

/// The frame produced from a strided scanout readback.
pub open spec fn scanout_frame<S>(
    src: Seq<u8>,
    stride: int,
    width: int,
    height: int,
    flipped: bool,
    rotation: OutputRotation,
    root_geometry: Option<RootGeometrySnapshot<S>>,
    pane_captures: Seq<(PaneId, CaptureGeometry)>,
) -> FrameView<S> {
    FrameView {
        width: width as nat,
        height: height as nat,
        rotation,
        pixels: packed_raster(src, stride, width, height, flipped),
        root_geometry,
        pane_captures,
    }
}

/// Publishing a plain (non-root4) frame replaces the committed frame.
pub open spec fn spec_publish_frame<S>(v: StoreView<S>, frame: FrameView<S>) -> StoreView<S> {
    StoreView { committed: Some(frame), ..v }
}

/// Publishing a root4 frame of generation `generation`: it is held in the staging slot
/// while that generation is being staged, and committed otherwise.
pub open spec fn spec_publish_root4<S>(v: StoreView<S>, generation: u64, frame: FrameView<S>) -> StoreView<S> {
    if v.staging_generation == Some(generation) {
        StoreView { staged: Some(frame), ..v }
    } else {
        StoreView { committed: Some(frame), ..v }
    }
}

/// Beginning to stage `generation` empties the staging slot.
pub open spec fn spec_begin_stage<S>(v: StoreView<S>, generation: u64) -> StoreView<S> {
    StoreView { staging_generation: Some(generation), staged: None, ..v }
}

/// Committing the staged generation publishes its frame (if one arrived) and ends staging;
/// committing any other generation changes nothing.
pub open spec fn spec_commit_stage<S>(v: StoreView<S>, generation: u64) -> StoreView<S> {
    if v.staging_generation == Some(generation) {
        StoreView {
            committed: if v.staged is Some { v.staged } else { v.committed },
            staging_generation: None,
            staged: None,
        }
    } else {
        v
    }
}

/// Discarding the staged generation drops its frame and ends staging; discarding any
/// other generation changes nothing.
pub open spec fn spec_discard_stage<S>(v: StoreView<S>, generation: u64) -> StoreView<S> {
    if v.staging_generation == Some(generation) {
        StoreView { staging_generation: None, staged: None, ..v }
    } else {
        v
    }
}

/// Whether a frame of root geometry `generation` is staged for that generation.
pub open spec fn spec_stage_has_frame<S>(v: StoreView<S>, generation: u64) -> bool {
    &&& v.staging_generation == Some(generation)
    &&& v.staged matches Some(frame)
    &&& frame.root_geometry matches Some(root)
    &&& root.generation == generation
}

/// The PNG of the upright view of the committed frame.
pub open spec fn spec_write_png<S>(v: StoreView<S>) -> Result<Seq<u8>, CaptureError> {
    match v.committed {
        None => Err(CaptureError::NotFound),
        Some(f) => {
            let (w, h) = rotated_dims(spec_capture_pixel_rotation(f.rotation), f.width as int, f.height as int);
            spec_png_of(w, h, rgb_from_xrgb(scanout_view(f.pixels, f.width as int, f.height as int, f.rotation)))
        },
    }
}

/// The PNG of the physical pixels `rect` of frame `f`, in scanout orientation.
pub open spec fn spec_crop_png<S>(f: FrameView<S>, rect: PixelRect) -> Result<Seq<u8>, CaptureError> {
    if rect.x >= 0 && rect.y >= 0 && rect.width >= 0 && rect.height >= 0
        && crop_fits(f.width as int, f.height as int, rect.x as int, rect.y as int, rect.width as int, rect.height as int) {
        spec_png_of(
            rect.width as int,
            rect.height as int,
            rgb_from_xrgb(crop_raster(f.pixels, f.width as int, rect.x as int, rect.y as int, rect.width as int, rect.height as int)),
        )
    } else {
        Err(CaptureError::CropExceedsScanout)
    }
}

/// The PNG of the part of the committed root4 frame that `geometry` resolves to.
pub open spec fn spec_write_root4_png<S>(v: StoreView<S>, geometry: CaptureGeometry) -> Result<Seq<u8>, CaptureError> {
    match v.committed {
        None => Err(CaptureError::NotFound),
        Some(f) => match f.root_geometry {
            None => Err(CaptureError::GeometryUnavailable),
            Some(_) => spec_crop_png(f, geometry.physical_pixel_rect),
        },
    }
}

/// The capture geometry of the first entry for pane `id`.
pub open spec fn find_pane_capture(panes: Seq<(PaneId, CaptureGeometry)>, id: Seq<char>) -> Option<CaptureGeometry>
    decreases panes.len(),
{
    if panes.len() == 0 {
        None
    } else if panes[0].0.0@ == id {
        Some(panes[0].1)
    } else {
        find_pane_capture(panes.drop_first(), id)
    }
}

/// The geometry and PNG of pane `id` in the committed frame.
pub open spec fn spec_write_root4_pane_png<S>(v: StoreView<S>, id: Seq<char>) -> Result<(CaptureGeometry, Seq<u8>), CaptureError> {
    match v.committed {
        None => Err(CaptureError::NotFound),
        Some(f) => match find_pane_capture(f.pane_captures, id) {
            None => Err(CaptureError::PaneCaptureUnavailable),
            Some(geometry) => match spec_crop_png(f, geometry.physical_pixel_rect) {
                Ok(bytes) => Ok((geometry, bytes)),
                Err(e) => Err(e),
            },
        },
    }
}

/// The geometry and bytes of a pane capture result.
pub open spec fn pane_png_bytes(r: Result<(CaptureGeometry, Vec<u8>), CaptureError>) -> Result<(CaptureGeometry, Seq<u8>), CaptureError> {
    match r {
        Ok((geometry, bytes)) => Ok((geometry, bytes@)),
        Err(e) => Err(e),
    }
}

/// Holds the latest committed scanout capture and the root4 staging slot.
pub struct ScreenCaptureStore<S> {
    committed: Option<ScreenCaptureFrame<S>>,
    staging_generation: Option<u64>,
    staged: Option<ScreenCaptureFrame<S>>,
}

impl<S> ScreenCaptureStore<S> {
    #[verifier::type_invariant]
    spec fn frames_wf(self) -> bool {
        &&& (self.committed matches Some(f) ==> f.wf())
        &&& (self.staged matches Some(f) ==> f.wf())
    }

    /// The abstract state of the store.
    pub closed spec fn view(&self) -> StoreView<S> {
        StoreView {
            committed: match self.committed {
                Some(f) => Some(f.view()),
                None => None,
            },
            staging_generation: self.staging_generation,
            staged: match self.staged {
                Some(f) => Some(f.view()),
                None => None,
            },
        }
    }

    /// An empty store.
    pub fn new() -> (store: Self)
        ensures
            store.view() == (StoreView::<S> { committed: None, staging_generation: None, staged: None }),
    {
        ScreenCaptureStore { committed: None, staging_generation: None, staged: None }
    }

    /// Commits a frame read back from scanout (`src_stride` bytes per row), undoing a
    /// vertical flip of the readback when `src_flipped` is set. Empty frames are ignored.
    pub fn update_from_scanout_xrgb8888(
        &mut self,
        src_pixels: &[u8],
        src_stride: usize,
        src_width: usize,
        src_height: usize,
        src_flipped: bool,
        output_rotation: OutputRotation,
    )
        requires
            src_width * src_height * 4 <= usize::MAX,
        ensures
            src_width == 0 || src_height == 0 ==> final(self).view() == old(self).view(),
            src_width > 0 && src_height > 0 ==> final(self).view() == spec_publish_frame(
                old(self).view(),
                scanout_frame(
                    src_pixels@,
                    src_stride as int,
                    src_width as int,
                    src_height as int,
                    src_flipped,
                    output_rotation,
                    None,
                    Seq::empty(),
                ),
            ),
            src_width > 0 && src_height > 0 ==> final(self).view().committed == Some(scanout_frame::<S>(
                src_pixels@,
                src_stride as int,
                src_width as int,
                src_height as int,
                src_flipped,
                output_rotation,
                None,
                Seq::empty(),
            )),
            final(self).view().staging_generation == old(self).view().staging_generation,
            final(self).view().staged == old(self).view().staged,
    {
        proof {
            lemma_latest_frame_is_committed(old(self).view(), scanout_frame::<S>(
                src_pixels@,
                src_stride as int,
                src_width as int,
                src_height as int,
                src_flipped,
                output_rotation,
                None,
                Seq::empty(),
            ));
        }
        if src_width == 0 || src_height == 0 {
            return;
        }
        assert(src_height * (src_width * 4) == src_width * src_height * 4) by (nonlinear_arith);
        let packed = pack_xrgb8888(src_pixels, src_stride, src_width, src_height, src_flipped);
        let frame = ScreenCaptureFrame {
            src_width,
            src_height,
            output_rotation,
            packed_xrgb8888: packed,
            root_geometry: None,
            pane_captures: Vec::new(),
        };
        proof {
            use_type_invariant(&*self);
            assert(frame.wf());
        }
        self.committed = Some(frame);
        proof {
            assert(self.view().committed == Some(scanout_frame::<S>(
                src_pixels@,
                src_stride as int,
                src_width as int,
                src_height as int,
                src_flipped,
                output_rotation,
                None,
                Seq::empty(),
            )));
        }
    }

    /// Publishes a root4 frame rendered with `root_geometry`. While that geometry's
    /// generation is being staged the frame waits in the staging slot; otherwise it is
    /// committed at once. Empty frames are ignored.
    pub fn update_root4_scanout_xrgb8888(
        &mut self,
        src_pixels: &[u8],
        src_stride: usize,
        src_width: usize,
        src_height: usize,
        src_flipped: bool,
        root_geometry: RootGeometrySnapshot<S>,
        pane_captures: &[(PaneId, CaptureGeometry)],
    )
        requires
            src_width * src_height * 4 <= usize::MAX,
        ensures
            src_width == 0 || src_height == 0 ==> final(self).view() == old(self).view(),
            src_width > 0 && src_height > 0 ==> final(self).view() == spec_publish_root4(
                old(self).view(),
                root_geometry.generation,
                scanout_frame(
                    src_pixels@,
                    src_stride as int,
                    src_width as int,
                    src_height as int,
                    src_flipped,
                    root_geometry.rotation,
                    Some(root_geometry),
                    pane_captures@,
                ),
            ),
    {
        if src_width == 0 || src_height == 0 {
            return;
        }
        assert(src_height * (src_width * 4) == src_width * src_height * 4) by (nonlinear_arith);
        let packed = pack_xrgb8888(src_pixels, src_stride, src_width, src_height, src_flipped);
        let mut panes: Vec<(PaneId, CaptureGeometry)> = Vec::new();
        let mut i: usize = 0;
        while i < pane_captures.len()
            invariant
                i <= pane_captures@.len(),
                panes@ == pane_captures@.subrange(0, i as int),
            decreases pane_captures@.len() - i,
        {
            let id = pane_captures[i].0.clone();
            let geometry = pane_captures[i].1;
            panes.push((id, geometry));
            i = i + 1;
            assert(panes@ =~= pane_captures@.subrange(0, i as int));
        }
        assert(panes@ =~= pane_captures@);
        let generation = root_geometry.generation;
        let frame = ScreenCaptureFrame {
            src_width,
            src_height,
            output_rotation: root_geometry.rotation,
            packed_xrgb8888: packed,
            root_geometry: Some(root_geometry),
            pane_captures: panes,
        };
        proof {
            use_type_invariant(&*self);
            assert(frame.wf());
        }
        if self.staging_generation == Some(generation) {
            self.staged = Some(frame);
        } else {
            self.committed = Some(frame);
        }
    }

    /// Starts staging root geometry `generation`: later frames of that generation are
    /// held back until the generation is committed or discarded.
    pub fn begin_root4_stage(&mut self, generation: u64)
        ensures
            final(self).view() == spec_begin_stage(old(self).view(), generation),
    {
        proof {
            use_type_invariant(&*self);
        }
        self.staging_generation = Some(generation);
        self.staged = None;
    }

    /// Commits staged `generation`: its frame (if one arrived) becomes the committed frame.
    pub fn commit_root4_stage(&mut self, generation: u64)
        ensures
            final(self).view() == spec_commit_stage(old(self).view(), generation),
    {
        proof {
            use_type_invariant(&*self);
        }
        if self.staging_generation == Some(generation) {
            let mut staged: Option<ScreenCaptureFrame<S>> = None;
            std::mem::swap(&mut staged, &mut self.staged);
            if let Some(frame) = staged {
                self.committed = Some(frame);
            }
            self.staging_generation = None;
        }
    }

    /// Discards staged `generation` and its frame; the committed frame stays.
    pub fn discard_root4_stage(&mut self, generation: u64)
        ensures
            final(self).view() == spec_discard_stage(old(self).view(), generation),
    {
        proof {
            use_type_invariant(&*self);
        }
        if self.staging_generation == Some(generation) {
            self.staging_generation = None;
            self.staged = None;
        }
    }

    /// Whether a frame of `generation` is waiting in the staging slot for that generation.
    pub fn root4_stage_has_frame(&self, generation: u64) -> (r: bool)
        ensures
            r == spec_stage_has_frame(self.view(), generation),
    {
        if self.staging_generation != Some(generation) {
            return false;
        }
        match &self.staged {
            Some(frame) => match &frame.root_geometry {
                Some(root) => root.generation == generation,
                None => false,
            },
            None => false,
        }
    }

    /// The root geometry of the committed frame, against which capture geometry is resolved.
    pub fn committed_root_geometry(&self) -> (r: Result<&RootGeometrySnapshot<S>, CaptureError>)
        ensures
            self.view().committed is None ==> r == Err::<&RootGeometrySnapshot<S>, CaptureError>(CaptureError::NotFound),
            self.view().committed matches Some(f) ==> match f.root_geometry {
                None => r == Err::<&RootGeometrySnapshot<S>, CaptureError>(CaptureError::GeometryUnavailable),
                Some(root) => r matches Ok(got) && *got == root,
            },
    {
        match &self.committed {
            None => Err(CaptureError::NotFound),
            Some(frame) => match &frame.root_geometry {
                None => Err(CaptureError::GeometryUnavailable),
                Some(root) => Ok(root),
            },
        }
    }

    /// The committed frame turned upright (XRGB8888, with its width and height).
    pub fn committed_view_xrgb8888(&self) -> (r: Option<(usize, usize, Vec<u8>)>)
        ensures
            self.view().committed is None ==> r is None,
            self.view().committed matches Some(f) ==> r matches Some((w, h, pixels)) && (w as int, h as int)
                == rotated_dims(spec_capture_pixel_rotation(f.rotation), f.width as int, f.height as int)
                && pixels@ == scanout_view(f.pixels, f.width as int, f.height as int, f.rotation),
    {
        proof {
            use_type_invariant(self);
        }
        match &self.committed {
            None => None,
            Some(frame) => Some(frame.view_xrgb8888()),
        }
    }

    /// The committed frame, turned upright and encoded as an RGB PNG file.
    pub fn write_png(&self) -> (r: Result<Vec<u8>, CaptureError>)
        ensures
            encoded_bytes(r) == spec_write_png(self.view()),
    {
        proof {
            use_type_invariant(self);
        }
        match &self.committed {
            None => Err(CaptureError::NotFound),
            Some(frame) => {
                let (width, height, view) = frame.view_xrgb8888();
                let rgb = xrgb8888_to_rgb(view.as_slice());
                encode_png(width, height, rgb.as_slice())
            },
        }
    }

    /// The physical pixels that `geometry` (resolved against the committed root geometry)
    /// covers, encoded as an RGB PNG file in scanout orientation.
    pub fn write_root4_png(&self, geometry: CaptureGeometry) -> (r: Result<Vec<u8>, CaptureError>)
        ensures
            encoded_bytes(r) == spec_write_root4_png(self.view(), geometry),
            r matches Ok(bytes) ==> png_declares_size(
                bytes@,
                geometry.physical_pixel_rect.width as u32,
                geometry.physical_pixel_rect.height as u32,
            ),
    {
        proof {
            use_type_invariant(self);
        }
        match &self.committed {
            None => Err(CaptureError::NotFound),
            Some(frame) => match &frame.root_geometry {
                None => Err(CaptureError::GeometryUnavailable),
                Some(_) => frame.crop_png(geometry.physical_pixel_rect),
            },
        }
    }

    /// The capture geometry recorded for `pane_id` in the committed frame, and its pixels
    /// encoded as an RGB PNG file.
    pub fn write_root4_pane_png(&self, pane_id: &PaneId) -> (r: Result<(CaptureGeometry, Vec<u8>), CaptureError>)
        ensures
            pane_png_bytes(r) == spec_write_root4_pane_png(self.view(), pane_id.0@),
            r matches Ok((g, bytes)) ==> png_declares_size(
                bytes@,
                g.physical_pixel_rect.width as u32,
                g.physical_pixel_rect.height as u32,
            ),
    {
        proof {
            use_type_invariant(self);
        }
        match &self.committed {
            None => Err(CaptureError::NotFound),
            Some(frame) => {
                let panes = &frame.pane_captures;
                let mut i: usize = 0;
                let mut found: Option<CaptureGeometry> = None;
                let n = panes.len();
                proof {
                    assert(panes@.skip(0) =~= panes@);
                }
                while i < n && found.is_none()
                    invariant
                        n == panes@.len(),
                        i <= panes@.len(),
                        found is None ==> find_pane_capture(panes@, pane_id.0@) == find_pane_capture(panes@.skip(i as int), pane_id.0@),
                        found is Some ==> found == find_pane_capture(panes@, pane_id.0@),
                    decreases panes@.len() - i,
                {
                    assert(panes@.skip(i as int).drop_first() =~= panes@.skip(i + 1));
                    if panes[i].0.0 == pane_id.0 {
                        found = Some(panes[i].1);
                    }
                    i = i + 1;
                }
                proof {
                    if found is None {
                        assert(panes@.skip(panes@.len() as int).len() == 0);
                    }
                }
                match found {
                    None => Err(CaptureError::PaneCaptureUnavailable),
                    Some(geometry) => match frame.crop_png(geometry.physical_pixel_rect) {
                        Ok(bytes) => Ok((geometry, bytes)),
                        Err(e) => Err(e),
                    },
                }
            },
        }
    }

    /// The root geometry generation of the committed frame, and the generation being staged.
    pub fn root4_generations_for_test(&self) -> (r: (Option<u64>, Option<u64>))
        ensures
            r.0 == (match self.view().committed {
                Some(f) => match f.root_geometry {
                    Some(root) => Some(root.generation),
                    None => None,
                },
                None => None,
            }),
            r.1 == self.view().staging_generation,
    {
        let committed = match &self.committed {
            Some(frame) => match &frame.root_geometry {
                Some(root) => Some(root.generation),
                None => None,
            },
            None => None,
        };
        (committed, self.staging_generation)
    }
}

impl<S> Default for ScreenCaptureStore<S> {
    fn default() -> (store: Self)
        ensures
            store.view() == (StoreView::<S> { committed: None, staging_generation: None, staged: None }),
    {
        Self::new()
    }
}

/// A plain frame, once published, is the committed frame whatever was committed
/// before, and the root4 staging slot is left alone.
pub proof fn lemma_latest_frame_is_committed<S>(v: StoreView<S>, frame: FrameView<S>)
    ensures
        spec_publish_frame(v, frame).committed == Some(frame),
        spec_publish_frame(v, frame).staging_generation == v.staging_generation,
        spec_publish_frame(v, frame).staged == v.staged,
{
}

/// Of two plain frames published one after the other, the later one is committed, and
/// the screenshot is the same as if the earlier one had never been published.
pub proof fn lemma_later_frame_replaces_earlier<S>(v: StoreView<S>, first: FrameView<S>, second: FrameView<S>)
    ensures
        spec_publish_frame(spec_publish_frame(v, first), second).committed == Some(second),
        spec_write_png(spec_publish_frame(spec_publish_frame(v, first), second))
            == spec_write_png(spec_publish_frame(v, second)),
{
}

/// A root4 frame published while its generation is staged stays out of sight: the
/// committed frame is unchanged, and the staging slot holds the frame for that generation.
pub proof fn lemma_staged_frame_stays_private<S>(v: StoreView<S>, generation: u64, frame: FrameView<S>)
    requires
        frame.root_geometry matches Some(root) && root.generation == generation,
    ensures
        ({
            let staged = spec_publish_root4(spec_begin_stage(v, generation), generation, frame);
            &&& staged.committed == v.committed
            &&& spec_stage_has_frame(staged, generation)
        }),
{
}

/// Committing the staged generation makes its frame the committed frame and ends staging.
pub proof fn lemma_commit_publishes_staged_frame<S>(v: StoreView<S>, generation: u64, frame: FrameView<S>)
    ensures
        ({
            let staged = spec_publish_root4(spec_begin_stage(v, generation), generation, frame);
            let done = spec_commit_stage(staged, generation);
            &&& done.committed == Some(frame)
            &&& done.staging_generation is None
            &&& !spec_stage_has_frame(done, generation)
        }),
{
}

/// Discarding the staged generation restores exactly the committed frame that was visible
/// before staging began.
pub proof fn lemma_discard_restores_committed<S>(v: StoreView<S>, generation: u64, frame: FrameView<S>)
    ensures
        ({
            let staged = spec_publish_root4(spec_begin_stage(v, generation), generation, frame);
            let done = spec_discard_stage(staged, generation);
            &&& done.committed == v.committed
            &&& done.staging_generation is None
            &&& !spec_stage_has_frame(done, generation)
        }),
{
}

/// Committing a staged generation for which no frame arrived leaves the committed frame.
pub proof fn lemma_commit_without_frame_keeps_committed<S>(v: StoreView<S>, generation: u64)
    ensures
        spec_commit_stage(spec_begin_stage(v, generation), generation).committed == v.committed,
{
}

/// Committing or discarding a generation that is not being staged changes nothing.
pub proof fn lemma_other_generation_untouched<S>(v: StoreView<S>, generation: u64)
    requires
        v.staging_generation != Some(generation),
    ensures
        spec_commit_stage(v, generation) == v,
        spec_discard_stage(v, generation) == v,
{
}

/// A root4 frame whose generation is not being staged is committed at once, and the
/// staging slot is left as it was.
pub proof fn lemma_unstaged_frame_commits_immediately<S>(v: StoreView<S>, generation: u64, frame: FrameView<S>)
    requires
        v.staging_generation != Some(generation),
    ensures
        spec_publish_root4(v, generation, frame).committed == Some(frame),
        spec_publish_root4(v, generation, frame).staging_generation == v.staging_generation,
        spec_publish_root4(v, generation, frame).staged == v.staged,
{
}

} // verus!
