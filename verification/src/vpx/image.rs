//! Decoded images and their conversion to packed RGBA.

use vstd::prelude::*;
use vstd::arithmetic::div_mod::lemma_fundamental_div_mod_converse;
use crate::vpx::Error;
use crate::vpx::yuv::{channel, clamp_byte, lemma_black, lemma_white, rgba_word};

verus! {

/// Format tag of 8-bit planar YUV with 4:2:0 chroma subsampling.
pub const IMG_FMT_I420: u32 = 0x102;

/// The largest display width or height that an image may have.
pub const DIMENSION_MAX: u32 = 65535;

/// One plane of samples: row `i` starts at index `i * stride` of `data`.
#[derive(Debug)]
pub struct Plane {
    pub data: Vec<u8>,
    pub stride: i32,
}

/// A plane as a mathematical value.
pub struct PlaneView {
    pub data: Seq<u8>,
    pub stride: int,
}

impl View for Plane {
    type V = PlaneView;

    open spec fn view(&self) -> PlaneView {
        PlaneView { data: self.data@, stride: self.stride as int }
    }
}

impl PlaneView {
    /// The plane holds `rows` rows of `cols` samples each: the stride covers a
    /// row, and the last sample of the last row lies inside the data.
    pub open spec fn fits(self, rows: int, cols: int) -> bool {
        &&& self.stride >= cols
        &&& (rows - 1) * self.stride + cols <= self.data.len()
    }

    /// The sample in row `i`, column `j`.
    pub open spec fn at(self, i: int, j: int) -> u8 {
        self.data[i * self.stride + j]
    }
}

/// One reconstructed frame: its pixel format, the dimensions of its buffer
/// and of its visible region, and the luma and the two chroma planes.
#[derive(Debug)]
pub struct Image {
    fmt: u32,
    bit_depth: u32,
    w: u32,
    h: u32,
    d_w: u16,
    d_h: u16,
    y: Plane,
    u: Plane,
    v: Plane,
}

/// An image as a mathematical value.
pub struct ImageView {
    pub fmt: u32,
    pub bit_depth: u32,
    pub w: nat,
    pub h: nat,
    pub d_w: nat,
    pub d_h: nat,
    pub y: PlaneView,
    pub u: PlaneView,
    pub v: PlaneView,
}

/// The dimensions that an image may have: the visible region is not empty,
/// lies inside the buffer and is at most `DIMENSION_MAX` wide and high.
pub open spec fn dimensions_ok(w: nat, h: nat, d_w: nat, d_h: nat) -> bool {
    &&& 0 < d_w <= w
    &&& 0 < d_h <= h
    &&& d_w <= DIMENSION_MAX
    &&& d_h <= DIMENSION_MAX
}

impl ImageView {
    /// What holds of every image: see `dimensions_ok`.
    pub open spec fn wf(self) -> bool {
        dimensions_ok(self.w, self.h, self.d_w, self.d_h)
    }

    /// The image is 8-bit planar 4:2:0, the one format that is converted.
    pub open spec fn supported(self) -> bool {
        self.fmt == IMG_FMT_I420 && self.bit_depth == 8
    }

    /// Width of the chroma planes: half the display width, rounded up.
    pub open spec fn chroma_w(self) -> int {
        (self.d_w as int + 1) / 2
    }

    /// Height of the chroma planes: half the display height, rounded up.
    pub open spec fn chroma_h(self) -> int {
        (self.d_h as int + 1) / 2
    }

    /// Every sample of the visible region lies inside its plane, and the
    /// pixel buffer has a length that this machine can address.
    pub open spec fn geometry_ok(self) -> bool {
        &&& self.y.fits(self.d_h as int, self.d_w as int)
        &&& self.u.fits(self.chroma_h(), self.chroma_w())
        &&& self.v.fits(self.chroma_h(), self.chroma_w())
        &&& 4 * self.d_w * self.d_h <= usize::MAX
    }

    /// Why the image cannot be converted, if it cannot.
    pub open spec fn conversion_error(self) -> Option<Error> {
        if !self.supported() {
            Some(Error::UnsupportedPixelFormat)
        } else if !self.geometry_ok() {
            Some(Error::InvalidImage)
        } else {
            None
        }
    }

    /// Channel `c` of the pixel in row `i`, column `j`. Luma is read at
    /// `(i, j)`, both chroma samples at `(i / 2, j / 2)`.
    pub open spec fn pixel_channel(self, i: int, j: int, c: int) -> int {
        channel(self.y.at(i, j), self.u.at(i / 2, j / 2), self.v.at(i / 2, j / 2), c)
    }

    /// Byte `k` of the pixel buffer: rows from top to bottom, pixels from left
    /// to right, four bytes R, G, B, A for each pixel.
    pub open spec fn rgba_byte(self, k: int) -> u8 {
        let p = k / 4;
        self.pixel_channel(p / (self.d_w as int), p % (self.d_w as int), k % 4) as u8
    }

    /// The pixel buffer: `d_w * d_h * 4` bytes.
    pub open spec fn rgba8(self) -> Seq<u8> {
        Seq::new(4 * self.d_w * self.d_h, |k: int| self.rgba_byte(k))
    }
}

impl View for Image {
    type V = ImageView;

    closed spec fn view(&self) -> ImageView {
        ImageView {
            fmt: self.fmt,
            bit_depth: self.bit_depth,
            w: self.w as nat,
            h: self.h as nat,
            d_w: self.d_w as nat,
            d_h: self.d_h as nat,
            y: self.y@,
            u: self.u@,
            v: self.v@,
        }
    }
}

/// The size of one dimension of the chroma planes of an image whose luma
/// plane has `luma` samples in that dimension: half of it, rounded up.
pub fn chroma_dimension(luma: u32) -> (chroma: u32)
    ensures
        chroma == (luma + 1) / 2,
{
    luma / 2 + luma % 2
}

/// The number of samples that a plane with the stride `stride` must hold so
/// that it has `rows` rows of `cols` samples: `(rows - 1) * stride + cols`.
/// There is no such number where the stride does not cover a row, where a
/// dimension is zero or over `DIMENSION_MAX`, or where this machine cannot
/// address that many samples.
pub fn plane_size(stride: i32, rows: u32, cols: u32) -> (size: Option<usize>)
    ensures
        size is Some <==> {
            &&& 0 < rows <= DIMENSION_MAX
            &&& 0 < cols <= DIMENSION_MAX
            &&& stride >= cols
            &&& (rows - 1) * stride + cols <= usize::MAX
        },
        size matches Some(n) ==> n == (rows - 1) * stride + cols,
{
    if rows == 0 || rows > DIMENSION_MAX || cols == 0 || cols > DIMENSION_MAX || stride < 0 {
        return None;
    }
    let stride: u64 = stride as u64;
    if stride < cols as u64 {
        return None;
    }
    assert((rows - 1) * stride <= 65534 * 0x7fff_ffff) by (nonlinear_arith)
        requires
            0 <= rows - 1 <= 65534,
            0 <= stride <= 0x7fff_ffff,
    ;
    let need: u64 = (rows as u64 - 1) * stride + cols as u64;
    if need > usize::MAX as u64 {
        return None;
    }
    Some(need as usize)
}

/// Whether `plane` holds `rows` rows of `cols` samples.
fn plane_fits(plane: &Plane, rows: u32, cols: u32) -> (ok: bool)
    requires
        0 < rows <= DIMENSION_MAX,
        0 < cols <= DIMENSION_MAX,
    ensures
        ok == plane@.fits(rows as int, cols as int),
{
    let len = plane.data.len();
    match plane_size(plane.stride, rows, cols) {
        Some(need) => need <= len,
        None => false,
    }
}

impl Image {
    #[verifier::type_invariant]
    spec fn inv(self) -> bool {
        self@.wf()
    }

    /// Describes a decoded image. `w` and `h` are the dimensions of the
    /// buffer, `d_w` and `d_h` those of the visible region; `y`, `u` and `v`
    /// are the three planes. Dimensions that no image may have are refused.
    pub fn new(
        fmt: u32,
        bit_depth: u32,
        w: u32,
        h: u32,
        d_w: u32,
        d_h: u32,
        y: Plane,
        u: Plane,
        v: Plane,
    ) -> (res: Result<Image, Error>)
        ensures
            res is Ok <==> dimensions_ok(w as nat, h as nat, d_w as nat, d_h as nat),
            res matches Ok(img) ==> img@ == (ImageView {
                fmt,
                bit_depth,
                w: w as nat,
                h: h as nat,
                d_w: d_w as nat,
                d_h: d_h as nat,
                y: y@,
                u: u@,
                v: v@,
            }),
            res matches Err(e) ==> e == Error::InvalidImage,
    {
        if d_w == 0 || d_w > DIMENSION_MAX || d_w > w {
            return Err(Error::InvalidImage);
        }
        if d_h == 0 || d_h > DIMENSION_MAX || d_h > h {
            return Err(Error::InvalidImage);
        }
        Ok(Image { fmt, bit_depth, w, h, d_w: d_w as u16, d_h: d_h as u16, y, u, v })
    }

    /// Width of the visible region, in pixels.
    pub fn get_display_width(&self) -> (width: u16)
        ensures
            width == self@.d_w,
            width > 0,
    {
        proof {
            use_type_invariant(self);
        }
        self.d_w
    }

    /// Height of the visible region, in pixels.
    pub fn get_display_height(&self) -> (height: u16)
        ensures
            height == self@.d_h,
            height > 0,
    {
        proof {
            use_type_invariant(self);
        }
        self.d_h
    }

    /// Branchless `max(0, val)`.
    #[inline]
    fn clamp0(val: i32) -> (r: i32)
        requires
            val > i32::MIN,
        ensures
            r == if val < 0 { 0 } else { val as int },
    {
        let neg: i32 = -val;
        assert((neg >> 31) & val == if val < 0 { 0i32 } else { val }) by (bit_vector)
            requires
                neg == -val,
                val > i32::MIN,
        ;
        (neg >> 31) & val
    }

    /// Branchless `min(255, val)` for a `val` that is not negative.
    #[inline]
    fn clamp255(val: i32) -> (r: i32)
        requires
            val >= 0,
        ensures
            r == if val > 255 { 255 } else { val as int },
    {
        let over: i32 = 255 - val;
        assert(((over >> 31) | val) & 255 == if val > 255 { 255i32 } else { val }) by (bit_vector)
            requires
                over == 255 - val,
                val >= 0,
        ;
        ((over >> 31) | val) & 255
    }

    /// Limits `val` to the range of a byte without branching.
    #[inline]
    fn clamp(val: i32) -> (r: u32)
        requires
            val > i32::MIN,
        ensures
            r == clamp_byte(val as int),
    {
        Self::clamp255(Self::clamp0(val)) as u32
    }

    /// Converts one 8-bit YUV sample to an opaque RGBA8 pixel with the BT.601
    /// limited-range coefficients. The bytes of the result, in little-endian
    /// order, are R, G, B and A.
    #[inline]
    pub fn yuv_to_rgba(y: u8, u: u8, v: u8) -> (pixel: u32)
        ensures
            pixel == rgba_word(y, u, v),
    {
        let c: i32 = y as i32 - 16;
        let d: i32 = u as i32 - 128;
        let e: i32 = v as i32 - 128;
        let y1: i32 = 298 * c + 128;
        let r_in: i32 = y1 + 409 * e;
        let g_in: i32 = y1 - 100 * d - 208 * e;
        let b_in: i32 = y1 + 516 * d;
        assert(r_in >> 8 == (r_in as int) / 256) by (bit_vector)
            requires
                -200000 <= r_in <= 200000,
        ;
        assert(g_in >> 8 == (g_in as int) / 256) by (bit_vector)
            requires
                -200000 <= g_in <= 200000,
        ;
        assert(b_in >> 8 == (b_in as int) / 256) by (bit_vector)
            requires
                -200000 <= b_in <= 200000,
        ;
        let r: u32 = Self::clamp(r_in >> 8);
        let g: u32 = Self::clamp(g_in >> 8);
        let b: u32 = Self::clamp(b_in >> 8);
        let a: u32 = 255;
        assert(a << 24 | b << 16 | g << 8 | r == r + 256 * g + 65536 * b + 16777216 * 255)
            by (bit_vector)
            requires
                r < 256,
                g < 256,
                b < 256,
                a == 255,
        ;
        a << 24 | b << 16 | g << 8 | r
    }
    /// Converts the image to a packed RGBA8 buffer of `d_w * d_h * 4` bytes,
    /// rows from top to bottom, with alpha always 255. Fails as a whole, with
    /// no buffer, where the image is of another pixel format or its planes do
    /// not hold the visible region.
    pub fn get_rgba8(&self) -> (res: Result<Vec<u8>, Error>)
        ensures
            match res {
                Ok(pixels) => {
                    &&& self@.conversion_error() is None
                    &&& pixels@ == self@.rgba8()
                    &&& pixels@.len() == 4 * self@.d_w * self@.d_h
                    &&& forall|k: int| 0 <= k < pixels@.len() && k % 4 == 3 ==> pixels@[k] == 255
                },
                Err(e) => self@.conversion_error() == Some(e),
            },
    {
        proof {
            use_type_invariant(self);
        }
        if self.fmt != IMG_FMT_I420 || self.bit_depth != 8 {
            return Err(Error::UnsupportedPixelFormat);
        }
        let cw: u32 = chroma_dimension(self.d_w as u32);
        let ch: u32 = chroma_dimension(self.d_h as u32);
        if !plane_fits(&self.y, self.d_h as u32, self.d_w as u32) || !plane_fits(&self.u, ch, cw)
            || !plane_fits(&self.v, ch, cw) {
            return Err(Error::InvalidImage);
        }
        let w: usize = self.d_w as usize;
        let h: usize = self.d_h as usize;
        assert(4 * w * h <= 4 * 65535 * 65535) by (nonlinear_arith)
            requires
                0 <= w <= 65535,
                0 <= h <= 65535,
        ;
        let len: u64 = 4 * (w as u64) * (h as u64);
        if len > usize::MAX as u64 {
            return Err(Error::InvalidImage);
        }
        let y_step: usize = self.y.stride as usize;
        let u_step: usize = self.u.stride as usize;
        let v_step: usize = self.v.stride as usize;
        let mut y_offset: usize = 0;
        let mut u_offset: usize = 0;
        let mut v_offset: usize = 0;
        let mut pixels: Vec<u8> = Vec::with_capacity(len as usize);
        let y_len: usize = self.y.data.len();
        let u_len: usize = self.u.data.len();
        let v_len: usize = self.v.data.len();

        let mut i: usize = 0;
        assert((i / 2) * u_step == 0 && (i / 2) * v_step == 0 && i * y_step == 0 && i * w == 0)
            by (nonlinear_arith)
            requires
                i == 0,
        ;
        while i < h
            invariant
                self@.geometry_ok(),
                y_len == self@.y.data.len(),
                u_len == self@.u.data.len(),
                v_len == self@.v.data.len(),
                w == self@.d_w,
                h == self@.d_h,
                0 < w,
                y_step == self@.y.stride,
                u_step == self@.u.stride,
                v_step == self@.v.stride,
                i <= h,
                i < h ==> y_offset == i * y_step,
                i < h ==> u_offset == (i / 2) * u_step,
                i < h ==> v_offset == (i / 2) * v_step,
                pixels@.len() == 4 * (i * w),
                forall|k: int| 0 <= k < pixels@.len() ==> pixels@[k] == self@.rgba_byte(k),
            decreases h - i,
        {
            let mut j: usize = 0;
            while j < w
                invariant
                    self@.geometry_ok(),
                    y_len == self@.y.data.len(),
                    u_len == self@.u.data.len(),
                    v_len == self@.v.data.len(),
                    w == self@.d_w,
                    h == self@.d_h,
                    y_step == self@.y.stride,
                    u_step == self@.u.stride,
                    v_step == self@.v.stride,
                    i < h,
                    j <= w,
                    y_offset == i * y_step,
                    u_offset == (i / 2) * u_step,
                    v_offset == (i / 2) * v_step,
                    pixels@.len() == 4 * (i * w + j),
                    forall|k: int| 0 <= k < pixels@.len() ==> pixels@[k] == self@.rgba_byte(k),
                decreases w - j,
            {
                proof {
                    lemma_sample_in_plane(self@.y, h as int, w as int, i as int, j as int);
                    lemma_sample_in_plane(
                        self@.u,
                        self@.chroma_h(),
                        self@.chroma_w(),
                        i as int / 2,
                        j as int / 2,
                    );
                    lemma_sample_in_plane(
                        self@.v,
                        self@.chroma_h(),
                        self@.chroma_w(),
                        i as int / 2,
                        j as int / 2,
                    );
                }
                let y: u8 = self.y.data[y_offset + j];
                let u: u8 = self.u.data[u_offset + j / 2];
                let v: u8 = self.v.data[v_offset + j / 2];
                let word: u32 = Self::yuv_to_rgba(y, u, v);
                let ghost before = pixels@;
                let ghost r = channel(y, u, v, 0) as u32;
                let ghost g = channel(y, u, v, 1) as u32;
                let ghost b = channel(y, u, v, 2) as u32;
                assert(word & 0xff == r && (word >> 8) & 0xff == g && (word >> 16) & 0xff == b && (
                word >> 24) & 0xff == 255) by (bit_vector)
                    requires
                        word == r + 256 * g + 65536 * b + 16777216 * 255,
                        r < 256,
                        g < 256,
                        b < 256,
                ;
                pixels.push((word & 0xff) as u8);
                pixels.push(((word >> 8) & 0xff) as u8);
                pixels.push(((word >> 16) & 0xff) as u8);
                pixels.push(((word >> 24) & 0xff) as u8);
                proof {
                    assert forall|k: int| 0 <= k < pixels@.len() implies pixels@[k]
                        == self@.rgba_byte(k) by {
                        if k >= before.len() {
                            lemma_pixel_index(w as int, i as int, j as int, k - before.len());
                        } else {
                            assert(pixels@[k] == before[k]);
                        }
                    }
                }
                j += 1;
            }
            proof {
                assert(4 * (i * w + w) == 4 * ((i + 1) * w)) by (nonlinear_arith);
            }
            if i + 1 < h {
                proof {
                    lemma_sample_in_plane(self@.y, h as int, w as int, i as int + 1, 0);
                    lemma_sample_in_plane(
                        self@.u,
                        self@.chroma_h(),
                        self@.chroma_w(),
                        (i as int + 1) / 2,
                        0,
                    );
                    lemma_sample_in_plane(
                        self@.v,
                        self@.chroma_h(),
                        self@.chroma_w(),
                        (i as int + 1) / 2,
                        0,
                    );
                    assert((i + 1) * y_step == i * y_step + y_step) by (nonlinear_arith);
                    if i % 2 != 0 {
                        assert((i + 1) / 2 == i / 2 + 1);
                        assert((i / 2 + 1) * u_step == (i / 2) * u_step + u_step)
                            by (nonlinear_arith);
                        assert((i / 2 + 1) * v_step == (i / 2) * v_step + v_step)
                            by (nonlinear_arith);
                    } else {
                        assert((i + 1) / 2 == i / 2);
                    }
                }
                y_offset += y_step;
                if i % 2 != 0 {
                    u_offset += u_step;
                    v_offset += v_step;
                }
            }
            i += 1;
        }
        assert(4 * (h * w) == 4 * self@.d_w * self@.d_h) by (nonlinear_arith)
            requires
                w == self@.d_w,
                h == self@.d_h,
        ;
        assert(pixels@ =~= self@.rgba8());
        Ok(pixels)
    }
}

/// Sample `(i, j)` of a plane that holds `rows` rows of `cols` samples lies
/// inside the plane's data.
proof fn lemma_sample_in_plane(plane: PlaneView, rows: int, cols: int, i: int, j: int)
    requires
        plane.fits(rows, cols),
        0 <= i < rows,
        0 <= j < cols,
    ensures
        0 <= i * plane.stride,
        0 <= i * plane.stride + j < plane.data.len(),
{
    assert(0 <= i * plane.stride <= (rows - 1) * plane.stride) by (nonlinear_arith)
        requires
            0 <= i <= rows - 1,
            0 <= plane.stride,
    ;
}

/// Byte `c` of pixel `(i, j)` is byte `4 * (i * w + j) + c` of the buffer, and
/// the other way round.
proof fn lemma_pixel_index(w: int, i: int, j: int, c: int)
    requires
        0 < w,
        0 <= i,
        0 <= j < w,
        0 <= c < 4,
    ensures
        (4 * (i * w + j) + c) / 4 == i * w + j,
        (4 * (i * w + j) + c) % 4 == c,
        (i * w + j) / w == i,
        (i * w + j) % w == j,
{
    lemma_fundamental_div_mod_converse(i * w + j, w, i, j);
    assert(0 <= i * w) by (nonlinear_arith)
        requires
            0 <= i,
            0 < w,
    ;
}

/// The layout of the pixel buffer: channel `c` of the pixel in row `i`,
/// column `j` is byte `4 * (i * d_w + j) + c`. Rows follow each other from top
/// to bottom as in the image.
pub proof fn lemma_rgba8_layout(img: ImageView, i: int, j: int, c: int)
    requires
        0 <= i < img.d_h,
        0 <= j < img.d_w,
        0 <= c < 4,
    ensures
        0 <= 4 * (i * img.d_w + j) + c < img.rgba8().len(),
        img.rgba8()[4 * (i * img.d_w + j) + c] == img.pixel_channel(i, j, c) as u8,
{
    let w = img.d_w as int;
    let h = img.d_h as int;
    lemma_pixel_index(w, i, j, c);
    assert(i * w + j < h * w) by (nonlinear_arith)
        requires
            0 <= i < h,
            0 <= j < w,
    ;
    assert(4 * img.d_w * img.d_h == 4 * (h * w)) by (nonlinear_arith)
        requires
            w == img.d_w,
            h == img.d_h,
    ;
}

/// The four pixels of a block of two rows and two columns read the same
/// chroma samples: block `(a, b)` reads row `a`, column `b` of both chroma
/// planes, whichever of its pixels `(2 * a + di, 2 * b + dj)` is converted.
pub proof fn lemma_block_shares_chroma(img: ImageView, a: int, b: int, di: int, dj: int, c: int)
    requires
        0 <= a,
        0 <= b,
        0 <= di <= 1,
        0 <= dj <= 1,
    ensures
        img.pixel_channel(2 * a + di, 2 * b + dj, c) == channel(
            img.y.at(2 * a + di, 2 * b + dj),
            img.u.at(a, b),
            img.v.at(a, b),
            c,
        ),
{
}

/// An image that can be converted and whose planes hold one luma value `y`
/// and one pair of chroma values `u`, `v` throughout converts to a buffer in
/// which every pixel is the colour of `(y, u, v)`.
pub proof fn lemma_uniform_image(img: ImageView, y: u8, u: u8, v: u8, k: int)
    requires
        img.wf(),
        img.conversion_error() is None,
        forall|n: int| 0 <= n < img.y.data.len() ==> img.y.data[n] == y,
        forall|n: int| 0 <= n < img.u.data.len() ==> img.u.data[n] == u,
        forall|n: int| 0 <= n < img.v.data.len() ==> img.v.data[n] == v,
        0 <= k < img.rgba8().len(),
    ensures
        img.rgba8()[k] == channel(y, u, v, k % 4) as u8,
{
    let w = img.d_w as int;
    let h = img.d_h as int;
    let p = k / 4;
    let i = p / w;
    let j = p % w;
    assert(p < w * h) by (nonlinear_arith)
        requires
            0 <= k < 4 * img.d_w * img.d_h,
            p == k / 4,
            w == img.d_w,
            h == img.d_h,
    ;
    assert(0 <= i < h && 0 <= j < w) by (nonlinear_arith)
        requires
            0 <= p < w * h,
            0 < w,
            i == p / w,
            j == p % w,
    ;
    lemma_sample_in_plane(img.y, h, w, i, j);
    lemma_sample_in_plane(img.u, img.chroma_h(), img.chroma_w(), i / 2, j / 2);
    lemma_sample_in_plane(img.v, img.chroma_h(), img.chroma_w(), i / 2, j / 2);
}

/// An image that can be converted and whose luma samples are all 16 and
/// whose chroma samples are all 128 converts to pixels `(0, 0, 0, 255)`.
pub proof fn lemma_black_image(img: ImageView, k: int)
    requires
        img.wf(),
        img.conversion_error() is None,
        forall|n: int| 0 <= n < img.y.data.len() ==> img.y.data[n] == 16,
        forall|n: int| 0 <= n < img.u.data.len() ==> img.u.data[n] == 128,
        forall|n: int| 0 <= n < img.v.data.len() ==> img.v.data[n] == 128,
        0 <= k < img.rgba8().len(),
    ensures
        img.rgba8()[k] == if k % 4 == 3 { 255u8 } else { 0u8 },
{
    lemma_uniform_image(img, 16, 128, 128, k);
    lemma_black(k % 4);
}

/// An image that can be converted and whose luma samples are all 235 and
/// whose chroma samples are all 128 converts to pixels
/// `(255, 255, 255, 255)`.
pub proof fn lemma_white_image(img: ImageView, k: int)
    requires
        img.wf(),
        img.conversion_error() is None,
        forall|n: int| 0 <= n < img.y.data.len() ==> img.y.data[n] == 235,
        forall|n: int| 0 <= n < img.u.data.len() ==> img.u.data[n] == 128,
        forall|n: int| 0 <= n < img.v.data.len() ==> img.v.data[n] == 128,
        0 <= k < img.rgba8().len(),
    ensures
        img.rgba8()[k] == 255u8,
{
    lemma_uniform_image(img, 235, 128, 128, k);
    lemma_white(k % 4);
}

} // verus!
