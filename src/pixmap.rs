//! Decoded RGBA images held as plain bytes, and the fills the renderer draws.
use vstd::prelude::*;

verus! {

/// An RGBA quadruple of 8-bit channels.
pub type Color = (u8, u8, u8, u8);

/// Largest pixel count of an image the library composes.
pub const MAX_PIXELS: u64 = 0x1000_0000;

/// A decoded image: `width * height` pixels in row-major order, four bytes each.
#[derive(Debug)]
pub struct Pixmap {
    pub width: u32,
    pub height: u32,
    pub data: Vec<u8>,
}

/// The colour stored at pixel `i` of flat RGBA bytes.
pub open spec fn pixel_of(data: Seq<u8>, i: int) -> Color {
    (data[4 * i], data[4 * i + 1], data[4 * i + 2], data[4 * i + 3])
}

impl View for Pixmap {
    type V = (u32, u32, Seq<u8>);

    open spec fn view(&self) -> (u32, u32, Seq<u8>) {
        (self.width, self.height, self.data@)
    }
}

impl Pixmap {
    /// A copy of the image.
    pub fn duplicate(&self) -> (r: Pixmap)
        ensures
            r@ == self@,
    {
        Pixmap { width: self.width, height: self.height, data: self.data.clone() }
    }

    pub open spec fn pixel_count(&self) -> int {
        self.width as int * self.height as int
    }

    /// The byte buffer holds exactly four bytes per pixel.
    pub open spec fn wf(&self) -> bool {
        &&& self.pixel_count() <= MAX_PIXELS
        &&& self.data@.len() == 4 * self.pixel_count()
    }

    pub open spec fn pixel(&self, i: int) -> Color {
        pixel_of(self.data@, i)
    }

    /// Pixel at column `x` of row `y`.
    pub open spec fn at(&self, x: int, y: int) -> Color {
        self.pixel(y * self.width + x)
    }
}

/// Ways of filling a whole image from a formula.
#[derive(Clone, Copy, Debug)]
pub enum Fill {
    Solid(Color),
    /// Left to right from the first colour to the second, at full alpha.
    Horizontal(Color, Color),
    /// Top to bottom from the first colour to the second, at full alpha.
    Vertical(Color, Color),
    /// The missing-asset pattern: 8-pixel magenta and black squares.
    Checker,
}

/// Linear interpolation from `s` (at `i == 0`) to `e` (at `i == n - 1`).
pub open spec fn lerp(s: u8, e: u8, i: int, n: int) -> u8 {
    if n <= 1 {
        s
    } else {
        ((s as int * (n - 1 - i) + e as int * i) / (n - 1)) as u8
    }
}

pub open spec fn lerp_color(s: Color, e: Color, i: int, n: int) -> Color {
    (lerp(s.0, e.0, i, n), lerp(s.1, e.1, i, n), lerp(s.2, e.2, i, n), 255u8)
}

pub open spec fn magenta() -> Color {
    (255u8, 0u8, 255u8, 255u8)
}

pub open spec fn black() -> Color {
    (0u8, 0u8, 0u8, 255u8)
}

/// The colour a fill gives at column `x` of row `y` of a `w` by `h` image.
pub open spec fn fill_color(f: Fill, w: int, h: int, x: int, y: int) -> Color {
    match f {
        Fill::Solid(c) => c,
        Fill::Horizontal(s, e) => lerp_color(s, e, x, w),
        Fill::Vertical(s, e) => lerp_color(s, e, y, h),
        Fill::Checker => if (x % 16 < 8) == (y % 16 < 8) {
            magenta()
        } else {
            black()
        },
    }
}

fn lerp_exec(s: u8, e: u8, i: u32, n: u32) -> (r: u8)
    requires
        i < n,
    ensures
        r == lerp(s, e, i as int, n as int),
{
    if n <= 1 {
        s
    } else {
        assert(s as int * (n - 1 - i) as int <= 255 * (n - 1 - i)) by (nonlinear_arith)
            requires s <= 255, i < n;
        assert(e as int * i as int <= 255 * i) by (nonlinear_arith)
            requires e <= 255, i < n;
        let a = s as u64 * (n - 1 - i) as u64;
        let b = e as u64 * i as u64;
        assert(a <= 255 * (n - 1 - i)) by (nonlinear_arith)
            requires a == s as u64 * (n - 1 - i) as u64, s <= 255, i < n;
        assert(b <= 255 * i) by (nonlinear_arith)
            requires b == e as u64 * i as u64, e <= 255;
        let d = (n - 1) as u64;
        let q = (a + b) / d;
        assert(q <= 255) by (nonlinear_arith)
            requires q as int == (a + b) as int / d as int, a + b <= 255 * d, d >= 1;
        q as u8
    }
}

fn lerp_color_exec(s: Color, e: Color, i: u32, n: u32) -> (r: Color)
    requires
        i < n,
    ensures
        r == lerp_color(s, e, i as int, n as int),
{
    (lerp_exec(s.0, e.0, i, n), lerp_exec(s.1, e.1, i, n), lerp_exec(s.2, e.2, i, n), 255u8)
}

fn fill_color_exec(f: &Fill, w: u32, h: u32, x: u32, y: u32) -> (r: Color)
    requires
        x < w,
        y < h,
    ensures
        r == fill_color(*f, w as int, h as int, x as int, y as int),
{
    match f {
        Fill::Solid(c) => *c,
        Fill::Horizontal(s, e) => lerp_color_exec(*s, *e, x, w),
        Fill::Vertical(s, e) => lerp_color_exec(*s, *e, y, h),
        Fill::Checker => if (x % 16 < 8) == (y % 16 < 8) {
            (255u8, 0u8, 255u8, 255u8)
        } else {
            (0u8, 0u8, 0u8, 255u8)
        },
    }
}

proof fn lemma_row_index(x: int, y: int, w: int, h: int)
    requires
        0 <= x < w,
        0 <= y < h,
    ensures
        0 <= y * w + x < h * w,
        y * w + x + 1 <= (y + 1) * w,
{
    assert(y * w + x < h * w) by (nonlinear_arith)
        requires 0 <= x < w, 0 <= y < h;
    assert(0 <= y * w) by (nonlinear_arith)
        requires 0 <= y, 0 <= w;
    assert((y + 1) * w == y * w + w) by (nonlinear_arith);
}

/// Draws a `width` by `height` image from a fill.
pub fn generate(width: u32, height: u32, f: &Fill) -> (r: Pixmap)
    requires
        width as int * height as int <= MAX_PIXELS,
    ensures
        r.wf(),
        r.width == width,
        r.height == height,
        forall|x: int, y: int|
            0 <= x < width && 0 <= y < height ==> #[trigger] r.at(x, y) == fill_color(
                *f,
                width as int,
                height as int,
                x,
                y,
            ),
{
    let mut data: Vec<u8> = Vec::new();
    let mut y: u32 = 0;
    while y < height
        invariant
            y <= height,
            width as int * height as int <= MAX_PIXELS,
            data@.len() == 4 * (y as int * width as int),
            forall|xx: int, yy: int|
                0 <= xx < width && 0 <= yy < y ==> #[trigger] pixel_of(data@, yy * width + xx)
                    == fill_color(*f, width as int, height as int, xx, yy),
        decreases height - y,
    {
        let mut x: u32 = 0;
        while x < width
            invariant
                x <= width,
                y < height,
                width as int * height as int <= MAX_PIXELS,
                data@.len() == 4 * (y as int * width as int + x as int),
                forall|xx: int, yy: int|
                    0 <= xx < width && 0 <= yy < y ==> #[trigger] pixel_of(data@, yy * width + xx)
                        == fill_color(*f, width as int, height as int, xx, yy),
                forall|xx: int|
                    0 <= xx < x ==> #[trigger] pixel_of(data@, y * width + xx) == fill_color(
                        *f,
                        width as int,
                        height as int,
                        xx,
                        y as int,
                    ),
            decreases width - x,
        {
            let c = fill_color_exec(f, width, height, x, y);
            let ghost before = data@;
            data.push(c.0);
            data.push(c.1);
            data.push(c.2);
            data.push(c.3);
            proof {
                assert(forall|k: int| 0 <= k < before.len() ==> data@[k] == before[k]);
                lemma_row_index(x as int, y as int, width as int, height as int);
                assert forall|xx: int, yy: int|
                    0 <= xx < width && 0 <= yy < y implies #[trigger] pixel_of(data@, yy * width + xx)
                        == fill_color(*f, width as int, height as int, xx, yy) by {
                    lemma_row_index(xx, yy, width as int, y as int);
                    assert(pixel_of(data@, yy * width + xx) == pixel_of(before, yy * width + xx));
                }
                assert forall|xx: int|
                    0 <= xx < x + 1 implies #[trigger] pixel_of(data@, y * width + xx) == fill_color(
                        *f,
                        width as int,
                        height as int,
                        xx,
                        y as int,
                    ) by {
                    if xx < x {
                        assert(pixel_of(data@, y * width + xx) == pixel_of(before, y * width + xx));
                    }
                }
            }
            x = x + 1;
        }
        proof {
            assert((y as int + 1) * width as int == y as int * width as int + width as int)
                by (nonlinear_arith);
        }
        y = y + 1;
    }
    assert(height as int * width as int == width as int * height as int) by (nonlinear_arith);
    Pixmap { width, height, data }
}

/// The image turned by 180 degrees: byte `k`, channel `k % 4` of pixel
/// `k / 4`, comes from the same channel of the mirrored pixel.
pub open spec fn rotated(img: (u32, u32, Seq<u8>)) -> (u32, u32, Seq<u8>) {
    let n = img.2.len() as int;
    (img.0, img.1, Seq::new(n as nat, |k: int| img.2[n - 4 - (k - k % 4) + k % 4]))
}

/// Turns an image by 180 degrees: pixel `i` of the result is pixel `n - 1 - i`
/// of the source, where `n` is the pixel count.
pub fn rotate180(img: &Pixmap) -> (r: Pixmap)
    requires
        img.wf(),
    ensures
        r.wf(),
        r.width == img.width,
        r.height == img.height,
        forall|i: int|
            0 <= i < img.pixel_count() ==> #[trigger] r.pixel(i) == img.pixel(
                img.pixel_count() - 1 - i,
            ),
        r@ == rotated(img@),
{
    let n: usize = img.width as usize * img.height as usize;
    let mut data: Vec<u8> = Vec::new();
    let mut i: usize = 0;
    while i < n
        invariant
            img.wf(),
            n == img.pixel_count(),
            i <= n,
            data@.len() == 4 * i,
            forall|j: int| 0 <= j < i ==> #[trigger] pixel_of(data@, j) == img.pixel(n - 1 - j),
        decreases n - i,
    {
        let k: usize = 4 * (n - 1 - i);
        let ghost before = data@;
        data.push(img.data[k]);
        data.push(img.data[k + 1]);
        data.push(img.data[k + 2]);
        data.push(img.data[k + 3]);
        proof {
            assert(forall|q: int| 0 <= q < before.len() ==> data@[q] == before[q]);
            assert forall|j: int| 0 <= j < i + 1 implies #[trigger] pixel_of(data@, j) == img.pixel(
                n - 1 - j,
            ) by {
                if j < i {
                    assert(pixel_of(data@, j) == pixel_of(before, j));
                }
            }
        }
        i = i + 1;
    }
    proof {
        let len = 4 * n as int;
        assert forall|k: int| 0 <= k < len implies #[trigger] data@[k] == img.data@[len - 4 - (k - k % 4) + k % 4] by {
            let p = k / 4;
            let c = k % 4;
            assert(k == 4 * p + c && 0 <= c < 4 && 0 <= p < n) by (nonlinear_arith)
                requires p == k / 4, c == k % 4, 0 <= k < len, len == 4 * n;
            assert(pixel_of(data@, p) == img.pixel(n - 1 - p));
            assert(len - 4 - (k - c) + c == 4 * (n - 1 - p) + c);
        }
        assert(data@ =~= rotated(img@).2);
    }
    Pixmap { width: img.width, height: img.height, data }
}

} // verus!
