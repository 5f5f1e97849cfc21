//! Snapshot support: which settings pane to render, the checkerboard fixture
//! image, and the pixel comparison behind visual regression diffs.

use vstd::prelude::*;

use crate::chars::{chars_of, decimal, owned, push_chars, push_decimal, string_of};
use crate::error::AppError;

verus! {

broadcast use vstd::seq_lib::group_seq_properties;

/// A pane of the settings window that `--render-settings-png` can capture.
#[derive(Debug, Clone, Copy, PartialEq, Eq, Structural)]
pub enum SettingsPane {
    Settings,
    Support,
}

/// How far two channel values may differ and still count as the same.
pub const PIXEL_CHANNEL_TOLERANCE: u8 = 2;

/// How many checkerboard blocks the fixture has along its short side, so
/// that blocks scale with the image and scaled-down copies stay stable.
pub const FIXTURE_BLOCKS_PER_SHORT_SIDE: usize = 4;

/// The colour of the fixture's even blocks.
pub const FIXTURE_COLOR_A: [u8; 4] = [230, 80, 60, 255];

/// The colour of the fixture's odd blocks.
pub const FIXTURE_COLOR_B: [u8; 4] = [40, 120, 220, 255];

/// The outcome of a comparison: how many pixels differ, out of how many.
#[derive(Debug, Clone, Copy, PartialEq, Eq, Structural)]
pub struct DiffSummary {
    pub diff_pixels: usize,
    pub total_pixels: usize,
}

/// An 8-bit RGBA bitmap: `height` rows of `bytes_per_row` bytes each, the
/// first `4 * width` of which are the row's pixels.
#[derive(Debug, Clone, PartialEq, Eq)]
pub struct RgbaBitmap {
    pub width: usize,
    pub height: usize,
    pub bytes_per_row: isize,
    pub data: Vec<u8>,
}

impl RgbaBitmap {
    /// The data holds every row of the bitmap when its row length is
    /// positive.
    pub open spec fn laid_out(&self) -> bool {
        self.bytes_per_row > 0 ==> self.data@.len() == self.bytes_per_row * self.height
    }

    /// Channel `k` of pixel (`x`, `y`).
    pub open spec fn channel(&self, x: int, y: int, k: int) -> u8 {
        self.data@[y * (self.bytes_per_row as int) + 4 * x + k]
    }
}

// ---------------------------------------------------------------------------
// The fixture
// ---------------------------------------------------------------------------

/// The side of a fixture block: the short side over
/// `FIXTURE_BLOCKS_PER_SHORT_SIDE`, at least one pixel.
pub open spec fn fixture_block_size(width: nat, height: nat) -> nat {
    let short = if width < height {
        width
    } else {
        height
    };
    if short / 4 < 1 {
        1
    } else {
        short / 4
    }
}

/// The colour of fixture pixel (`x`, `y`): `A` where the block coordinates
/// add up to an even number, `B` elsewhere.
pub open spec fn fixture_color(width: nat, height: nat, x: nat, y: nat) -> Seq<u8> {
    let b = fixture_block_size(width, height);
    if (x / b + y / b) % 2 == 0 {
        FIXTURE_COLOR_A@
    } else {
        FIXTURE_COLOR_B@
    }
}

/// The first `n` pixels of fixture row `y`, four bytes each.
pub open spec fn fixture_row(width: nat, height: nat, y: nat, n: nat) -> Seq<u8>
    decreases n,
{
    if n == 0 {
        Seq::empty()
    } else {
        fixture_row(width, height, y, (n - 1) as nat) + fixture_color(width, height, (n - 1) as nat, y)
    }
}

/// The first `n` rows of the fixture, packed without padding.
pub open spec fn fixture_rows(width: nat, height: nat, n: nat) -> Seq<u8>
    decreases n,
{
    if n == 0 {
        Seq::empty()
    } else {
        fixture_rows(width, height, (n - 1) as nat) + fixture_row(width, height, (n - 1) as nat, width)
    }
}

/// The checkerboard fixture as packed RGBA rows (`4 * width` bytes each);
/// an error for an empty size.
pub fn fixture_rgba(width: usize, height: usize) -> (r: Result<Vec<u8>, AppError>)
    ensures
        width == 0 || height == 0 ==> (r matches Err(AppError::RenderFailed(m))
            && m@ == "fixture image size must be positive"@),
        width > 0 && height > 0 ==> (r matches Ok(pixels) && pixels@ == fixture_rows(
            width as nat,
            height as nat,
            height as nat,
        )),
{
    if width == 0 || height == 0 {
        return Err(AppError::RenderFailed(owned("fixture image size must be positive")));
    }
    let short = if width < height {
        width
    } else {
        height
    };
    let block = if short / FIXTURE_BLOCKS_PER_SHORT_SIDE < 1 {
        1
    } else {
        short / FIXTURE_BLOCKS_PER_SHORT_SIDE
    };
    let mut out: Vec<u8> = Vec::new();
    let mut y: usize = 0;
    while y < height
        invariant
            y <= height,
            block == fixture_block_size(width as nat, height as nat),
            out@ == fixture_rows(width as nat, height as nat, y as nat),
        decreases height - y,
    {
        let mut x: usize = 0;
        while x < width
            invariant
                x <= width,
                y < height,
                block == fixture_block_size(width as nat, height as nat),
                out@ == fixture_rows(width as nat, height as nat, y as nat) + fixture_row(
                    width as nat,
                    height as nat,
                    y as nat,
                    x as nat,
                ),
            decreases width - x,
        {
            let px = (x / block) % 2;
            let py = (y / block) % 2;
            proof {
                lemma_parity((x / block) as int, (y / block) as int);
            }
            let color = if px == py {
                FIXTURE_COLOR_A
            } else {
                FIXTURE_COLOR_B
            };
            let ghost before = out@;
            out.push(color[0]);
            out.push(color[1]);
            out.push(color[2]);
            out.push(color[3]);
            assert(color@ == fixture_color(width as nat, height as nat, x as nat, y as nat));
            assert(out@ =~= before + fixture_color(width as nat, height as nat, x as nat, y as nat));
            x += 1;
        }
        y += 1;
    }
    Ok(out)
}

/// The size check of `fixture_rgba`, for callers that allocate the image
/// before painting it.
pub fn validate_fixture_size(width: usize, height: usize) -> (r: Result<(), AppError>)
    ensures
        width == 0 || height == 0 ==> (r matches Err(AppError::RenderFailed(m))
            && m@ == "fixture image size must be positive"@),
        width > 0 && height > 0 ==> r is Ok,
{
    if width == 0 || height == 0 {
        Err(AppError::RenderFailed(owned("fixture image size must be positive")))
    } else {
        Ok(())
    }
}

// ---------------------------------------------------------------------------
// The comparison
// ---------------------------------------------------------------------------

/// `|a - b|`.
pub open spec fn channel_delta(a: u8, b: u8) -> int {
    if a >= b {
        a - b
    } else {
        b - a
    }
}

/// Pixel (`x`, `y`) counts as unchanged: every channel, alpha included,
/// within `PIXEL_CHANNEL_TOLERANCE`.
pub open spec fn pixels_match(b: RgbaBitmap, c: RgbaBitmap, x: int, y: int) -> bool {
    &&& channel_delta(b.channel(x, y, 0), c.channel(x, y, 0)) <= PIXEL_CHANNEL_TOLERANCE
    &&& channel_delta(b.channel(x, y, 1), c.channel(x, y, 1)) <= PIXEL_CHANNEL_TOLERANCE
    &&& channel_delta(b.channel(x, y, 2), c.channel(x, y, 2)) <= PIXEL_CHANNEL_TOLERANCE
    &&& channel_delta(b.channel(x, y, 3), c.channel(x, y, 3)) <= PIXEL_CHANNEL_TOLERANCE
}

/// The largest colour-channel difference of pixel (`x`, `y`).
pub open spec fn color_delta(b: RgbaBitmap, c: RgbaBitmap, x: int, y: int) -> int {
    let dr = channel_delta(c.channel(x, y, 0), b.channel(x, y, 0));
    let dg = channel_delta(c.channel(x, y, 1), b.channel(x, y, 1));
    let db = channel_delta(c.channel(x, y, 2), b.channel(x, y, 2));
    let m = if dr > dg {
        dr
    } else {
        dg
    };
    if m > db {
        m
    } else {
        db
    }
}

/// The diff image's pixel (`x`, `y`): an unchanged pixel becomes a faint
/// gray (the current pixel's mean, doubled with saturation, over 25, at
/// alpha 20); a changed one becomes red, as bright as its largest channel
/// difference but at least 128, at alpha 230.
pub open spec fn diff_color(b: RgbaBitmap, c: RgbaBitmap, x: int, y: int) -> Seq<u8> {
    if pixels_match(b, c, x, y) {
        let gray = (c.channel(x, y, 0) + c.channel(x, y, 1) + c.channel(x, y, 2)) / 3;
        let doubled = if gray * 2 > 255 {
            255
        } else {
            gray * 2
        };
        let dimmed: u8 = (doubled / 25) as u8;
        seq![dimmed, dimmed, dimmed, 20u8]
    } else {
        let delta = color_delta(b, c, x, y);
        let intensity = (if delta > 128 {
            delta
        } else {
            128
        }) as u8;
        seq![intensity, 0u8, 0u8, 230u8]
    }
}

/// The first `n` diff pixels of row `y`.
pub open spec fn diff_row(b: RgbaBitmap, c: RgbaBitmap, y: int, n: int) -> Seq<u8>
    decreases n,
{
    if n <= 0 {
        Seq::empty()
    } else {
        diff_row(b, c, y, n - 1) + diff_color(b, c, n - 1, y)
    }
}

/// The bytes of row `y` of `c` after its pixels.
pub open spec fn row_padding(c: RgbaBitmap, y: int) -> Seq<u8> {
    let row: int = c.bytes_per_row as int;
    c.data@.subrange(y * row + 4 * c.width, y * row + row)
}

/// The first `n` rows of the diff image, laid out as `c` is: each row's diff
/// pixels followed by `c`'s padding of that row.
pub open spec fn diff_rows(b: RgbaBitmap, c: RgbaBitmap, n: int) -> Seq<u8>
    decreases n,
{
    if n <= 0 {
        Seq::empty()
    } else {
        diff_rows(b, c, n - 1) + diff_row(b, c, n - 1, c.width as int) + row_padding(c, n - 1)
    }
}

/// How many of the first `n` pixels of row `y` differ.
pub open spec fn row_mismatches(b: RgbaBitmap, c: RgbaBitmap, y: int, n: int) -> nat
    decreases n,
{
    if n <= 0 {
        0
    } else {
        row_mismatches(b, c, y, n - 1) + if pixels_match(b, c, n - 1, y) {
            0nat
        } else {
            1nat
        }
    }
}

/// How many pixels of the first `n` rows differ.
pub open spec fn mismatches(b: RgbaBitmap, c: RgbaBitmap, n: int) -> nat
    decreases n,
{
    if n <= 0 {
        0
    } else {
        mismatches(b, c, n - 1) + row_mismatches(b, c, n - 1, c.width as int)
    }
}

/// `image size mismatch: baseline=WxH, current=WxH`.
pub open spec fn size_mismatch_message(bw: nat, bh: nat, cw: nat, ch: nat) -> Seq<char> {
    "image size mismatch: baseline="@ + decimal(bw) + "x"@ + decimal(bh) + ", current="@ + decimal(
        cw,
    ) + "x"@ + decimal(ch)
}

/// Why two bitmaps cannot be compared, if they cannot: different sizes, a
/// row length that is not positive, or rows too short for their pixels.
pub open spec fn diff_problem(b: RgbaBitmap, c: RgbaBitmap) -> Option<Seq<char>> {
    if b.width != c.width || b.height != c.height {
        Some(size_mismatch_message(b.width as nat, b.height as nat, c.width as nat, c.height as nat))
    } else if b.bytes_per_row <= 0 || c.bytes_per_row <= 0 {
        Some("bitmap bytesPerRow must be positive"@)
    } else if b.bytes_per_row < 4 * b.width || c.bytes_per_row < 4 * b.width {
        Some("bitmap data layout mismatch: bytes_per_row too small"@)
    } else {
        None
    }
}

proof fn lemma_parity(a: int, b: int)
    requires
        0 <= a,
        0 <= b,
    ensures
        ((a + b) % 2 == 0) == (a % 2 == b % 2),
{
}

proof fn lemma_row_in_data(y: int, h: int, row: int)
    by (nonlinear_arith)
    requires
        0 <= y < h,
        0 < row,
    ensures
        0 <= y * row,
        y * row + row <= row * h,
{
}

proof fn lemma_pixel_count(w: int, h: int, row: int)
    by (nonlinear_arith)
    requires
        0 <= w,
        0 <= h,
        4 * w <= row,
    ensures
        w * h <= row * h,
{
}

proof fn lemma_pixels_before(y: int, x: int, w: int, h: int)
    by (nonlinear_arith)
    requires
        0 <= y < h,
        0 <= x <= w,
    ensures
        y * w + x <= w * h,
        y * w + w == (y + 1) * w,
{
}

/// `image size mismatch: …` for the two sizes.
fn size_mismatch(bw: usize, bh: usize, cw: usize, ch: usize) -> (s: String)
    ensures
        s@ == size_mismatch_message(bw as nat, bh as nat, cw as nat, ch as nat),
{
    let mut out = chars_of("image size mismatch: baseline=");
    push_decimal(&mut out, bw);
    push_chars(&mut out, chars_of("x").as_slice());
    push_decimal(&mut out, bh);
    push_chars(&mut out, chars_of(", current=").as_slice());
    push_decimal(&mut out, cw);
    push_chars(&mut out, chars_of("x").as_slice());
    push_decimal(&mut out, ch);
    string_of(out.as_slice())
}

/// `|a - b|` of two channel values.
fn delta(a: u8, b: u8) -> (d: u8)
    ensures
        d == channel_delta(a, b),
{
    if a >= b {
        a - b
    } else {
        b - a
    }
}

/// Why `current` cannot be compared with `baseline`, judged by their sizes
/// and row lengths alone (see `diff_problem`); `None` when they can be.
pub fn comparison_problem(baseline: &RgbaBitmap, current: &RgbaBitmap) -> (r: Option<String>)
    ensures
        match (r, diff_problem(*baseline, *current)) {
            (Some(a), Some(b)) => a@ == b,
            (None, None) => true,
            _ => false,
        },
{
    if baseline.width != current.width || baseline.height != current.height {
        return Some(size_mismatch(baseline.width, baseline.height, current.width, current.height));
    }
    if baseline.bytes_per_row <= 0 || current.bytes_per_row <= 0 {
        return Some(owned("bitmap bytesPerRow must be positive"));
    }
    let rb: usize = baseline.bytes_per_row as usize;
    let rc: usize = current.bytes_per_row as usize;
    if rb / 4 < current.width || rc / 4 < current.width {
        return Some(owned("bitmap data layout mismatch: bytes_per_row too small"));
    }
    None
}

/// Compares `current` with `baseline` pixel by pixel and paints the diff
/// image, laid out as `current` is (see `diff_rows`). Fails, saying why, when
/// the two cannot be compared (see `diff_problem`).
#[verifier::rlimit(30)]
pub fn diff_bitmaps(baseline: &RgbaBitmap, current: &RgbaBitmap) -> (r: Result<
    (DiffSummary, Vec<u8>),
    AppError,
>)
    requires
        baseline.laid_out(),
        current.laid_out(),
    ensures
        match diff_problem(*baseline, *current) {
            Some(m) => r matches Err(AppError::RenderFailed(e)) && e@ == m,
            None => r matches Ok((summary, pixels)) && summary.total_pixels == current.width
                * current.height && summary.diff_pixels == mismatches(
                *baseline,
                *current,
                current.height as int,
            ) && pixels@ == diff_rows(*baseline, *current, current.height as int),
        },
{
    let ghost b = *baseline;
    let ghost c = *current;
    if baseline.width != current.width || baseline.height != current.height {
        return Err(
            AppError::RenderFailed(
                size_mismatch(baseline.width, baseline.height, current.width, current.height),
            ),
        );
    }
    if baseline.bytes_per_row <= 0 || current.bytes_per_row <= 0 {
        return Err(AppError::RenderFailed(owned("bitmap bytesPerRow must be positive")));
    }
    let w = current.width;
    let h = current.height;
    let rb: usize = baseline.bytes_per_row as usize;
    let rc: usize = current.bytes_per_row as usize;
    if rb / 4 < w || rc / 4 < w {
        return Err(
            AppError::RenderFailed(owned("bitmap data layout mismatch: bytes_per_row too small")),
        );
    }
    assert(diff_problem(b, c) is None);
    let blen: usize = baseline.data.len();
    let clen: usize = current.data.len();
    assert(blen == rb * h && clen == rc * h);
    proof {
        lemma_pixel_count(w as int, h as int, rc as int);
    }
    let total = w * h;
    let mut out: Vec<u8> = Vec::new();
    let mut count: usize = 0;
    let mut y: usize = 0;
    while y < h
        invariant
            b == *baseline,
            c == *current,
            w == c.width,
            h == c.height,
            h == b.height,
            w == b.width,
            rb == b.bytes_per_row,
            rc == c.bytes_per_row,
            0 < rb,
            0 < rc,
            4 * w <= rb,
            4 * w <= rc,
            b.data@.len() == rb * h,
            c.data@.len() == rc * h,
            b.data@.len() <= usize::MAX,
            c.data@.len() <= usize::MAX,
            w * h <= usize::MAX,
            y <= h,
            out@ == diff_rows(b, c, y as int),
            count == mismatches(b, c, y as int),
            count <= y * w,
        decreases h - y,
    {
        proof {
            lemma_row_in_data(y as int, h as int, rb as int);
            lemma_row_in_data(y as int, h as int, rc as int);
        }
        let base_b = y * rb;
        let base_c = y * rc;
        let ghost rows_before = out@;
        let ghost count_before = count;
        let mut x: usize = 0;
        while x < w
            invariant
                b == *baseline,
                c == *current,
                w == c.width,
                w == b.width,
                h == c.height,
                rb == b.bytes_per_row,
                rc == c.bytes_per_row,
                4 * w <= rb,
                4 * w <= rc,
                y < h,
                base_b == y * rb,
                base_c == y * rc,
                base_b + rb <= b.data@.len(),
                base_c + rc <= c.data@.len(),
                b.data@.len() <= usize::MAX,
                c.data@.len() <= usize::MAX,
                w * h <= usize::MAX,
                count_before <= y * w,
                x <= w,
                rows_before == diff_rows(b, c, y as int),
                out@ == rows_before + diff_row(b, c, y as int, x as int),
                count == count_before + row_mismatches(b, c, y as int, x as int),
                row_mismatches(b, c, y as int, x as int) <= x,
            decreases w - x,
        {
            let ob = base_b + 4 * x;
            let oc = base_c + 4 * x;
            let br = baseline.data[ob];
            let bg = baseline.data[ob + 1];
            let bb = baseline.data[ob + 2];
            let ba = baseline.data[ob + 3];
            let cr = current.data[oc];
            let cg = current.data[oc + 1];
            let cb = current.data[oc + 2];
            let ca = current.data[oc + 3];
            assert(br == b.channel(x as int, y as int, 0) && bg == b.channel(x as int, y as int, 1)
                && bb == b.channel(x as int, y as int, 2) && ba == b.channel(x as int, y as int, 3));
            assert(cr == c.channel(x as int, y as int, 0) && cg == c.channel(x as int, y as int, 1)
                && cb == c.channel(x as int, y as int, 2) && ca == c.channel(x as int, y as int, 3));
            let same = delta(br, cr) <= PIXEL_CHANNEL_TOLERANCE && delta(bg, cg)
                <= PIXEL_CHANNEL_TOLERANCE && delta(bb, cb) <= PIXEL_CHANNEL_TOLERANCE && delta(
                ba,
                ca,
            ) <= PIXEL_CHANNEL_TOLERANCE;
            let ghost before = out@;
            if same {
                let gray: u16 = (cr as u16 + cg as u16 + cb as u16) / 3;
                let doubled: u16 = gray * 2;
                let saturated: u8 = if doubled > 255 {
                    255
                } else {
                    doubled as u8
                };
                let dimmed = saturated / 25;
                out.push(dimmed);
                out.push(dimmed);
                out.push(dimmed);
                out.push(20);
            } else {
                proof {
                    lemma_pixels_before(y as int, x + 1, w as int, h as int);
                }
                count = count + 1;
                let dr = delta(cr, br);
                let dg = delta(cg, bg);
                let db = delta(cb, bb);
                let m = if dr > dg {
                    dr
                } else {
                    dg
                };
                let m = if m > db {
                    m
                } else {
                    db
                };
                let intensity = if m > 128 {
                    m
                } else {
                    128
                };
                out.push(intensity);
                out.push(0);
                out.push(0);
                out.push(230);
            }
            assert(out@ =~= before + diff_color(b, c, x as int, y as int));
            x += 1;
        }
        let mut j: usize = 4 * w;
        while j < rc
            invariant
                c == *current,
                w == c.width,
                rc == c.bytes_per_row,
                4 * w <= j <= rc,
                base_c == y * rc,
                base_c + rc <= c.data@.len(),
                c.data@.len() <= usize::MAX,
                out@ == rows_before + diff_row(b, c, y as int, w as int) + c.data@.subrange(
                    base_c + 4 * w,
                    base_c + j,
                ),
            decreases rc - j,
        {
            out.push(current.data[base_c + j]);
            j += 1;
        }
        assert(out@ =~= diff_rows(b, c, y + 1));
        proof {
            lemma_pixels_before(y as int, w as int, w as int, h as int);
        }
        y += 1;
    }
    Ok((DiffSummary { diff_pixels: count, total_pixels: total }, out))
}

/// A row of the fixture holds four bytes for each of its pixels.
proof fn lemma_fixture_row_len(width: nat, height: nat, y: nat, n: nat)
    ensures
        fixture_row(width, height, y, n).len() == 4 * n,
    decreases n,
{
    if n > 0 {
        lemma_fixture_row_len(width, height, y, (n - 1) as nat);
    }
}

/// The fixture is `4 * width * height` bytes: four per pixel, no padding.
pub proof fn lemma_fixture_len(width: nat, height: nat, n: nat)
    ensures
        fixture_rows(width, height, n).len() == 4 * width * n,
    decreases n,
{
    if n > 0 {
        lemma_fixture_len(width, height, (n - 1) as nat);
        lemma_fixture_row_len(width, height, (n - 1) as nat, width);
        let m = (n - 1) as nat;
        assert(4 * width * n == 4 * width * m + 4 * width) by (nonlinear_arith)
            requires
                m == n - 1,
        ;
    } else {
        assert(4 * width * n == 0) by (nonlinear_arith)
            requires
                n == 0,
        ;
    }
}

/// Comparing an image with itself finds no pixel that differs, in any row.
pub proof fn lemma_identical_images_match(b: RgbaBitmap, n: int)
    ensures
        mismatches(b, b, n) == 0,
    decreases n,
{
    if n > 0 {
        lemma_identical_images_match(b, n - 1);
        lemma_identical_rows_match(b, n - 1, b.width as int);
    }
}

proof fn lemma_identical_rows_match(b: RgbaBitmap, y: int, n: int)
    ensures
        row_mismatches(b, b, y, n) == 0,
    decreases n,
{
    if n > 0 {
        lemma_identical_rows_match(b, y, n - 1);
        assert(pixels_match(b, b, n - 1, y));
    }
}

/// No more pixels differ than a row has.
proof fn lemma_row_mismatches_bound(b: RgbaBitmap, c: RgbaBitmap, y: int, n: int)
    ensures
        row_mismatches(b, c, y, n) <= if n < 0 {
            0
        } else {
            n
        },
    decreases n,
{
    if n > 0 {
        lemma_row_mismatches_bound(b, c, y, n - 1);
    }
}

/// At most every pixel of the first `n` rows differs.
pub proof fn lemma_mismatches_bound(b: RgbaBitmap, c: RgbaBitmap, n: int)
    ensures
        n >= 0 ==> mismatches(b, c, n) <= n * c.width,
    decreases n,
{
    if n > 0 {
        lemma_mismatches_bound(b, c, n - 1);
        lemma_row_mismatches_bound(b, c, n - 1, c.width as int);
        assert((n - 1) * c.width + c.width == n * c.width) by (nonlinear_arith);
    }
}

/// A pixel counts as changed exactly when one of its four channels (red,
/// green, blue or alpha) moved by more than `PIXEL_CHANNEL_TOLERANCE`. A
/// changed pixel is painted red (at least half intensity, no green or blue,
/// alpha 230); an unchanged one as a faint gray (equal red, green and blue,
/// alpha 20).
pub proof fn lemma_changed_pixels(b: RgbaBitmap, c: RgbaBitmap, x: int, y: int)
    ensures
        pixels_match(b, c, x, y) <==> forall|k: int|
            0 <= k < 4 ==> -(PIXEL_CHANNEL_TOLERANCE as int) <= #[trigger] b.channel(x, y, k) as int
                - c.channel(x, y, k) as int <= PIXEL_CHANNEL_TOLERANCE as int,
        diff_color(b, c, x, y).len() == 4,
        !pixels_match(b, c, x, y) ==> diff_color(b, c, x, y)[0] >= 128 && diff_color(b, c, x, y)[1]
            == 0 && diff_color(b, c, x, y)[2] == 0 && diff_color(b, c, x, y)[3] == 230,
        pixels_match(b, c, x, y) ==> diff_color(b, c, x, y)[0] == diff_color(b, c, x, y)[1]
            && diff_color(b, c, x, y)[1] == diff_color(b, c, x, y)[2] && diff_color(b, c, x, y)[3]
            == 20,
{
    if !pixels_match(b, c, x, y) {
        let delta = color_delta(b, c, x, y);
        assert(delta <= 255);
    }
    assert(pixels_match(b, c, x, y) <== forall|k: int|
        0 <= k < 4 ==> -(PIXEL_CHANNEL_TOLERANCE as int) <= #[trigger] b.channel(x, y, k) as int
            - c.channel(x, y, k) as int <= PIXEL_CHANNEL_TOLERANCE as int) by {
        if forall|k: int|
            0 <= k < 4 ==> -(PIXEL_CHANNEL_TOLERANCE as int) <= #[trigger] b.channel(x, y, k) as int
                - c.channel(x, y, k) as int <= PIXEL_CHANNEL_TOLERANCE as int {
            assert(0 <= 0 < 4);
            let _ = b.channel(x, y, 0);
            let _ = b.channel(x, y, 1);
            let _ = b.channel(x, y, 2);
            let _ = b.channel(x, y, 3);
        }
    }
}

} // verus!
