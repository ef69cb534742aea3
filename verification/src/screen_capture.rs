//! Geometry of the native screen-region selector: signed desktop rectangles, validation of
//! the dragged selection, the BGRA-to-RGBA crop of the frozen desktop and the dimming curve.

use vstd::prelude::*;
use crate::ocr::{checked_rgba_len, MAX_INPUT_PIXELS};

verus! {

pub const MIN_SELECTION_SIDE: i64 = 3;

/// Dimming outside the selection: 40 % of the ink colour.
pub const DIM_ALPHA: u8 = 102;

/// Fade-in of the dimming, in milliseconds.
pub const DIM_IN_MS: u64 = 120;

pub const OUTSIDE_DESKTOP: &'static str = "Выделение находится вне рабочего стола";

pub const OFF_MONITORS: &'static str = "Выделение не пересекает подключённые мониторы";

pub const BAD_SELECTION_WIDTH: &'static str = "Недопустимая ширина выделения";

pub const BAD_SELECTION_HEIGHT: &'static str = "Недопустимая высота выделения";

pub const BAD_DESKTOP_WIDTH: &'static str = "Недопустимая ширина рабочего стола";

pub const BAD_DESKTOP_HEIGHT: &'static str = "Недопустимая высота рабочего стола";

pub const SHORT_SOURCE: &'static str = "Буфер снимка экрана короче ожидаемого";

pub const NOT_ON_SNAPSHOT: &'static str = "Выделение не пересекает снимок экрана";

pub const OUT_OF_MEMORY: &'static str = "Недостаточно памяти для выбранной области";

pub const NON_POSITIVE_SIZE: &'static str = "Размер экрана должен быть положительным";

pub const RIGHT_OVERFLOW: &'static str = "Переполнение координаты правой границы экрана";

pub const BOTTOM_OVERFLOW: &'static str = "Переполнение координаты нижней границы экрана";

/// The selected crop, RGBA, top row first, with its desktop position.
#[derive(Debug, Clone, PartialEq, Eq)]
pub struct CapturedRegion {
    pub width: u32,
    pub height: u32,
    pub rgba: Vec<u8>,
    pub left: i32,
    pub top: i32,
}

#[derive(Debug, Clone, Copy, PartialEq, Eq, Structural)]
pub struct PointI {
    pub x: i32,
    pub y: i32,
}

/// A half-open desktop rectangle `[left, right) x [top, bottom)` in signed coordinates.
#[derive(Debug, Clone, Copy, PartialEq, Eq, Structural)]
pub struct RectI {
    pub left: i32,
    pub top: i32,
    pub right: i32,
    pub bottom: i32,
}

pub open spec fn rect(left: int, top: int, right: int, bottom: int) -> RectI {
    RectI { left: left as i32, top: top as i32, right: right as i32, bottom: bottom as i32 }
}

pub open spec fn width_of(r: RectI) -> int {
    r.right - r.left
}

pub open spec fn height_of(r: RectI) -> int {
    r.bottom - r.top
}

pub open spec fn max(a: int, b: int) -> int {
    if a >= b {
        a
    } else {
        b
    }
}

pub open spec fn min(a: int, b: int) -> int {
    if a <= b {
        a
    } else {
        b
    }
}

pub open spec fn intersection(a: RectI, b: RectI) -> RectI {
    rect(
        max(a.left as int, b.left as int),
        max(a.top as int, b.top as int),
        min(a.right as int, b.right as int),
        min(a.bottom as int, b.bottom as int),
    )
}

pub open spec fn intersect_spec(a: RectI, b: RectI) -> Option<RectI> {
    let r = intersection(a, b);
    if width_of(r) > 0 && height_of(r) > 0 {
        Some(r)
    } else {
        None
    }
}

pub open spec fn clamp_i32(v: int) -> int {
    if v < i32::MIN {
        i32::MIN as int
    } else if v > i32::MAX {
        i32::MAX as int
    } else {
        v
    }
}

impl RectI {
    pub fn new(left: i32, top: i32, right: i32, bottom: i32) -> (r: Self)
        ensures
            r == (RectI { left, top, right, bottom }),
    {
        RectI { left, top, right, bottom }
    }

    /// A screen rectangle from its origin and positive size, if its far edges fit in i32.
    pub fn from_origin_size(left: i32, top: i32, width: i32, height: i32) -> (r: Result<
        Self,
        String,
    >)
        ensures
            r is Ok <==> (width > 0 && height > 0 && left + width <= i32::MAX && top + height
                <= i32::MAX),
            r matches Ok(x) ==> x == rect(
                left as int,
                top as int,
                left + width,
                top + height,
            ),
            r matches Err(m) ==> m@ == (if width <= 0 || height <= 0 {
                NON_POSITIVE_SIZE@
            } else if left + width > i32::MAX {
                RIGHT_OVERFLOW@
            } else {
                BOTTOM_OVERFLOW@
            }),
    {
        if width <= 0 || height <= 0 {
            return Err(NON_POSITIVE_SIZE.to_owned());
        }
        let right = match left.checked_add(width) {
            Some(v) => v,
            None => {
                return Err(RIGHT_OVERFLOW.to_owned());
            },
        };
        let bottom = match top.checked_add(height) {
            Some(v) => v,
            None => {
                return Err(BOTTOM_OVERFLOW.to_owned());
            },
        };
        Ok(RectI { left, top, right, bottom })
    }

    /// The rectangle spanned by a drag in any direction.
    pub fn from_drag(anchor: PointI, current: PointI) -> (r: Self)
        ensures
            r == rect(
                min(anchor.x as int, current.x as int),
                min(anchor.y as int, current.y as int),
                max(anchor.x as int, current.x as int),
                max(anchor.y as int, current.y as int),
            ),
    {
        RectI {
            left: if anchor.x <= current.x {
                anchor.x
            } else {
                current.x
            },
            top: if anchor.y <= current.y {
                anchor.y
            } else {
                current.y
            },
            right: if anchor.x >= current.x {
                anchor.x
            } else {
                current.x
            },
            bottom: if anchor.y >= current.y {
                anchor.y
            } else {
                current.y
            },
        }
    }

    pub fn width_i64(self) -> (w: i64)
        ensures
            w == width_of(self),
    {
        self.right as i64 - self.left as i64
    }

    pub fn height_i64(self) -> (h: i64)
        ensures
            h == height_of(self),
    {
        self.bottom as i64 - self.top as i64
    }

    /// The common part of two rectangles, if it has an area.
    pub fn intersect(self, other: Self) -> (r: Option<Self>)
        ensures
            r == intersect_spec(self, other),
    {
        let result = RectI {
            left: if self.left >= other.left {
                self.left
            } else {
                other.left
            },
            top: if self.top >= other.top {
                self.top
            } else {
                other.top
            },
            right: if self.right <= other.right {
                self.right
            } else {
                other.right
            },
            bottom: if self.bottom <= other.bottom {
                self.bottom
            } else {
                other.bottom
            },
        };
        if result.width_i64() > 0 && result.height_i64() > 0 {
            Some(result)
        } else {
            None
        }
    }

    pub fn contains(self, point: PointI) -> (r: bool)
        ensures
            r == (self.left <= point.x < self.right && self.top <= point.y < self.bottom),
    {
        point.x >= self.left && point.x < self.right && point.y >= self.top && point.y
            < self.bottom
    }

    /// A click or a tiny accidental drag is not a selection.
    pub fn is_large_enough(self) -> (r: bool)
        ensures
            r == (width_of(self) >= MIN_SELECTION_SIDE && height_of(self) >= MIN_SELECTION_SIDE),
    {
        self.width_i64() >= MIN_SELECTION_SIDE && self.height_i64() >= MIN_SELECTION_SIDE
    }

    /// The same rectangle in the client coordinates of a monitor window, saturated to i32.
    pub fn relative_to(self, origin: RectI) -> (r: Self)
        ensures
            r == rect(
                clamp_i32(self.left - origin.left),
                clamp_i32(self.top - origin.top),
                clamp_i32(self.right - origin.left),
                clamp_i32(self.bottom - origin.top),
            ),
    {
        RectI {
            left: shift(self.left, origin.left),
            top: shift(self.top, origin.top),
            right: shift(self.right, origin.left),
            bottom: shift(self.bottom, origin.top),
        }
    }
}

fn shift(value: i32, base: i32) -> (r: i32)
    ensures
        r == clamp_i32(value - base),
{
    let d: i64 = value as i64 - base as i64;
    if d < i32::MIN as i64 {
        i32::MIN
    } else if d > i32::MAX as i64 {
        i32::MAX
    } else {
        d as i32
    }
}

pub open spec fn any_monitor_meets(r: RectI, monitors: Seq<RectI>) -> bool {
    exists|i: int| 0 <= i < monitors.len() && intersect_spec(r, #[trigger] monitors[i]) is Some
}

/// A dragged rectangle becomes a selection: too small is no selection (`None`); otherwise it
/// is clipped to the desktop, must touch a monitor and must fit the OCR size limit.
pub open spec fn selection_spec(drag: RectI, desktop: RectI, monitors: Seq<RectI>) -> Result<
    Option<RectI>,
    Seq<char>,
> {
    if !(width_of(drag) >= MIN_SELECTION_SIDE && height_of(drag) >= MIN_SELECTION_SIDE) {
        Ok(None)
    } else if intersect_spec(drag, desktop) is None {
        Err(OUTSIDE_DESKTOP@)
    } else {
        let c = intersection(drag, desktop);
        if !any_monitor_meets(c, monitors) {
            Err(OFF_MONITORS@)
        } else if width_of(c) > u32::MAX {
            Err(BAD_SELECTION_WIDTH@)
        } else if height_of(c) > u32::MAX {
            Err(BAD_SELECTION_HEIGHT@)
        } else if width_of(c) * height_of(c) > MAX_INPUT_PIXELS {
            Err(crate::ocr::rgba_len_error(width_of(c) * height_of(c)))
        } else {
            Ok(Some(c))
        }
    }
}

pub open spec fn result_view<T>(r: Result<T, String>) -> Result<T, Seq<char>> {
    match r {
        Ok(v) => Ok(v),
        Err(e) => Err(e@),
    }
}

pub fn validated_selection(drag: RectI, desktop: RectI, monitors: &[RectI]) -> (r: Result<
    Option<RectI>,
    String,
>)
    ensures
        result_view(r) == selection_spec(drag, desktop, monitors@),
{
    if !drag.is_large_enough() {
        return Ok(None);
    }
    let clamped = match drag.intersect(desktop) {
        Some(c) => c,
        None => {
            return Err(OUTSIDE_DESKTOP.to_owned());
        },
    };
    let mut found = false;
    let mut i: usize = 0;
    while i < monitors.len()
        invariant
            i <= monitors.len(),
            found == exists|k: int|
                0 <= k < i && intersect_spec(clamped, #[trigger] monitors@[k]) is Some,
        decreases monitors.len() - i,
    {
        if clamped.intersect(monitors[i]).is_some() {
            found = true;
        }
        i += 1;
    }
    if !found {
        return Err(OFF_MONITORS.to_owned());
    }
    let w = clamped.width_i64();
    let h = clamped.height_i64();
    if w > u32::MAX as i64 {
        return Err(BAD_SELECTION_WIDTH.to_owned());
    }
    if h > u32::MAX as i64 {
        return Err(BAD_SELECTION_HEIGHT.to_owned());
    }
    assert((w as u32) * (h as u32) > 0) by (nonlinear_arith)
        requires
            w > 0,
            h > 0,
            w <= u32::MAX,
            h <= u32::MAX,
    ;
    match checked_rgba_len(w as u32, h as u32) {
        Ok(_) => Ok(Some(clamped)),
        Err(e) => Err(e),
    }
}

/// `Vec::try_reserve_exact`: whether the allocator granted the space depends on the machine,
/// so the contract only says that the contents are unchanged.
#[verifier::external_body]
pub(crate) fn try_reserve_bytes(v: &mut Vec<u8>, additional: usize) -> (granted: bool)
    ensures
        final(v)@ == old(v)@,
{
    v.try_reserve_exact(additional).is_ok()
}

/// Byte `k` of output pixel `(r, c)` comes from the BGRA source pixel at the same place in
/// the desktop: channels swapped to RGBA, alpha forced opaque, rows kept top-down.
pub open spec fn crop_byte(pixels: Seq<u8>, dw: int, sx: int, sy: int, r: int, c: int, k: int) -> u8 {
    let s = ((sy + r) * dw + sx + c) * 4;
    if k == 0 {
        pixels[s + 2]
    } else if k == 1 {
        pixels[s + 1]
    } else if k == 2 {
        pixels[s]
    } else {
        255
    }
}

pub open spec fn crop_ok(
    pixels: Seq<u8>,
    desktop: RectI,
    sel: RectI,
    out: CapturedRegion,
) -> bool {
    let w = width_of(sel);
    let h = height_of(sel);
    let dw = width_of(desktop);
    &&& out.width == w
    &&& out.height == h
    &&& out.left == sel.left
    &&& out.top == sel.top
    &&& out.rgba@.len() == 4 * w * h
    &&& forall|r: int, c: int, k: int|
        0 <= r < h && 0 <= c < w && 0 <= k < 4 ==> #[trigger] out.rgba@[(r * w + c) * 4 + k]
            == crop_byte(pixels, dw, sel.left - desktop.left, sel.top - desktop.top, r, c, k)
}

/// When the crop succeeds, and which error it reports otherwise (allocation failure aside).
pub open spec fn crop_error(pixels_len: int, desktop: RectI, selection: RectI) -> Option<
    Seq<char>,
> {
    let dw = width_of(desktop);
    let dh = height_of(desktop);
    if dw < 0 || dw > u32::MAX {
        Some(BAD_DESKTOP_WIDTH@)
    } else if dh < 0 || dh > u32::MAX {
        Some(BAD_DESKTOP_HEIGHT@)
    } else if dw * dh == 0 || dw * dh > MAX_INPUT_PIXELS {
        Some(crate::ocr::rgba_len_error(dw * dh))
    } else if pixels_len < 4 * dw * dh {
        Some(SHORT_SOURCE@)
    } else if intersect_spec(selection, desktop) is None {
        Some(NOT_ON_SNAPSHOT@)
    } else {
        None
    }
}

pub(crate) proof fn lemma_earlier_pixel(rr: int, cc: int, row: int, col: int, w: int)
    requires
        0 <= cc < w,
        0 <= col <= w,
        0 <= rr,
        rr < row || (rr == row && cc < col),
    ensures
        rr * w + cc < row * w + col,
{
    if rr < row {
        assert(rr * w + w <= row * w) by (nonlinear_arith)
            requires
                rr < row,
                0 <= w,
        ;
    }
}

/// Copies the selection out of a top-down BGRA desktop snapshot into opaque RGBA.
/// The output is reserved at once for the size `checked_rgba_len` gives for the crop;
/// whether the allocator grants it is the machine's answer, and a refusal is reported as
/// `OUT_OF_MEMORY`. The contract does not name the size asked for, since nothing names the
/// allocator's answer to it.
pub fn crop_bgra_top_down(pixels: &[u8], desktop: RectI, selection: RectI) -> (r: Result<
    CapturedRegion,
    String,
>)
    ensures
        crop_error(pixels@.len() as int, desktop, selection) matches Some(e) ==> r matches Err(m)
            && m@ == e,
        r matches Ok(out) ==> crop_error(pixels@.len() as int, desktop, selection) is None
            && crop_ok(pixels@, desktop, intersection(selection, desktop), out),
        r matches Err(m) ==> crop_error(pixels@.len() as int, desktop, selection) is Some
            || m@ == OUT_OF_MEMORY@,
{
    let dw64 = desktop.width_i64();
    let dh64 = desktop.height_i64();
    if dw64 < 0 || dw64 > u32::MAX as i64 {
        return Err(BAD_DESKTOP_WIDTH.to_owned());
    }
    if dh64 < 0 || dh64 > u32::MAX as i64 {
        return Err(BAD_DESKTOP_HEIGHT.to_owned());
    }
    let dw = dw64 as u32;
    let dh = dh64 as u32;
    let expected_source_len = match checked_rgba_len(dw, dh) {
        Ok(n) => n,
        Err(e) => {
            return Err(e);
        },
    };
    if pixels.len() < expected_source_len {
        return Err(SHORT_SOURCE.to_owned());
    }
    let sel = match selection.intersect(desktop) {
        Some(s) => s,
        None => {
            return Err(NOT_ON_SNAPSHOT.to_owned());
        },
    };
    let w = sel.width_i64() as u32;
    let h = sel.height_i64() as u32;
    let sx = (sel.left as i64 - desktop.left as i64) as usize;
    let sy = (sel.top as i64 - desktop.top as i64) as usize;
    proof {
        assert(0 < w <= dw && 0 < h <= dh);
        assert((w as int) * (h as int) <= (dw as int) * (dh as int)) by (nonlinear_arith)
            requires
                0 < w <= dw,
                0 < h <= dh,
        ;
        assert(sx + w <= dw && sy + h <= dh);
    }
    assert(0 < (w as int) * (h as int)) by (nonlinear_arith)
        requires
            0 < w,
            0 < h,
    ;
    assert((w as int) * (h as int) <= MAX_INPUT_PIXELS);
    // The output buffer is asked for exactly 4 * w * h bytes, the size of the crop.
    let output_len = match checked_rgba_len(w, h) {
        Ok(n) => n,
        Err(e) => {
            return Err(e);
        },
    };
    let mut rgba: Vec<u8> = Vec::new();
    if !try_reserve_bytes(&mut rgba, output_len) {
        return Err(OUT_OF_MEMORY.to_owned());
    }
    let wu = w as usize;
    let dwu = dw as usize;
    let ghost gw = w as int;
    let ghost gh = h as int;
    let ghost gdw = dw as int;
    let mut row: usize = 0;
    while row < h as usize
        invariant
            gw == w,
            gh == h,
            gdw == dw,
            wu == w,
            dwu == dw,
            sx + w <= dw,
            sy + h <= dh,
            4 * (dw as int) * (dh as int) <= pixels@.len(),
            (dw as int) * (dh as int) <= MAX_INPUT_PIXELS,
            row <= h,
            rgba@.len() == (row * gw) * 4,
            forall|rr: int, cc: int, k: int|
                0 <= rr < row && 0 <= cc < gw && 0 <= k < 4 ==> #[trigger] rgba@[(rr * gw + cc)
                    * 4 + k] == crop_byte(pixels@, gdw, sx as int, sy as int, rr, cc, k),
        decreases h - row,
    {
        let mut col: usize = 0;
        while col < wu
            invariant
                gw == w,
                gh == h,
                gdw == dw,
                wu == w,
                dwu == dw,
                sx + w <= dw,
                sy + h <= dh,
                4 * (dw as int) * (dh as int) <= pixels@.len(),
                (dw as int) * (dh as int) <= MAX_INPUT_PIXELS,
                row < h,
                col <= w,
                rgba@.len() == (row * gw + col) * 4,
                forall|rr: int, cc: int, k: int|
                    0 <= rr && 0 <= cc < gw && 0 <= k < 4 && (rr < row || (rr == row && cc
                        < col)) ==> #[trigger] rgba@[(rr * gw + cc) * 4 + k] == crop_byte(
                        pixels@,
                        gdw,
                        sx as int,
                        sy as int,
                        rr,
                        cc,
                        k,
                    ),
            decreases w - col,
        {
            proof {
                assert(((sy + row) * dw + sx + col) * 4 + 3 < 4 * (dw as int) * (dh as int))
                    by (nonlinear_arith)
                    requires
                        sy + row < dh,
                        sx + col < dw,
                ;
                assert(((sy + row) * dw + sx + col) * 4 + 3 <= 4 * MAX_INPUT_PIXELS)
                    by (nonlinear_arith)
                    requires
                        ((sy + row) * dw + sx + col) * 4 + 3 < 4 * (dw as int) * (dh as int),
                        (dw as int) * (dh as int) <= MAX_INPUT_PIXELS,
                ;
            }
            let s = ((sy + row) * dwu + sx + col) * 4;
            let ghost before = rgba@;
            rgba.push(pixels[s + 2]);
            rgba.push(pixels[s + 1]);
            rgba.push(pixels[s]);
            rgba.push(255);
            proof {
                let base = (row * gw + col) * 4;
                assert(before.len() == base);
                assert forall|rr: int, cc: int, k: int|
                    0 <= rr && 0 <= cc < gw && 0 <= k < 4 && (rr < row || (rr == row && cc < col
                        + 1)) implies #[trigger] rgba@[(rr * gw + cc) * 4 + k] == crop_byte(
                    pixels@,
                    gdw,
                    sx as int,
                    sy as int,
                    rr,
                    cc,
                    k,
                ) by {
                    if rr < row || (rr == row && cc < col) {
                        lemma_earlier_pixel(rr, cc, row as int, col as int, gw);
                        assert((rr * gw + cc) * 4 + k < base) by (nonlinear_arith)
                            requires
                                rr * gw + cc < row * gw + col,
                                0 <= k < 4,
                                base == (row * gw + col) * 4,
                        ;
                        assert(0 <= (rr * gw + cc) * 4 + k) by (nonlinear_arith)
                            requires
                                0 <= rr,
                                0 <= cc,
                                0 <= gw,
                                0 <= k,
                        ;
                        assert(rgba@[(rr * gw + cc) * 4 + k] == before[(rr * gw + cc) * 4 + k]);
                    } else {
                        assert(rr == row && cc == col);
                        assert((rr * gw + cc) * 4 + k == base + k);
                    }
                }
                assert(rgba@.len() == (row * gw + col + 1) * 4);
            }
            col += 1;
        }
        proof {
            assert(row * gw + gw == (row + 1) * gw) by (nonlinear_arith);
        }
        row += 1;
    }
    proof {
        assert forall|r: int, c: int, k: int| 0 <= r < gh && 0 <= c < gw && 0 <= k < 4 implies
            #[trigger] rgba@[(r * gw + c) * 4 + k] == crop_byte(
            pixels@,
            width_of(desktop),
            sel.left - desktop.left,
            sel.top - desktop.top,
            r,
            c,
            k,
        ) by {}
        assert(rgba@.len() == 4 * gw * gh) by (nonlinear_arith)
            requires
                rgba@.len() == (gh * gw) * 4,
        ;
    }
    Ok(CapturedRegion { width: w, height: h, rgba, left: sel.left, top: sel.top })
}

/// The dimming eases out over 120 ms to its final alpha: `round(102 * (1 - (1 - t)^3))`
/// with `t = elapsed / 120` (a rounding tie never occurs at whole milliseconds).
pub open spec fn dim_alpha_spec(elapsed_ms: u64, reduce_motion: bool) -> int {
    if reduce_motion || elapsed_ms >= DIM_IN_MS {
        DIM_ALPHA as int
    } else {
        let rest = 120 - elapsed_ms;
        (102 * (1_728_000 - rest * rest * rest) + 864_000) / 1_728_000
    }
}

pub fn dim_alpha(elapsed_ms: u64, reduce_motion: bool) -> (a: u8)
    ensures
        a == dim_alpha_spec(elapsed_ms, reduce_motion),
{
    if reduce_motion || elapsed_ms >= DIM_IN_MS {
        return DIM_ALPHA;
    }
    let rest = 120 - elapsed_ms;
    proof {
        assert(rest * rest * rest <= 1_728_000) by (nonlinear_arith)
            requires
                rest <= 120,
        ;
        assert(rest * rest * rest >= 0) by (nonlinear_arith)
            requires
                rest >= 0,
        ;
        assert(rest * rest <= 14_400) by (nonlinear_arith)
            requires
                rest <= 120,
        ;
    }
    let cube = rest * rest * rest;
    let v = (102 * (1_728_000 - cube) + 864_000) / 1_728_000;
    assert(v <= 102);
    v as u8
}

/// Logical pixels to device pixels at `dpi` (96 is 100 %, 0 counts as 1), never below one.
/// The DPI as the signed factor the scaling multiplies by: 0 counts as 1, and the value is
/// taken as an `i32`, as a cast gives it.
pub open spec fn dpi_factor(dpi: u32) -> i32 {
    (if dpi == 0 {
        1u32
    } else {
        dpi
    }) as i32
}

pub open spec fn scaled_spec(value: i32, dpi: u32) -> int {
    let p = value * dpi_factor(dpi);
    if p < 96 {
        1
    } else {
        p / 96
    }
}

/// Where a caption pill is placed.
#[derive(Clone, Copy, Debug, PartialEq, Eq, Structural)]
pub enum PillAnchor {
    /// Centred on `center_x`, with its top at `top`.
    TopCenter { center_x: i32, top: i32 },
    /// At the bottom right of a selection, below it when it fits within `limit_height`,
    /// above it otherwise, and kept inside `limit_width`.
    BottomRight { right: i32, bottom: i32, gap: i32, limit_width: i32, limit_height: i32 },
}

/// A pill's rectangle: its top-left corner and size.
#[derive(Clone, Copy, Debug, PartialEq, Eq, Structural)]
pub struct PillRect {
    pub left: i32,
    pub top: i32,
    pub width: i32,
    pub height: i32,
}

/// Integer division by two rounding toward zero, as `i32` division does.
pub open spec fn half_toward_zero(x: int) -> int {
    if x >= 0 {
        x / 2
    } else {
        -((-x) / 2)
    }
}

pub open spec fn max_int(a: int, b: int) -> int {
    if a >= b {
        a
    } else {
        b
    }
}

pub open spec fn min_int(a: int, b: int) -> int {
    if a <= b {
        a
    } else {
        b
    }
}

pub open spec fn in_i32(x: int) -> bool {
    i32::MIN <= x <= i32::MAX
}

/// The pill around a text of the measured size, with the padding on each side, placed at
/// its anchor and never left of or above the surface's origin.
pub open spec fn pill_spec(text_width: int, text_height: int, pad_x: int, pad_y: int, anchor: PillAnchor) -> (int, int, int, int) {
    let w = text_width + 2 * pad_x;
    let h = text_height + 2 * pad_y;
    match anchor {
        PillAnchor::TopCenter { center_x, top } => (
            max_int(center_x - half_toward_zero(w), 0),
            top as int,
            w,
            h,
        ),
        PillAnchor::BottomRight { right, bottom, gap, limit_width, limit_height } => {
            let outside_top = bottom + gap;
            let top = if outside_top + h <= limit_height {
                outside_top
            } else {
                bottom - gap - h
            };
            (max_int(min_int(right - w, limit_width - w), 0), max_int(top, 0), w, h)
        },
    }
}

/// The arithmetic of a pill placement stays within `i32`.
pub open spec fn pill_fits(text_width: int, text_height: int, pad_x: int, pad_y: int, anchor: PillAnchor) -> bool {
    let w = text_width + 2 * pad_x;
    let h = text_height + 2 * pad_y;
    &&& in_i32(2 * pad_x)
    &&& in_i32(2 * pad_y)
    &&& in_i32(w)
    &&& in_i32(h)
    &&& match anchor {
        PillAnchor::TopCenter { center_x, .. } => in_i32(center_x - half_toward_zero(w)),
        PillAnchor::BottomRight { right, bottom, gap, limit_width, .. } => {
            &&& in_i32(bottom + gap)
            &&& in_i32(bottom + gap + h)
            &&& in_i32(bottom - gap)
            &&& in_i32(bottom - gap - h)
            &&& in_i32(right - w)
            &&& in_i32(limit_width - w)
        },
    }
}

/// Places a caption pill for a text of the measured size.
pub fn pill_rect(text_width: i32, text_height: i32, pad_x: i32, pad_y: i32, anchor: PillAnchor) -> (r: PillRect)
    requires
        pill_fits(text_width as int, text_height as int, pad_x as int, pad_y as int, anchor),
    ensures
        (r.left as int, r.top as int, r.width as int, r.height as int) == pill_spec(
            text_width as int,
            text_height as int,
            pad_x as int,
            pad_y as int,
            anchor,
        ),
{
    let width = text_width + pad_x * 2;
    let height = text_height + pad_y * 2;
    match anchor {
        PillAnchor::TopCenter { center_x, top } => {
            let left = center_x - width / 2;
            PillRect { left: if left > 0 { left } else { 0 }, top, width, height }
        },
        PillAnchor::BottomRight { right, bottom, gap, limit_width, limit_height } => {
            let outside_top = bottom + gap;
            let top = if outside_top + height <= limit_height {
                outside_top
            } else {
                bottom - gap - height
            };
            let from_right = right - width;
            let from_limit = limit_width - width;
            let left = if from_right <= from_limit { from_right } else { from_limit };
            PillRect {
                left: if left > 0 { left } else { 0 },
                top: if top > 0 { top } else { 0 },
                width,
                height,
            }
        },
    }
}

fn fits_i32(x: i64) -> (r: bool)
    ensures
        r == in_i32(x as int),
{
    -2147483648i64 <= x && x <= 2147483647i64
}

/// `pill_rect` where its arithmetic stays within `i32`, `None` where it would overflow.
pub fn checked_pill_rect(text_width: i32, text_height: i32, pad_x: i32, pad_y: i32, anchor: PillAnchor) -> (r: Option<PillRect>)
    ensures
        r is Some <==> pill_fits(text_width as int, text_height as int, pad_x as int, pad_y as int, anchor),
        r matches Some(p) ==> (p.left as int, p.top as int, p.width as int, p.height as int)
            == pill_spec(text_width as int, text_height as int, pad_x as int, pad_y as int, anchor),
{
    let px2 = 2 * (pad_x as i64);
    let py2 = 2 * (pad_y as i64);
    let w = text_width as i64 + px2;
    let h = text_height as i64 + py2;
    let mut ok = fits_i32(px2) && fits_i32(py2) && fits_i32(w) && fits_i32(h);
    match anchor {
        PillAnchor::TopCenter { center_x, .. } => {
            let half = w / 2;
            proof {
                assert(half as int == half_toward_zero(w as int));
            }
            ok = ok && fits_i32(center_x as i64 - half);
        },
        PillAnchor::BottomRight { right, bottom, gap, limit_width, .. } => {
            let below = bottom as i64 + gap as i64;
            let above = bottom as i64 - gap as i64;
            ok = ok && fits_i32(below) && fits_i32(below + h) && fits_i32(above) && fits_i32(above - h)
                && fits_i32(right as i64 - w) && fits_i32(limit_width as i64 - w);
        },
    }
    if ok {
        Some(pill_rect(text_width, text_height, pad_x, pad_y, anchor))
    } else {
        None
    }
}

pub fn scaled(value: i32, dpi: u32) -> (r: i32)
    requires
        i32::MIN <= value * dpi_factor(dpi) <= i32::MAX,
    ensures
        r == scaled_spec(value, dpi),
{
    let d: i32 = (if dpi == 0 {
        1u32
    } else {
        dpi
    }) as i32;
    let p = value * d;
    if p < 96 {
        1
    } else {
        p / 96
    }
}

/// The dimming never goes beyond its final alpha and never goes back while it eases in.
pub proof fn law_dimming_is_bounded_and_monotone(e1: u64, e2: u64, reduce_motion: bool)
    requires
        e1 <= e2,
    ensures
        0 <= dim_alpha_spec(e1, reduce_motion) <= DIM_ALPHA,
        dim_alpha_spec(e1, reduce_motion) <= dim_alpha_spec(e2, reduce_motion),
{
    if !reduce_motion && e1 < DIM_IN_MS {
        let r1 = 120 - e1;
        assert(0 < r1 <= 120);
        assert(0 <= r1 * r1 * r1 <= 1_728_000) by (nonlinear_arith)
            requires
                0 < r1 <= 120,
        ;
        if e2 < DIM_IN_MS {
            let r2 = 120 - e2;
            assert(0 < r2 <= r1);
            assert(r2 * r2 * r2 <= r1 * r1 * r1) by (nonlinear_arith)
                requires
                    0 < r2 <= r1,
            ;
            assert((102 * (1_728_000 - r1 * r1 * r1) + 864_000) / 1_728_000 <= (102 * (1_728_000
                - r2 * r2 * r2) + 864_000) / 1_728_000) by (nonlinear_arith)
                requires
                    r2 * r2 * r2 <= r1 * r1 * r1,
            ;
        }
        assert((102 * (1_728_000 - r1 * r1 * r1) + 864_000) / 1_728_000 <= 102) by (nonlinear_arith)
            requires
                0 <= r1 * r1 * r1,
        ;
    }
}

} // verus!
