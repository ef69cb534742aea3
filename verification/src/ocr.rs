//! Bounds and geometry of the screenshot OCR: buffer sizes, the idle unload rule, the
//! detection budget and the overlapping tile grid that large selections are cut into.

use vstd::prelude::*;
use crate::text::{chars_of, push_char};
use crate::engines::strings_view;

verus! {

pub const MAX_INPUT_PIXELS: u64 = 64 * 1024 * 1024;

pub const MAX_TILES: usize = 128;

pub const MAX_DETECTIONS: usize = 2_000;

pub const TILE_WIDTH: u32 = 2_048;

pub const TILE_HEIGHT: u32 = 2_048;

pub const TILE_OVERLAP: u32 = 128;

/// The OCR engine is unloaded after three idle minutes.
pub const IDLE_UNLOAD_MS: u64 = 3 * 60 * 1000;

pub const EMPTY_IMAGE: &'static str = "Пустое OCR-изображение";

pub const IMAGE_TOO_LARGE: &'static str = "OCR-изображение слишком велико: ";

pub const PIXELS_LIMIT: &'static str = " пикселей (предел ";

pub const DETECTION_OVERFLOW: &'static str = "Переполнение счётчика OCR-фрагментов";

pub const TOO_MANY_DETECTIONS: &'static str =
    "Найдено слишком много фрагментов текста (предел 2000); выберите меньшую область";

pub const TOO_MANY_TILES: &'static str = "Область требует слишком много OCR-плиток: ";

pub const TILES_LIMIT: &'static str = " (предел 128); выберите меньшую область";

/// ASCII digit for `d < 10`.
pub open spec fn digit(d: nat) -> char {
    ((48 + d) as u8) as char
}

/// Decimal notation of `n`, as `Display` writes an unsigned integer.
pub open spec fn decimal(n: nat) -> Seq<char>
    decreases n,
{
    if n < 10 {
        seq![digit(n)]
    } else {
        decimal(n / 10).push(digit(n % 10))
    }
}

/// `n.to_string()`.
pub fn decimal_string(n: u64) -> (s: String)
    ensures
        s@ == decimal(n as nat),
    decreases n,
{
    if n < 10 {
        let mut s = String::new();
        push_char(&mut s, ((48 + n) as u8) as char);
        s
    } else {
        let mut s = decimal_string(n / 10);
        push_char(&mut s, ((48 + n % 10) as u8) as char);
        s
    }
}

pub open spec fn rgba_len_error(pixels: int) -> Seq<char> {
    if pixels == 0 {
        EMPTY_IMAGE@
    } else {
        IMAGE_TOO_LARGE@ + decimal(pixels as nat) + PIXELS_LIMIT@ + decimal(
            MAX_INPUT_PIXELS as nat,
        ) + ")"@
    }
}

/// Size in bytes of an RGBA buffer of `width` x `height`, for non-empty images of at most
/// 64 MiPixels; the one size check shared by OCR and the screen selector.
pub fn checked_rgba_len(width: u32, height: u32) -> (r: Result<usize, String>)
    ensures
        r is Ok <==> 0 < width * height <= MAX_INPUT_PIXELS,
        r matches Ok(n) ==> n == 4 * width * height,
        r matches Err(m) ==> m@ == rgba_len_error(width * height),
{
    assert((width as int) * (height as int) <= u64::MAX) by (nonlinear_arith)
        requires
            width <= u32::MAX,
            height <= u32::MAX,
    ;
    let pixels: u64 = width as u64 * height as u64;
    if pixels == 0 {
        return Err(EMPTY_IMAGE.to_owned());
    }
    if pixels > MAX_INPUT_PIXELS {
        let mut m = IMAGE_TOO_LARGE.to_owned();
        m.append(decimal_string(pixels).as_str());
        m.append(PIXELS_LIMIT);
        m.append(decimal_string(MAX_INPUT_PIXELS).as_str());
        m.append(")");
        return Err(m);
    }
    assert(pixels * 4 <= 4 * MAX_INPUT_PIXELS);
    let n = (pixels * 4) as usize;
    assert(n == 4 * width * height) by (nonlinear_arith)
        requires
            n == pixels * 4,
            pixels == width * height,
    ;
    Ok(n)
}

/// The watchdog unloads the engine only after more than three idle minutes; a timestamp
/// from the future (a request started between two reads) never unloads it.
pub fn should_unload(now_ms: u64, last_used_ms: u64) -> (r: bool)
    ensures
        r == (now_ms > last_used_ms && now_ms - last_used_ms > IDLE_UNLOAD_MS),
{
    now_ms.saturating_sub(last_used_ms) > IDLE_UNLOAD_MS
}

/// Adds one tile's raw detections to the running total, which may not exceed 2000.
pub fn add_detection_count(total: usize, detected: usize) -> (r: Result<usize, String>)
    ensures
        r is Ok <==> total + detected <= MAX_DETECTIONS,
        r matches Ok(n) ==> n == total + detected,
        r matches Err(m) ==> m@ == (if total + detected > usize::MAX {
            DETECTION_OVERFLOW@
        } else {
            TOO_MANY_DETECTIONS@
        }),
{
    let sum = match total.checked_add(detected) {
        Some(s) => s,
        None => {
            return Err(DETECTION_OVERFLOW.to_owned());
        },
    };
    if sum > MAX_DETECTIONS {
        return Err(TOO_MANY_DETECTIONS.to_owned());
    }
    Ok(sum)
}

/// The next origin: one step of `side - TILE_OVERLAP`, pulled back so the tile ends at
/// `length`.
pub open spec fn next_origin(length: u32, side: u32, cur: int) -> int {
    if cur + (side - TILE_OVERLAP) <= length - side {
        cur + (side - TILE_OVERLAP)
    } else {
        length - side
    }
}

/// Origins from `cur` on, until a tile reaches `length`.
pub open spec fn axis_seq(length: u32, side: u32, cur: int) -> Seq<int>
    decreases length - cur,
{
    if side <= TILE_OVERLAP || cur + side >= length || cur < 0 || cur > length - side {
        seq![cur]
    } else {
        seq![cur] + axis_seq(length, side, next_origin(length, side, cur))
    }
}

/// Tile origins along one axis: `[0]` when the side fits, else `axis_seq` from 0.
pub open spec fn axis_origins_spec(length: u32, side: u32) -> Seq<int> {
    if length <= side {
        seq![0]
    } else {
        axis_seq(length, side, 0)
    }
}

pub open spec fn as_ints(v: Seq<u32>) -> Seq<int> {
    v.map_values(|x: u32| x as int)
}

pub fn axis_origins(length: u32, side: u32) -> (r: Vec<u32>)
    requires
        length <= side || side > TILE_OVERLAP,
    ensures
        as_ints(r@) == axis_origins_spec(length, side),
{
    let mut origins: Vec<u32> = Vec::new();
    if length <= side {
        origins.push(0);
        assert(as_ints(origins@) =~= seq![0int]);
        return origins;
    }
    let step = side - TILE_OVERLAP;
    let mut current: u32 = 0;
    assert(as_ints(origins@) =~= Seq::<int>::empty());
    assert(Seq::<int>::empty() + axis_seq(length, side, 0) =~= axis_seq(length, side, 0));
    loop
        invariant_except_break
            as_ints(origins@) + axis_seq(length, side, current as int) == axis_seq(length, side, 0),
        invariant
            length > side,
            side > TILE_OVERLAP,
            step == side - TILE_OVERLAP,
            current <= length - side,
        ensures
            as_ints(origins@) == axis_seq(length, side, 0),
        decreases length - current,
    {
        let ghost before = as_ints(origins@);
        origins.push(current);
        assert(as_ints(origins@) =~= before.push(current as int));
        if current + side >= length {
            assert(axis_seq(length, side, current as int) == seq![current as int]);
            assert(before + seq![current as int] =~= before.push(current as int));
            break ;
        }
        let ghost next = next_origin(length, side, current as int);
        let ghost old_cur = current as int;
        assert(axis_seq(length, side, current as int) == seq![current as int] + axis_seq(
            length,
            side,
            next,
        ));
        assert(before + (seq![old_cur] + axis_seq(length, side, next)) =~= before.push(old_cur)
            + axis_seq(length, side, next));
        current = if current + step <= length - side {
            current + step
        } else {
            length - side
        };
        assert(current == next);
    }
    origins
}

/// Shape of the origin sequence from `cur`: it starts at `cur`, stays inside
/// `[0, length - side]`, grows strictly by less than a tile, and its last tile ends at
/// `length`.
pub proof fn lemma_axis_seq_shape(length: u32, side: u32, cur: int)
    requires
        side > TILE_OVERLAP,
        length > side,
        0 <= cur <= length - side,
    ensures
        ({
            let r = axis_seq(length, side, cur);
            &&& r.len() >= 1
            &&& r[0] == cur
            &&& r.last() + side == length
            &&& forall|i: int| 0 <= i < r.len() ==> cur <= #[trigger] r[i] <= length - side
            &&& forall|i: int|
                0 <= i < r.len() - 1 ==> #[trigger] r[i] < r[i + 1] < r[i] + side
        }),
    decreases length - cur,
{
    let r = axis_seq(length, side, cur);
    if cur + side < length {
        let n = next_origin(length, side, cur);
        lemma_axis_seq_shape(length, side, n);
        let t = axis_seq(length, side, n);
        assert(r == seq![cur] + t);
        assert forall|i: int| 0 <= i < r.len() implies cur <= #[trigger] r[i] <= length - side by {
            if i > 0 {
                assert(r[i] == t[i - 1]);
            }
        }
        assert forall|i: int| 0 <= i < r.len() - 1 implies #[trigger] r[i] < r[i + 1] < r[i]
            + side by {
            if i > 0 {
                assert(r[i] == t[i - 1]);
                assert(r[i + 1] == t[i]);
            } else {
                assert(r[1] == t[0]);
            }
        }
    }
}

/// Along each axis the tiles leave no gap: every coordinate below `length` lies inside
/// some tile `[origin, origin + side)`, and every tile lies inside the image.
pub proof fn law_axis_tiles_cover(length: u32, side: u32, c: int)
    requires
        side > TILE_OVERLAP,
        0 <= c < length,
    ensures
        exists|i: int|
            0 <= i < axis_origins_spec(length, side).len() && #[trigger] axis_origins_spec(
                length,
                side,
            )[i] <= c < axis_origins_spec(length, side)[i] + side,
        length > side ==> forall|i: int|
            0 <= i < axis_origins_spec(length, side).len() ==> 0 <= #[trigger] axis_origins_spec(
                length,
                side,
            )[i] && axis_origins_spec(length, side)[i] + side <= length,
{
    let r = axis_origins_spec(length, side);
    if length <= side {
        assert(r[0] <= c < r[0] + side);
    } else {
        lemma_axis_seq_shape(length, side, 0);
        lemma_axis_cover_from(length, side, 0, c);
    }
}

proof fn lemma_axis_cover_from(length: u32, side: u32, cur: int, c: int)
    requires
        side > TILE_OVERLAP,
        length > side,
        0 <= cur <= length - side,
        cur <= c < length,
    ensures
        exists|i: int|
            0 <= i < axis_seq(length, side, cur).len() && #[trigger] axis_seq(length, side, cur)[i]
                <= c < axis_seq(length, side, cur)[i] + side,
    decreases length - cur,
{
    let r = axis_seq(length, side, cur);
    lemma_axis_seq_shape(length, side, cur);
    if c < cur + side {
        assert(r[0] <= c < r[0] + side);
    } else {
        let n = next_origin(length, side, cur);
        let t = axis_seq(length, side, n);
        assert(r == seq![cur] + t);
        lemma_axis_cover_from(length, side, n, c);
        let i = choose|i: int| 0 <= i < t.len() && #[trigger] t[i] <= c < t[i] + side;
        assert(r[i + 1] == t[i]);
    }
}

/// Width of the tile starting at `origin`: the rest of the axis, at most `side`.
pub open spec fn tile_extent(length: u32, origin: int, side: u32) -> int {
    if length - origin <= side {
        length - origin
    } else {
        side as int
    }
}

/// `(x, y, width, height)` of every tile, row by row.
pub open spec fn tiles_spec(width: u32, height: u32, r: Seq<(u32, u32, u32, u32)>) -> bool {
    let xs = axis_origins_spec(width, TILE_WIDTH);
    let ys = axis_origins_spec(height, TILE_HEIGHT);
    &&& r.len() == xs.len() * ys.len()
    &&& forall|j: int, i: int|
        0 <= j < ys.len() && 0 <= i < xs.len() ==> {
            let t = #[trigger] r[j * xs.len() + i];
            &&& t.0 == xs[i]
            &&& t.1 == ys[j]
            &&& t.2 == tile_extent(width, xs[i], TILE_WIDTH)
            &&& t.3 == tile_extent(height, ys[j], TILE_HEIGHT)
        }
}

pub open spec fn tile_count_error(count: int) -> Seq<char> {
    TOO_MANY_TILES@ + decimal(count as nat) + TILES_LIMIT@
}

pub open spec fn tile_count(width: u32, height: u32) -> int {
    (axis_origins_spec(width, TILE_WIDTH).len() * axis_origins_spec(height, TILE_HEIGHT).len()) as int
}

proof fn lemma_axis_within(length: u32, side: u32, i: int)
    requires
        side > TILE_OVERLAP,
        0 <= i < axis_origins_spec(length, side).len(),
    ensures
        0 <= axis_origins_spec(length, side)[i] <= length,
{
    if length > side {
        lemma_axis_seq_shape(length, side, 0);
    }
}

/// Cuts a selection into at most 128 overlapping tiles of up to 2048 x 2048 pixels.
pub fn tile_origins(width: u32, height: u32) -> (r: Result<Vec<(u32, u32, u32, u32)>, String>)
    ensures
        r is Ok <==> tile_count(width, height) <= MAX_TILES,
        r matches Ok(t) ==> tiles_spec(width, height, t@),
        r matches Ok(t) ==> forall|k: int|
            0 <= k < t@.len() ==> tile_fits(width, height, #[trigger] t@[k]),
        r matches Err(m) ==> m@ == tile_count_error(
            if tile_count(width, height) > usize::MAX {
                usize::MAX as int
            } else {
                tile_count(width, height)
            },
        ),
{
    let xs = axis_origins(width, TILE_WIDTH);
    let ys = axis_origins(height, TILE_HEIGHT);
    let ghost xsi = axis_origins_spec(width, TILE_WIDTH);
    let ghost ysi = axis_origins_spec(height, TILE_HEIGHT);
    assert(xs@.len() == xsi.len() && ys@.len() == ysi.len()) by {
        assert(as_ints(xs@).len() == xs@.len());
        assert(as_ints(ys@).len() == ys@.len());
    }
    let count = match xs.len().checked_mul(ys.len()) {
        Some(c) => c,
        None => usize::MAX,
    };
    if count > MAX_TILES {
        let mut m = TOO_MANY_TILES.to_owned();
        m.append(decimal_string(count as u64).as_str());
        m.append(TILES_LIMIT);
        return Err(m);
    }
    let mut out: Vec<(u32, u32, u32, u32)> = Vec::new();
    let mut j: usize = 0;
    while j < ys.len()
        invariant
            j <= ys.len(),
            xs.len() * ys.len() <= MAX_TILES,
            as_ints(xs@) == xsi,
            as_ints(ys@) == ysi,
            xsi == axis_origins_spec(width, TILE_WIDTH),
            ysi == axis_origins_spec(height, TILE_HEIGHT),
            out@.len() == j * xs.len(),
            forall|jj: int, i: int|
                0 <= jj < j && 0 <= i < xs.len() ==> {
                    let t = #[trigger] out@[jj * xs.len() + i];
                    &&& t.0 == xsi[i]
                    &&& t.1 == ysi[jj]
                    &&& t.2 == tile_extent(width, xsi[i], TILE_WIDTH)
                    &&& t.3 == tile_extent(height, ysi[jj], TILE_HEIGHT)
                },
        decreases ys.len() - j,
    {
        let y = ys[j];
        proof {
            lemma_axis_within(height, TILE_HEIGHT, j as int);
            assert(ysi[j as int] == y);
        }
        let mut i: usize = 0;
        while i < xs.len()
            invariant
                i <= xs.len(),
                j < ys.len(),
                y == ysi[j as int],
                y <= height,
                xs.len() * ys.len() <= MAX_TILES,
                as_ints(xs@) == xsi,
                xsi == axis_origins_spec(width, TILE_WIDTH),
                out@.len() == j * xs.len() + i,
                forall|jj: int, ii: int|
                    0 <= jj < j && 0 <= ii < xs.len() ==> {
                        let t = #[trigger] out@[jj * xs.len() + ii];
                        &&& t.0 == xsi[ii]
                        &&& t.1 == ysi[jj]
                        &&& t.2 == tile_extent(width, xsi[ii], TILE_WIDTH)
                        &&& t.3 == tile_extent(height, ysi[jj], TILE_HEIGHT)
                    },
                forall|ii: int|
                    0 <= ii < i ==> {
                        let t = #[trigger] out@[j * xs.len() + ii];
                        &&& t.0 == xsi[ii]
                        &&& t.1 == y
                        &&& t.2 == tile_extent(width, xsi[ii], TILE_WIDTH)
                        &&& t.3 == tile_extent(height, y as int, TILE_HEIGHT)
                    },
            decreases xs.len() - i,
        {
            let x = xs[i];
            proof {
                lemma_axis_within(width, TILE_WIDTH, i as int);
                assert(xsi[i as int] == x);
            }
            let w = if width - x <= TILE_WIDTH {
                width - x
            } else {
                TILE_WIDTH
            };
            let h = if height - y <= TILE_HEIGHT {
                height - y
            } else {
                TILE_HEIGHT
            };
            let ghost before = out@;
            out.push((x, y, w, h));
            proof {
                assert(j * xs.len() + i == before.len());
                assert forall|jj: int, ii: int| 0 <= jj < j && 0 <= ii < xs.len() implies {
                    let t = #[trigger] out@[jj * xs.len() + ii];
                    &&& t.0 == xsi[ii]
                    &&& t.1 == ysi[jj]
                    &&& t.2 == tile_extent(width, xsi[ii], TILE_WIDTH)
                    &&& t.3 == tile_extent(height, ysi[jj], TILE_HEIGHT)
                } by {
                    assert(jj * xs.len() + ii < j * xs.len()) by (nonlinear_arith)
                        requires
                            0 <= jj < j,
                            0 <= ii < xs.len(),
                    ;
                    assert(out@[jj * xs.len() + ii] == before[jj * xs.len() + ii]);
                }
                assert forall|ii: int| 0 <= ii < i + 1 implies {
                    let t = #[trigger] out@[j * xs.len() + ii];
                    &&& t.0 == xsi[ii]
                    &&& t.1 == y
                    &&& t.2 == tile_extent(width, xsi[ii], TILE_WIDTH)
                    &&& t.3 == tile_extent(height, y as int, TILE_HEIGHT)
                } by {
                    if ii < i {
                        assert(out@[j * xs.len() + ii] == before[j * xs.len() + ii]);
                    }
                }
            }
            i += 1;
        }
        proof {
            assert(out@.len() == (j + 1) * xs.len()) by (nonlinear_arith)
                requires
                    out@.len() == j * xs.len() + xs.len(),
            ;
        }
        j += 1;
    }
    assert(out@.len() == xs.len() * ys.len()) by (nonlinear_arith)
        requires
            out@.len() == j * xs.len(),
            j == ys.len(),
    ;
    proof {
        law_tiles_fit(width, height, out@);
    }
    Ok(out)
}

/// A tile `(x, y, w, h)` is at most a tile's size and lies inside the image.
pub open spec fn tile_fits(width: u32, height: u32, t: (u32, u32, u32, u32)) -> bool {
    &&& t.2 <= TILE_WIDTH
    &&& t.3 <= TILE_HEIGHT
    &&& t.0 + t.2 <= width
    &&& t.1 + t.3 <= height
}

/// Every tile is at most 2048 x 2048 pixels and lies inside the selection.
pub proof fn law_tiles_fit(width: u32, height: u32, r: Seq<(u32, u32, u32, u32)>)
    requires
        tiles_spec(width, height, r),
    ensures
        forall|k: int| 0 <= k < r.len() ==> tile_fits(width, height, #[trigger] r[k]),
{
    let xs = axis_origins_spec(width, TILE_WIDTH);
    let ys = axis_origins_spec(height, TILE_HEIGHT);
    let n = xs.len() as int;
    assert forall|k: int| 0 <= k < r.len() implies tile_fits(width, height, #[trigger] r[k]) by {
        assert(n > 0) by {
            if width > TILE_WIDTH {
                lemma_axis_seq_shape(width, TILE_WIDTH, 0);
            }
        }
        let j = k / n;
        let i = k % n;
        assert(k == j * n + i && 0 <= i < n && 0 <= j) by (nonlinear_arith)
            requires
                n > 0,
                0 <= k,
                j == k / n,
                i == k % n,
        ;
        assert(j < ys.len()) by (nonlinear_arith)
            requires
                k == j * n + i,
                0 <= i < n,
                k < n * ys.len(),
                0 <= j,
        ;
        lemma_axis_within(width, TILE_WIDTH, i);
        lemma_axis_within(height, TILE_HEIGHT, j);
        assert(r[j * xs.len() + i] == r[k]);
    }
}

pub const RGBA_LEN_MISMATCH: &'static str =
    "Длина RGBA-буфера не совпадает с размером изображения: ожидалось ";

pub const RGBA_LEN_GOT: &'static str = ", получено ";

pub const BGR_LEN_MISMATCH: &'static str =
    "Длина RGBA-буфера не совпадает с размерами BGR-изображения";

pub const BGR_NO_MEMORY: &'static str = "Недостаточно памяти для BGR-буфера размером ";

pub const BGR_NO_MEMORY_UNIT: &'static str = " байт";

/// Largest total area of the perspective crops recognized in one batch.
pub const MAX_CROP_BATCH_PIXELS: u64 = 16 * 1024 * 1024;

pub const BOX_POINTS_PREFIX: &'static str = "Detector OCR вернул ";

pub const BOX_POINTS_SUFFIX: &'static str = " точек вместо 4";

pub const BOX_OUT_OF_IMAGE: &'static str = "Detector OCR вернул crop за границами изображения";

pub const BOX_DEGENERATE: &'static str = "Detector OCR вернул вырожденный crop";

pub const BOX_NOT_CONVEX: &'static str = "Detector OCR вернул невыпуклый или неупорядоченный crop";

pub const CROP_AREA_OVERFLOW: &'static str = "Переполнение площади perspective OCR-crop";

pub const BATCH_AREA_OVERFLOW: &'static str = "Переполнение суммарной площади OCR-crop";

pub const BATCH_AREA_TOO_LARGE: &'static str =
    "Суммарная площадь OCR-crop в одном batch превышает предел 16777216 пикселей";

/// An RGBA buffer handed to recognition must be exactly `width` x `height` pixels.
pub fn check_rgba_input(width: u32, height: u32, len: usize) -> (r: Result<usize, String>)
    ensures
        !(0 < width * height <= MAX_INPUT_PIXELS) ==> (r matches Err(m) && m@ == rgba_len_error(
            width * height,
        )),
        0 < width * height <= MAX_INPUT_PIXELS && len != 4 * width * height ==> (r matches Err(m)
            && m@ == RGBA_LEN_MISMATCH@ + decimal((4 * width * height) as nat) + RGBA_LEN_GOT@
            + decimal(len as nat)),
        0 < width * height <= MAX_INPUT_PIXELS && len == 4 * width * height ==> r == Ok::<
            usize,
            String,
        >(len),
{
    let expected = checked_rgba_len(width, height)?;
    if len != expected {
        let mut m = RGBA_LEN_MISMATCH.to_owned();
        m.append(decimal_string(expected as u64).as_str());
        m.append(RGBA_LEN_GOT);
        m.append(decimal_string(len as u64).as_str());
        return Err(m);
    }
    Ok(len)
}

/// Size in bytes of a three-channel buffer of `width` x `height`.
pub fn bgr_len(width: u32, height: u32) -> (n: usize)
    requires
        0 < width * height <= MAX_INPUT_PIXELS,
    ensures
        n == 3 * width * height,
{
    assert((width as int) * (height as int) <= u64::MAX) by (nonlinear_arith)
        requires
            width <= u32::MAX,
            height <= u32::MAX,
    ;
    let pixels: u64 = width as u64 * height as u64;
    assert(pixels * 3 <= 3 * MAX_INPUT_PIXELS);
    let n = (pixels * 3) as usize;
    assert(n == 3 * width * height) by (nonlinear_arith)
        requires
            n == pixels * 3,
            pixels == width * height,
    ;
    n
}

/// Pixel `i` of an RGBA buffer as three bytes in the B, G, R order that the detector reads.
pub open spec fn bgr_of(rgba: Seq<u8>, i: int, k: int) -> u8 {
    rgba[4 * i + 2 - k]
}

/// The three-channel buffer the recognizer reads: the RGBA pixels with alpha dropped and
/// stored B, G, R. The output is reserved at once for `bgr_len` bytes; a refusal of the
/// allocator is reported as an error naming that size. The contract does not name the size
/// asked for, since nothing names the allocator's answer to it.
pub fn rgba_to_bgr(width: u32, height: u32, rgba: &[u8]) -> (r: Result<Vec<u8>, String>)
    ensures
        !(0 < width * height <= MAX_INPUT_PIXELS) ==> (r matches Err(m) && m@ == rgba_len_error(
            width * height,
        )),
        0 < width * height <= MAX_INPUT_PIXELS && rgba@.len() != 4 * width * height ==> (r matches Err(
            m,
        ) && m@ == BGR_LEN_MISMATCH@),
        r matches Ok(out) ==> out@.len() == 3 * width * height && rgba@.len() == 4 * width * height
            && forall|i: int, k: int|
            0 <= i < width * height && 0 <= k < 3 ==> #[trigger] out@[3 * i + k] == bgr_of(
                rgba@,
                i,
                k,
            ),
        r matches Err(m) ==> (!(0 < width * height <= MAX_INPUT_PIXELS) || rgba@.len() != 4
            * width * height || m@ == BGR_NO_MEMORY@ + decimal((3 * width * height) as nat)
            + BGR_NO_MEMORY_UNIT@),
{
    let expected = checked_rgba_len(width, height)?;
    if rgba.len() != expected {
        return Err(BGR_LEN_MISMATCH.to_owned());
    }
    let pixels: usize = expected / 4;
    assert(pixels == width * height && pixels <= MAX_INPUT_PIXELS && expected == 4 * pixels)
        by (nonlinear_arith)
        requires
            expected == 4 * width * height,
            pixels == expected / 4,
            width * height <= MAX_INPUT_PIXELS,
    ;
    assert(rgba@.len() == 4 * pixels);
    // The output buffer is asked for exactly 3 * width * height bytes.
    let bgr_len = bgr_len(width, height);
    assert(bgr_len == pixels * 3) by (nonlinear_arith)
        requires
            bgr_len == 3 * width * height,
            pixels == width * height,
    ;
    let mut bgr: Vec<u8> = Vec::new();
    if !crate::screen_capture::try_reserve_bytes(&mut bgr, bgr_len) {
        let mut m = BGR_NO_MEMORY.to_owned();
        m.append(decimal_string(bgr_len as u64).as_str());
        m.append(BGR_NO_MEMORY_UNIT);
        return Err(m);
    }
    let mut i: usize = 0;
    while i < pixels
        invariant
            i <= pixels,
            pixels == width * height,
            pixels <= MAX_INPUT_PIXELS,
            rgba@.len() == 4 * pixels,
            bgr@.len() == 3 * i,
            forall|j: int, k: int|
                0 <= j < i && 0 <= k < 3 ==> #[trigger] bgr@[3 * j + k] == bgr_of(rgba@, j, k),
        decreases pixels - i,
    {
        let base = 4 * i;
        bgr.push(rgba[base + 2]);
        bgr.push(rgba[base + 1]);
        bgr.push(rgba[base]);
        assert forall|j: int, k: int| 0 <= j < i + 1 && 0 <= k < 3 implies #[trigger] bgr@[3 * j
            + k] == bgr_of(rgba@, j, k) by {
            if j == i {
                assert(3 * j + k == 3 * i + k);
            }
        }
        i += 1;
    }
    Ok(bgr)
}

/// A greedy CTC step is kept when it is not the blank and does not repeat the step before.
pub open spec fn ctc_kept(ix: Seq<usize>, t: int) -> bool {
    ix[t] != 0 && (t == 0 || ix[t] != ix[t - 1])
}

/// The text of greedy CTC decoding: repeats collapsed first, blanks removed after.
pub open spec fn ctc_spec(ix: Seq<usize>, keys: Seq<Seq<char>>) -> Seq<char>
    decreases ix.len(),
{
    if ix.len() == 0 {
        Seq::empty()
    } else {
        ctc_spec(ix.drop_last(), keys) + if ctc_kept(ix, ix.len() - 1) {
            keys[ix.last() as int]
        } else {
            Seq::empty()
        }
    }
}

/// Decodes the best class of every time step into text; `kept` marks the steps whose score
/// counts towards the line's confidence.
pub fn ctc_text(indices: &[usize], keys: &[String]) -> (r: (String, Vec<bool>))
    requires
        forall|t: int|
            0 <= t < indices@.len() ==> #[trigger] indices@[t] == 0 || indices@[t] < keys@.len(),
    ensures
        r.0@ == ctc_spec(indices@, keys@.map_values(|k: String| k@)),
        r.1@.len() == indices@.len(),
        forall|t: int| 0 <= t < indices@.len() ==> #[trigger] r.1@[t] == ctc_kept(indices@, t),
{
    let ghost ks = keys@.map_values(|k: String| k@);
    let mut text = String::new();
    let mut kept: Vec<bool> = Vec::new();
    let mut previous: usize = 0;
    let mut t: usize = 0;
    while t < indices.len()
        invariant
            t <= indices@.len(),
            ks == keys@.map_values(|k: String| k@),
            forall|u: int|
                0 <= u < indices@.len() ==> #[trigger] indices@[u] == 0 || indices@[u] < keys@.len(),
            text@ == ctc_spec(indices@.take(t as int), ks),
            kept@.len() == t,
            forall|u: int| 0 <= u < t ==> #[trigger] kept@[u] == ctc_kept(indices@, u),
            t > 0 ==> previous == indices@[t - 1],
        decreases indices.len() - t,
    {
        let index = indices[t];
        let keep = index != 0 && (t == 0 || index != previous);
        let ghost pre = indices@.take(t + 1);
        assert(pre.drop_last() == indices@.take(t as int));
        assert(ctc_kept(pre, t as int) == ctc_kept(indices@, t as int));
        if keep {
            text.append(keys[index].as_str());
        }
        kept.push(keep);
        previous = index;
        t += 1;
    }
    assert(indices@.take(indices@.len() as int) == indices@);
    (text, kept)
}

/// Twice the signed area of the turn `a -> b -> c`.
pub open spec fn turn(a: (u32, u32), b: (u32, u32), c: (u32, u32)) -> int {
    (b.0 - a.0) * (c.1 - b.1) - (b.1 - a.1) * (c.0 - b.0)
}

/// The turn at corner `i + 1` of a four-point box.
pub open spec fn corner_turn(p: Seq<(u32, u32)>, i: int) -> int {
    turn(p[i], p[(i + 1) % 4], p[(i + 2) % 4])
}

/// The first problem found walking the corners from `i`, all turns before `i` having the
/// sign `orientation` (`0`: no turn seen yet).
pub open spec fn corners_error(p: Seq<(u32, u32)>, i: int, orientation: int) -> Option<Seq<char>>
    decreases 4 - i,
{
    if i >= 4 {
        None
    } else {
        let c = corner_turn(p, i);
        let sign = if c > 0 {
            1int
        } else {
            -1int
        };
        if c == 0 {
            Some(BOX_DEGENERATE@)
        } else if orientation != 0 && sign != orientation {
            Some(BOX_NOT_CONVEX@)
        } else {
            corners_error(p, i + 1, sign)
        }
    }
}

/// Why a detected text box cannot be cut out: not four points, a point outside the image,
/// or not the ordered corners of a convex quadrilateral.
pub open spec fn text_box_error(p: Seq<(u32, u32)>, width: u32, height: u32) -> Option<Seq<char>> {
    if p.len() != 4 {
        Some(BOX_POINTS_PREFIX@ + decimal(p.len()) + BOX_POINTS_SUFFIX@)
    } else if exists|i: int| 0 <= i < 4 && (#[trigger] p[i].0 > width || p[i].1 > height) {
        Some(BOX_OUT_OF_IMAGE@)
    } else {
        corners_error(p, 0, 0)
    }
}

fn corner_turn_exec(a: (u32, u32), b: (u32, u32), c: (u32, u32)) -> (r: i128)
    ensures
        r == turn(a, b, c),
{
    let abx: i64 = b.0 as i64 - a.0 as i64;
    let aby: i64 = b.1 as i64 - a.1 as i64;
    let bcx: i64 = c.0 as i64 - b.0 as i64;
    let bcy: i64 = c.1 as i64 - b.1 as i64;
    assert(-0x1_0000_0000 * 0x1_0000_0000 <= abx * bcy <= 0x1_0000_0000 * 0x1_0000_0000)
        by (nonlinear_arith)
        requires
            -0x1_0000_0000 <= abx <= 0x1_0000_0000,
            -0x1_0000_0000 <= bcy <= 0x1_0000_0000,
    ;
    assert(-0x1_0000_0000 * 0x1_0000_0000 <= aby * bcx <= 0x1_0000_0000 * 0x1_0000_0000)
        by (nonlinear_arith)
        requires
            -0x1_0000_0000 <= aby <= 0x1_0000_0000,
            -0x1_0000_0000 <= bcx <= 0x1_0000_0000,
    ;
    let l: i128 = abx as i128 * bcy as i128;
    let rr: i128 = aby as i128 * bcx as i128;
    l - rr
}

/// Checks a detected box before it is cut out of the image.
pub fn check_text_box(points: &[(u32, u32)], width: u32, height: u32) -> (r: Result<(), String>)
    ensures
        match text_box_error(points@, width, height) {
            Some(m) => (r matches Err(e) && e@ == m),
            None => r is Ok,
        },
{
    if points.len() != 4 {
        let mut m = BOX_POINTS_PREFIX.to_owned();
        m.append(decimal_string(points.len() as u64).as_str());
        m.append(BOX_POINTS_SUFFIX);
        return Err(m);
    }
    let mut i: usize = 0;
    while i < 4
        invariant
            i <= 4,
            points@.len() == 4,
            forall|j: int| 0 <= j < i ==> !(#[trigger] points@[j].0 > width || points@[j].1 > height),
        decreases 4 - i,
    {
        if points[i].0 > width || points[i].1 > height {
            assert(points@[i as int].0 > width || points@[i as int].1 > height);
            return Err(BOX_OUT_OF_IMAGE.to_owned());
        }
        i += 1;
    }
    let mut orientation: i8 = 0;
    let mut k: usize = 0;
    while k < 4
        invariant
            k <= 4,
            points@.len() == 4,
            -1 <= orientation <= 1,
            k > 0 ==> orientation != 0,
            k == 0 ==> orientation == 0,
            text_box_error(points@, width, height) == corners_error(points@, k as int, orientation as int),
        decreases 4 - k,
    {
        let c = corner_turn_exec(points[k], points[(k + 1) % 4], points[(k + 2) % 4]);
        assert(c == corner_turn(points@, k as int));
        if c == 0 {
            return Err(BOX_DEGENERATE.to_owned());
        }
        let sign: i8 = if c > 0 {
            1
        } else {
            -1
        };
        if orientation != 0 && sign != orientation {
            return Err(BOX_NOT_CONVEX.to_owned());
        }
        orientation = sign;
        k += 1;
    }
    Ok(())
}

/// The area of one perspective crop, `width` x `height` pixels, if it fits in u64.
pub fn crop_area(width: u64, height: u64) -> (r: Result<u64, String>)
    ensures
        width * height <= u64::MAX ==> r == Ok::<u64, String>((width * height) as u64),
        width * height > u64::MAX ==> (r matches Err(m) && m@ == CROP_AREA_OVERFLOW@),
{
    match width.checked_mul(height) {
        Some(a) => Ok(a),
        None => Err(CROP_AREA_OVERFLOW.to_owned()),
    }
}

/// Adds one crop to the batch's total area, which may not exceed 16 MiPixels.
pub fn add_crop_pixels(total: u64, pixels: u64) -> (r: Result<u64, String>)
    ensures
        total + pixels <= MAX_CROP_BATCH_PIXELS ==> r == Ok::<u64, String>((total + pixels) as u64),
        MAX_CROP_BATCH_PIXELS < total + pixels <= u64::MAX ==> (r matches Err(m) && m@
            == BATCH_AREA_TOO_LARGE@),
        total + pixels > u64::MAX ==> (r matches Err(m) && m@ == BATCH_AREA_OVERFLOW@),
{
    let sum = match total.checked_add(pixels) {
        Some(s) => s,
        None => {
            return Err(BATCH_AREA_OVERFLOW.to_owned());
        },
    };
    if sum > MAX_CROP_BATCH_PIXELS {
        return Err(BATCH_AREA_TOO_LARGE.to_owned());
    }
    Ok(sum)
}

/// The source pixel that padded pixel `(x, y)` repeats: the nearest pixel of the image.
pub open spec fn pad_source(x: int, y: int, width: int, height: int, border: int) -> int {
    let sx = if x >= border {
        crate::screen_capture::min(x - border, width - 1)
    } else {
        0
    };
    let sy = if y >= border {
        crate::screen_capture::min(y - border, height - 1)
    } else {
        0
    };
    sy * width + sx
}

/// Pads a three-channel image by `border` pixels on every side, each new pixel repeating
/// the nearest pixel of the image, so the detector never sees invented content at the
/// edges.
pub fn edge_pad_rgb(source: &[u8], width: u32, height: u32, border: u32) -> (r: Vec<u8>)
    requires
        border == 0 || (width >= 1 && height >= 1),
        source@.len() == 3 * width * height,
        width + 2 * border <= u32::MAX,
        height + 2 * border <= u32::MAX,
        3 * (width + 2 * border) * (height + 2 * border) <= usize::MAX,
    ensures
        r@.len() == 3 * (width + 2 * border) * (height + 2 * border),
        forall|y: int, x: int, k: int|
            0 <= y < height + 2 * border && 0 <= x < width + 2 * border && 0 <= k < 3
                ==> #[trigger] r@[3 * (y * (width + 2 * border) + x) + k] == source@[3 * pad_source(
                x,
                y,
                width as int,
                height as int,
                border as int,
            ) + k],
{
    let n: usize = source.len();
    let pw: u32 = width + 2 * border;
    let ph: u32 = height + 2 * border;
    let ghost w2 = pw as int;
    let mut out: Vec<u8> = Vec::new();
    let mut y: u32 = 0;
    while y < ph
        invariant
            pw == width + 2 * border,
            ph == height + 2 * border,
            w2 == pw,
            border == 0 || (width >= 1 && height >= 1),
            y <= ph,
            source@.len() == 3 * width * height,
            n == source@.len(),
            3 * pw * ph <= usize::MAX,
            out@.len() == 3 * (y * w2),
            forall|yy: int, xx: int, k: int|
                0 <= yy < y && 0 <= xx < w2 && 0 <= k < 3 ==> #[trigger] out@[3 * (yy * w2 + xx) + k]
                    == source@[3 * pad_source(xx, yy, width as int, height as int, border as int) + k],
        decreases ph - y,
    {
        assert(height >= 1);
        let sy: u32 = if y >= border {
            if y - border < height - 1 {
                y - border
            } else {
                height - 1
            }
        } else {
            0
        };
        let mut x: u32 = 0;
        while x < pw
            invariant
                pw == width + 2 * border,
                ph == height + 2 * border,
                w2 == pw,
                border == 0 || (width >= 1 && height >= 1),
                y < ph,
                x <= pw,
                sy < height,
                sy == (if y >= border {
                    crate::screen_capture::min(y - border, height - 1)
                } else {
                    0
                }),
                source@.len() == 3 * width * height,
                n == source@.len(),
                3 * pw * ph <= usize::MAX,
                out@.len() == 3 * (y * w2 + x),
                forall|yy: int, xx: int, k: int|
                    (0 <= yy < y && 0 <= xx < w2 || yy == y && 0 <= xx < x) && 0 <= k < 3
                        ==> #[trigger] out@[3 * (yy * w2 + xx) + k] == source@[3 * pad_source(
                        xx,
                        yy,
                        width as int,
                        height as int,
                        border as int,
                    ) + k],
            decreases pw - x,
        {
            assert(width >= 1);
            let sx: u32 = if x >= border {
                if x - border < width - 1 {
                    x - border
                } else {
                    width - 1
                }
            } else {
                0
            };
            assert(sy * width + sx < width * height && 3 * (sy * width + sx) + 2 < 3 * width * height)
                by (nonlinear_arith)
                requires
                    sy < height,
                    sx < width,
            ;
            assert(sy * width <= sy * width + sx);
            assert(3 * (y * w2 + x) + 3 <= 3 * pw * ph) by (nonlinear_arith)
                requires
                    y < ph,
                    x < pw,
                    w2 == pw,
            ;
            let base: usize = 3 * (sy as usize * width as usize + sx as usize);
            let ghost before = out@;
            out.push(source[base]);
            out.push(source[base + 1]);
            out.push(source[base + 2]);
            assert forall|yy: int, xx: int, k: int|
                (0 <= yy < y && 0 <= xx < w2 || yy == y && 0 <= xx < x + 1) && 0 <= k < 3 implies #[trigger] out@[3
                * (yy * w2 + xx) + k] == source@[3 * pad_source(
                xx,
                yy,
                width as int,
                height as int,
                border as int,
            ) + k] by {
                if yy == y && xx == x {
                    assert(3 * (yy * w2 + xx) + k == 3 * (y * w2 + x) + k);
                    assert(pad_source(xx, yy, width as int, height as int, border as int) == sy * width
                        + sx);
                } else {
                    crate::screen_capture::lemma_earlier_pixel(yy, xx, y as int, x as int, w2);
                    assert(0 <= yy * w2 + xx) by (nonlinear_arith)
                        requires
                            0 <= yy,
                            0 <= xx,
                            0 <= w2,
                    ;
                    assert(out@[3 * (yy * w2 + xx) + k] == before[3 * (yy * w2 + xx) + k]);
                }
            }
            x += 1;
        }
        assert(3 * (y * w2 + w2) == 3 * ((y + 1) * w2)) by (nonlinear_arith);
        y += 1;
    }
    assert(3 * (ph * w2) == 3 * (width + 2 * border) * (height + 2 * border)) by (nonlinear_arith)
        requires
            w2 == width + 2 * border,
            ph == height + 2 * border,
    ;
    out
}

/// Tiles no longer than this on their long side are recognized at twice their size.
pub const SMALL_IMAGE_LONG_EDGE: u32 = 464;

/// The longest side the detector is given.
pub const DETECTOR_MAX_SIDE: u32 = 960;

/// Lines of the recognizer's dictionary.
pub const DICTIONARY_LINES: usize = 517;

pub const DICTIONARY_MISMATCH: &'static str =
    "Словарь OCR несовместим с моделью: ожидалось 517 символов, найдено ";

/// Small tiles are enlarged twice before detection, others are used as they are.
pub fn tile_scale(tile_width: u32, tile_height: u32) -> (r: u32)
    ensures
        r == (if tile_width <= SMALL_IMAGE_LONG_EDGE && tile_height <= SMALL_IMAGE_LONG_EDGE {
            2u32
        } else {
            1u32
        }),
{
    let long = if tile_width >= tile_height {
        tile_width
    } else {
        tile_height
    };
    if long <= SMALL_IMAGE_LONG_EDGE {
        2
    } else {
        1
    }
}

/// The side the detector resizes to: the padded image's long side, at most 960.
pub fn detector_side(width: u32, height: u32) -> (r: u32)
    ensures
        r == crate::screen_capture::min(
            crate::screen_capture::max(width as int, height as int),
            DETECTOR_MAX_SIDE as int,
        ),
{
    let long = if width >= height {
        width
    } else {
        height
    };
    if long <= DETECTOR_MAX_SIDE {
        long
    } else {
        DETECTOR_MAX_SIDE
    }
}

/// The dictionary must have exactly the model's 517 lines.
pub fn check_dictionary_lines(lines: usize) -> (r: Result<(), String>)
    ensures
        lines == DICTIONARY_LINES ==> r is Ok,
        lines != DICTIONARY_LINES ==> (r matches Err(m) && m@ == DICTIONARY_MISMATCH@ + decimal(
            lines as nat,
        )),
{
    if lines == DICTIONARY_LINES {
        Ok(())
    } else {
        let mut m = DICTIONARY_MISMATCH.to_owned();
        m.append(decimal_string(lines as u64).as_str());
        Err(m)
    }
}

/// The text without one final line break.
pub open spec fn without_final_newline(s: Seq<char>) -> Seq<char> {
    if s.len() > 0 && s.last() == '\n' {
        s.drop_last()
    } else {
        s
    }
}

/// `s` split at every line feed, as `str::split` does: an empty text is one empty line, and
/// a line feed at the end leaves an empty last line.
pub open spec fn split_lines(s: Seq<char>) -> Seq<Seq<char>>
    decreases s.len(),
{
    if s.len() == 0 {
        seq![Seq::empty()]
    } else {
        let rest = split_lines(s.drop_last());
        if s.last() == '\n' {
            rest.push(Seq::empty())
        } else {
            rest.update(rest.len() - 1, rest.last().push(s.last()))
        }
    }
}

/// A line without the carriage returns at its end.
pub open spec fn trim_cr_end(s: Seq<char>) -> Seq<char>
    decreases s.len(),
{
    if s.len() > 0 && s.last() == '\r' {
        trim_cr_end(s.drop_last())
    } else {
        s
    }
}

/// The recognizer's classes: the CTC blank, then each dictionary line, then the space.
pub open spec fn dictionary_keys(dictionary: Seq<char>) -> Seq<Seq<char>> {
    seq![Seq::<char>::empty()] + split_lines(without_final_newline(dictionary)).map_values(
        |l: Seq<char>| trim_cr_end(l),
    ) + seq![seq![' ']]
}

pub proof fn lemma_split_lines_nonempty(s: Seq<char>)
    ensures
        split_lines(s).len() >= 1,
    decreases s.len(),
{
    if s.len() > 0 {
        lemma_split_lines_nonempty(s.drop_last());
    }
}

/// `line` without its trailing carriage returns.
fn trimmed_line(line: &Vec<char>) -> (r: String)
    ensures
        r@ == trim_cr_end(line@),
{
    let mut k: usize = line.len();
    assert(line@.take(k as int) =~= line@);
    while k > 0 && line[k - 1] == '\r'
        invariant
            k <= line.len(),
            trim_cr_end(line@) == trim_cr_end(line@.take(k as int)),
        decreases k,
    {
        assert(line@.take(k as int).drop_last() =~= line@.take(k - 1));
        k = k - 1;
    }
    let mut r = String::new();
    let mut i: usize = 0;
    while i < k
        invariant
            i <= k <= line.len(),
            r@ == line@.take(i as int),
        decreases k - i,
    {
        push_char(&mut r, line[i]);
        assert(line@.take(i + 1) =~= line@.take(i as int).push(line@[i as int]));
        i = i + 1;
    }
    proof {
        assert(r@ == line@.take(k as int));
        assert(!(r@.len() > 0 && r@.last() == '\r'));
    }
    r
}

/// The recognizer's classes read from the dictionary text.
pub fn ctc_keys(dictionary: &str) -> (keys: Vec<String>)
    ensures
        strings_view(keys@) == dictionary_keys(dictionary@),
{
    let chars = chars_of(dictionary);
    let mut n: usize = chars.len();
    if n > 0 && chars[n - 1] == '\n' {
        n = n - 1;
    }
    let ghost text = chars@.take(n as int);
    proof {
        assert(text =~= without_final_newline(dictionary@));
    }
    let mut keys: Vec<String> = Vec::new();
    keys.push(String::new());
    let mut cur: Vec<char> = Vec::new();
    let mut i: usize = 0;
    proof {
        assert(text.take(0) =~= Seq::<char>::empty());
        assert(strings_view(keys@) =~= seq![Seq::<char>::empty()] + split_lines(text.take(0)).drop_last().map_values(
            |l: Seq<char>| trim_cr_end(l),
        ));
    }
    while i < n
        invariant
            i <= n <= chars.len(),
            text == chars@.take(n as int),
            strings_view(keys@) == seq![Seq::<char>::empty()] + split_lines(
                text.take(i as int),
            ).drop_last().map_values(|l: Seq<char>| trim_cr_end(l)),
            cur@ == split_lines(text.take(i as int)).last(),
            split_lines(text.take(i as int)).len() >= 1,
        decreases n - i,
    {
        let c = chars[i];
        let ghost before = split_lines(text.take(i as int));
        proof {
            assert(text.take(i + 1).drop_last() =~= text.take(i as int));
            assert(text.take(i + 1).last() == c);
        }
        if c == '\n' {
            let ghost old_view = strings_view(keys@);
            let line = trimmed_line(&cur);
            keys.push(line);
            assert(strings_view(keys@) =~= old_view.push(trim_cr_end(before.last())));
            cur = Vec::new();
            proof {
                let after = split_lines(text.take(i + 1));
                assert(after == before.push(Seq::empty()));
                assert(after.drop_last() =~= before);
                assert(before.map_values(|l: Seq<char>| trim_cr_end(l)) =~= before.drop_last().map_values(
                    |l: Seq<char>| trim_cr_end(l),
                ).push(trim_cr_end(before.last())));
                assert(strings_view(keys@) =~= seq![Seq::<char>::empty()] + after.drop_last().map_values(
                    |l: Seq<char>| trim_cr_end(l),
                ));
                assert(cur@ =~= after.last());
            }
        } else {
            cur.push(c);
            proof {
                let after = split_lines(text.take(i + 1));
                assert(after == before.update(before.len() - 1, before.last().push(c)));
                assert(after.drop_last() =~= before.drop_last());
            }
        }
        i = i + 1;
    }
    let ghost old_view = strings_view(keys@);
    let line = trimmed_line(&cur);
    keys.push(line);
    let ghost with_last = strings_view(keys@);
    assert(with_last =~= old_view.push(line@));
    let mut space = String::new();
    push_char(&mut space, ' ');
    keys.push(space);
    assert(strings_view(keys@) =~= with_last.push(space@));
    proof {
        assert(text.take(i as int) =~= text);
        let lines = split_lines(text);
        assert(text.take(n as int) =~= text);
        assert(lines.map_values(|l: Seq<char>| trim_cr_end(l)) =~= lines.drop_last().map_values(
            |l: Seq<char>| trim_cr_end(l),
        ).push(trim_cr_end(lines.last())));
        assert(space@ =~= seq![' ']);
        assert(strings_view(keys@) =~= dictionary_keys(dictionary@));
    }
    keys
}

} // verus!
