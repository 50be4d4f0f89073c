//! The geometry of pictures: which sample of a picture goes where when it is
//! cropped, turned or scaled down.

use vstd::prelude::*;
use crate::crop::{larger, scaled, smaller};
use crate::edit_manifest::CropMargins;

verus! {

/// How a sensor was held, as its file records it.
#[derive(Clone, Copy, Debug, PartialEq, Eq, Structural)]
pub enum Orientation {
    Normal,
    HorizontalFlip,
    Rotate180,
    VerticalFlip,
    Transpose,
    Rotate90,
    Transverse,
    Rotate270,
    Unknown,
}

impl Orientation {
    /// Whether a picture held so is shown with its axes exchanged.
    pub open spec fn swaps(self) -> bool {
        self == Orientation::Rotate90 || self == Orientation::Rotate270 || self
            == Orientation::Transpose || self == Orientation::Transverse
    }

    /// Whether a picture held so has its columns in reverse.
    pub open spec fn mirrors_columns(self) -> bool {
        self == Orientation::HorizontalFlip || self == Orientation::Rotate180 || self
            == Orientation::Rotate270 || self == Orientation::Transverse
    }

    /// Whether a picture held so has its rows in reverse.
    pub open spec fn mirrors_rows(self) -> bool {
        self == Orientation::VerticalFlip || self == Orientation::Rotate180 || self
            == Orientation::Rotate90 || self == Orientation::Transverse
    }

    /// Whether the axes are exchanged, the columns reversed and the rows
    /// reversed.
    fn flips(self) -> (r: (bool, bool, bool))
        ensures
            r == (self.swaps(), self.mirrors_columns(), self.mirrors_rows()),
    {
        match self {
            Orientation::Normal | Orientation::Unknown => (false, false, false),
            Orientation::VerticalFlip => (false, false, true),
            Orientation::HorizontalFlip => (false, true, false),
            Orientation::Rotate180 => (false, true, true),
            Orientation::Transpose => (true, false, false),
            Orientation::Rotate90 => (true, false, true),
            Orientation::Rotate270 => (true, true, false),
            Orientation::Transverse => (true, true, true),
        }
    }
}

/// The dimensions of a sensor's picture as it is shown.
pub fn display_source_dims(width: u32, height: u32, orientation: Orientation) -> (r: (u32, u32))
    ensures
        r == (if orientation.swaps() {
            (height, width)
        } else {
            (width, height)
        }),
{
    match orientation {
        Orientation::Rotate90
        | Orientation::Rotate270
        | Orientation::Transpose
        | Orientation::Transverse => (height, width),
        _ => (width, height),
    }
}

/// A margin of a source of the given side on a print of it, rounded to the
/// nearest pixel (halves up). A source without a side counts as one pixel, and
/// no margin is longer than a number can say.
pub open spec fn printed(margin: u32, source: u32, side: u32) -> int {
    smaller(
        scaled(margin as int, side as int, larger(source as int, 1)),
        u32::MAX as int,
    )
}

/// Scales a margin onto a print.
fn print_margin(margin: u32, source: u32, side: u32) -> (r: u32)
    ensures
        r == printed(margin, source, side),
{
    proof {
        reveal(scaled);
    }
    let m: u128 = margin as u128;
    let s: u128 = side as u128;
    let from: u128 = if source < 1 {
        1
    } else {
        source as u128
    };
    assert(m * s <= 0xffff_ffff * 0xffff_ffff) by (nonlinear_arith)
        requires
            m <= 0xffff_ffff,
            s <= 0xffff_ffff,
    ;
    assert(2 * margin * side == 2 * (m * s)) by (nonlinear_arith)
        requires
            m == margin,
            s == side,
    ;
    let n: u128 = (2 * (m * s) + from) / (2 * from);
    if n > u32::MAX as u128 {
        u32::MAX
    } else {
        n as u32
    }
}

/// The margins of a crop on a print of the source, each scaled along its own
/// axis.
pub open spec fn crop_on_print(
    crop: CropMargins,
    source_w: u32,
    source_h: u32,
    width: u32,
    height: u32,
) -> CropMargins {
    CropMargins {
        top: printed(crop.top, source_h, height) as u32,
        right: printed(crop.right, source_w, width) as u32,
        bottom: printed(crop.bottom, source_h, height) as u32,
        left: printed(crop.left, source_w, width) as u32,
    }
}

/// Scales the margins of a crop, which are counted against the source as it is
/// shown, onto a print of it.
pub fn scale_crop(crop: CropMargins, source_w: u32, source_h: u32, width: u32, height: u32) -> (r:
    CropMargins)
    ensures
        r == crop_on_print(crop, source_w, source_h, width, height),
{
    CropMargins {
        top: print_margin(crop.top, source_h, height),
        right: print_margin(crop.right, source_w, width),
        bottom: print_margin(crop.bottom, source_h, height),
        left: print_margin(crop.left, source_w, width),
    }
}

/// A print as large as the source is cropped by the source's own margins.
pub proof fn full_prints_keep_the_margins(crop: CropMargins, width: u32, height: u32)
    requires
        width >= 1,
        height >= 1,
    ensures
        crop_on_print(crop, width, height, width, height) == crop,
{
    full_print_keeps_a_margin(crop.top, height);
    full_print_keeps_a_margin(crop.right, width);
    full_print_keeps_a_margin(crop.bottom, height);
    full_print_keeps_a_margin(crop.left, width);
}

proof fn full_print_keeps_a_margin(margin: u32, side: u32)
    requires
        side >= 1,
    ensures
        printed(margin, side, side) == margin,
{
    reveal(scaled);
    assert((2 * margin * side + side) / (2 * side) == margin) by (nonlinear_arith)
        requires
            side >= 1,
    ;
}

/// An edge scaled by the factor that takes `long` to `max`, rounded down but
/// not below one.
pub open spec fn shrunk(edge: int, long: int, max: int) -> int {
    if edge * max / long < 1 {
        1
    } else {
        edge * max / long
    }
}

/// The dimensions of a picture whose long edge is held to `max`: both edges
/// shrink by the same factor, and neither goes below one.
pub open spec fn held_to(width: int, height: int, max: int) -> (int, int) {
    let long = if width < height {
        height
    } else {
        width
    };
    if long <= max {
        (
            if width < 1 {
                1
            } else {
                width
            },
            if height < 1 {
                1
            } else {
                height
            },
        )
    } else {
        (shrunk(width, long, max), shrunk(height, long, max))
    }
}

/// Shrinks an edge.
fn shrink(edge: u32, long: u32, max: u32) -> (r: u32)
    requires
        edge <= long,
        max < long,
    ensures
        r == shrunk(edge as int, long as int, max as int),
{
    assert(edge * max <= 0xffff_ffff * 0xffff_ffff) by (nonlinear_arith)
        requires
            edge <= 0xffff_ffff,
            max <= 0xffff_ffff,
    ;
    let scaled: u64 = edge as u64 * max as u64 / long as u64;
    proof {
        assert(edge * max <= max * long) by (nonlinear_arith)
            requires
                edge <= long,
        ;
        assert(edge * max / (long as int) <= max) by (nonlinear_arith)
            requires
                edge * max <= max * long,
                long > 0,
        ;
    }
    if scaled < 1 {
        1
    } else {
        scaled as u32
    }
}

/// The dimensions that a picture has once its long edge is held to `max`.
pub fn resized_dims(width: u32, height: u32, max: u32) -> (r: (u32, u32))
    ensures
        (r.0 as int, r.1 as int) == held_to(width as int, height as int, max as int),
{
    let long: u32 = if width < height {
        height
    } else {
        width
    };
    if long <= max {
        let w: u32 = if width < 1 {
            1
        } else {
            width
        };
        let h: u32 = if height < 1 {
            1
        } else {
            height
        };
        (w, h)
    } else {
        (shrink(width, long, max), shrink(height, long, max))
    }
}

/// The window of a picture: the samples of `count` places in reading order,
/// each taken from the place that `from` gives.
pub open spec fn gathered<T>(samples: Seq<T>, count: int, from: spec_fn(int) -> int) -> Seq<T> {
    Seq::new(count as nat, |p: int| samples[from(p)])
}

/// The same for pictures of four samples a place.
pub open spec fn gathered4<T>(samples: Seq<T>, count: int, from: spec_fn(int) -> int) -> Seq<T> {
    Seq::new((4 * count) as nat, |i: int| samples[4 * from(i / 4) + i % 4])
}

/// Where the places of a window lie in the picture around it.
pub open spec fn window_place(width: int, left: int, top: int, across: int) -> spec_fn(int) -> int {
    |p: int| (p / across + top) * width + p % across + left
}

/// A place of a window lies in the picture.
proof fn window_place_in_range(
    width: int,
    height: int,
    left: int,
    top: int,
    across: int,
    down: int,
    p: int,
)
    requires
        0 <= left,
        0 <= top,
        0 < across,
        0 <= down,
        left + across <= width,
        top + down <= height,
        0 <= p < across * down,
    ensures
        0 <= p / across < down,
        0 <= p % across < across,
        0 <= (p / across + top) * width,
        window_place(width, left, top, across)(p) < width * height,
        0 <= window_place(width, left, top, across)(p),
{
    place_has_row_and_column(across, down, p);
    place_in_range(width, height, p % across + left, p / across + top);
}

/// A window has no more places than the picture around it.
proof fn window_is_smaller(width: int, height: int, across: int, down: int)
    requires
        0 <= across <= width,
        0 <= down <= height,
    ensures
        0 <= across * down <= width * height,
{
    assert(0 <= across * down <= width * height) by (nonlinear_arith)
        requires
            0 <= across <= width,
            0 <= down <= height,
    ;
}

/// Whether margins on either side of an edge leave something of it.
pub open spec fn leaves(edge: int, before: int, after: int) -> bool {
    before + after < edge
}

/// Cuts the masked borders off a sensor's samples: `crops` has the widths of
/// the top, right, bottom and left border. `None` where nothing is left.
pub fn crop_samples<T: Copy>(samples: &[T], width: usize, height: usize, crops: [usize; 4]) -> (r:
    Option<(Vec<T>, usize, usize)>)
    requires
        samples@.len() == width * height,
    ensures
        r is Some <==> leaves(width as int, crops[3] as int, crops[1] as int) && leaves(
            height as int,
            crops[0] as int,
            crops[2] as int,
        ),
        r matches Some(kept) ==> {
            &&& kept.1 == width - crops[3] - crops[1]
            &&& kept.2 == height - crops[0] - crops[2]
            &&& kept.0@ == gathered(
                samples@,
                kept.1 * kept.2,
                window_place(width as int, crops[3] as int, crops[0] as int, kept.1 as int),
            )
        },
{
    let total: usize = samples.len();
    let top: usize = crops[0];
    let right: usize = crops[1];
    let bottom: usize = crops[2];
    let left: usize = crops[3];
    if left >= width || right >= width - left || top >= height || bottom >= height - top {
        return None;
    }
    let across: usize = width - left - right;
    let down: usize = height - top - bottom;
    proof {
        window_is_smaller(width as int, height as int, across as int, down as int);
    }
    let count: usize = across * down;
    let ghost from = window_place(width as int, left as int, top as int, across as int);
    let mut kept: Vec<T> = Vec::new();
    let mut p: usize = 0;
    while p < count
        invariant
            p <= count,
            count == across * down,
            0 < across,
            left + across <= width,
            top + down <= height,
            samples@.len() == width * height,
            samples@.len() == total,
            from == window_place(width as int, left as int, top as int, across as int),
            kept@ == gathered(samples@, p as int, from),
        decreases count - p,
    {
        proof {
            window_place_in_range(
                width as int,
                height as int,
                left as int,
                top as int,
                across as int,
                down as int,
                p as int,
            );
        }
        let row: usize = (p / across + top) * width;
        kept.push(samples[row + p % across + left]);
        p += 1;
        assert(kept@ =~= gathered(samples@, p as int, from));
    }
    Some((kept, across, down))
}

/// Where the places of the upright picture lie in the sensor's, in reading
/// order.
pub open spec fn upright_place(width: int, height: int, orientation: Orientation) -> spec_fn(
    int,
) -> int {
    |p: int|
        {
            let across = if orientation.swaps() {
                height
            } else {
                width
            };
            let (u, v) = (p % across, p / across);
            let (x, y) = if orientation.swaps() {
                (v, u)
            } else {
                (u, v)
            };
            let column = if orientation.mirrors_columns() {
                width - 1 - x
            } else {
                x
            };
            let row = if orientation.mirrors_rows() {
                height - 1 - y
            } else {
                y
            };
            row * width + column
        }
}

/// A row and a column make a place of the picture.
proof fn place_in_range(width: int, height: int, column: int, row: int)
    requires
        0 <= column < width,
        0 <= row < height,
    ensures
        0 <= row * width,
        row * width + column < width * height,
{
    assert(0 <= row * width && row * width <= (height - 1) * width) by (nonlinear_arith)
        requires
            0 <= row <= height - 1,
            0 <= width,
    ;
    assert((height - 1) * width == width * height - width) by (nonlinear_arith);
}

/// A place of a picture lies in one of its rows and columns.
proof fn place_has_row_and_column(across: int, down: int, p: int)
    requires
        0 <= across,
        0 <= down,
        0 <= p < across * down,
    ensures
        0 < across,
        0 <= p % across < across,
        0 <= p / across < down,
{
    assert(across > 0) by (nonlinear_arith)
        requires
            0 <= p < across * down,
            0 <= across,
    ;
    let u = p % across;
    let v = p / across;
    assert(0 <= v < down && 0 <= u < across) by (nonlinear_arith)
        requires
            0 < across,
            0 <= p < across * down,
            v == p / across,
            u == p % across,
    ;
}

/// Sets a sensor's samples upright, and gives the picture's dimensions.
pub fn upright<T: Copy>(samples: &[T], width: usize, height: usize, orientation: Orientation) -> (r:
    (Vec<T>, usize, usize))
    requires
        samples@.len() == width * height,
    ensures
        r.0@ == gathered(
            samples@,
            width * height,
            upright_place(width as int, height as int, orientation),
        ),
        (r.1, r.2) == (if orientation.swaps() {
            (height, width)
        } else {
            (width, height)
        }),
{
    let total: usize = samples.len();
    let (swaps, mirrors_columns, mirrors_rows) = orientation.flips();
    let (across, down): (usize, usize) = if swaps {
        (height, width)
    } else {
        (width, height)
    };
    let ghost from = upright_place(width as int, height as int, orientation);
    let mut out: Vec<T> = Vec::new();
    let mut p: usize = 0;
    while p < total
        invariant
            p <= total,
            total == samples@.len(),
            total == width * height,
            swaps == orientation.swaps(),
            mirrors_columns == orientation.mirrors_columns(),
            mirrors_rows == orientation.mirrors_rows(),
            (across, down) == (if swaps {
                (height, width)
            } else {
                (width, height)
            }),
            from == upright_place(width as int, height as int, orientation),
            out@ == gathered(samples@, p as int, from),
        decreases total - p,
    {
        proof {
            assert(height * width == width * height) by (nonlinear_arith);
            place_has_row_and_column(across as int, down as int, p as int);
        }
        let u: usize = p % across;
        let v: usize = p / across;
        let (x, y): (usize, usize) = if swaps {
            (v, u)
        } else {
            (u, v)
        };
        let column: usize = if mirrors_columns {
            width - 1 - x
        } else {
            x
        };
        let row: usize = if mirrors_rows {
            height - 1 - y
        } else {
            y
        };
        proof {
            place_in_range(width as int, height as int, column as int, row as int);
        }
        out.push(samples[row * width + column]);
        p += 1;
        assert(out@ =~= gathered(samples@, p as int, from));
    }
    (out, across, down)
}

/// The picture that a crop leaves, with its dimensions. Without margins, or
/// where the margins would leave nothing, it is the picture itself.
pub open spec fn cropped<T>(rgba: Seq<T>, width: int, height: int, crop: CropMargins) -> (
    Seq<T>,
    int,
    int,
) {
    let across = width - crop.left - crop.right;
    let down = height - crop.top - crop.bottom;
    if across <= 0 || down <= 0 {
        (rgba, width, height)
    } else {
        (
            gathered4(
                rgba,
                across * down,
                window_place(width, crop.left as int, crop.top as int, across),
            ),
            across,
            down,
        )
    }
}

/// Appends the four samples of a place.
fn push_place<T: Copy>(out: &mut Vec<T>, rgba: &[T], place: usize)
    requires
        4 * place + 4 <= rgba@.len(),
    ensures
        final(out)@ == old(out)@ + rgba@.subrange(4 * place as int, 4 * place + 4),
{
    let ghost before = out@;
    let total: usize = rgba.len();
    assert(4 * place + 4 <= total);
    out.push(rgba[4 * place]);
    out.push(rgba[4 * place + 1]);
    out.push(rgba[4 * place + 2]);
    out.push(rgba[4 * place + 3]);
    assert(out@ =~= before + rgba@.subrange(4 * place as int, 4 * place + 4));
}

/// One place more.
proof fn gathered_one_more<T>(rgba: Seq<T>, p: int, from: spec_fn(int) -> int)
    requires
        0 <= p,
        0 <= from(p),
        4 * from(p) + 4 <= rgba.len(),
    ensures
        gathered4(rgba, p + 1, from) == gathered4(rgba, p, from) + rgba.subrange(
            4 * from(p),
            4 * from(p) + 4,
        ),
{
    let more = gathered4(rgba, p, from) + rgba.subrange(4 * from(p), 4 * from(p) + 4);
    assert forall|i: int| 0 <= i < 4 * (p + 1) implies gathered4(rgba, p + 1, from)[i]
        == more[i] by {
        if i >= 4 * p {
            assert(i / 4 == p);
            assert(i % 4 == i - 4 * p);
        }
    }
    assert(gathered4(rgba, p + 1, from) =~= more);
}

/// Crops a picture of four samples a place to its margins.
pub fn crop_rgba<T: Copy>(rgba: Vec<T>, width: u32, height: u32, crop: CropMargins) -> (r: (
    Vec<T>,
    u32,
    u32,
))
    requires
        rgba@.len() == 4 * (width * height),
    ensures
        (r.0@, r.1 as int, r.2 as int) == cropped(rgba@, width as int, height as int, crop),
{
    let total: usize = rgba.len();
    let sides: u64 = crop.left as u64 + crop.right as u64;
    let ends: u64 = crop.top as u64 + crop.bottom as u64;
    if sides >= width as u64 || ends >= height as u64 {
        return (rgba, width, height);
    }
    let across: usize = width as usize - sides as usize;
    let down: usize = height as usize - ends as usize;
    proof {
        window_is_smaller(width as int, height as int, across as int, down as int);
    }
    let count: usize = across * down;
    let left: usize = crop.left as usize;
    let top: usize = crop.top as usize;
    let stride: usize = width as usize;
    let ghost from = window_place(width as int, left as int, top as int, across as int);
    let mut out: Vec<T> = Vec::new();
    let mut p: usize = 0;
    assert(out@ =~= gathered4(rgba@, 0, from));
    while p < count
        invariant
            p <= count,
            count == across * down,
            0 < across,
            stride == width,
            left + across <= width,
            top + down <= height,
            rgba@.len() == 4 * (width * height),
            rgba@.len() == total,
            from == window_place(width as int, left as int, top as int, across as int),
            out@ == gathered4(rgba@, p as int, from),
        decreases count - p,
    {
        proof {
            window_place_in_range(
                width as int,
                height as int,
                left as int,
                top as int,
                across as int,
                down as int,
                p as int,
            );
            gathered_one_more(rgba@, p as int, from);
        }
        let row: usize = (p / across + top) * stride;
        push_place(&mut out, rgba.as_slice(), row + p % across + left);
        p += 1;
    }
    (out, across as u32, down as u32)
}

/// The dimensions of a picture after some quarter turns.
pub open spec fn turned_dims(width: int, height: int, quarters: int) -> (int, int) {
    if quarters % 2 == 0 {
        (width, height)
    } else {
        (height, width)
    }
}

/// Where a place of the turned picture was before: its column and row, for
/// quarter turns against the clock.
pub open spec fn unturned(width: int, height: int, quarters: int, x: int, y: int) -> (int, int) {
    if quarters % 4 == 0 {
        (x, y)
    } else if quarters % 4 == 1 {
        (width - 1 - y, x)
    } else if quarters % 4 == 2 {
        (width - 1 - x, height - 1 - y)
    } else {
        (y, height - 1 - x)
    }
}

/// Where the places of a turned picture lay before, in reading order.
pub open spec fn turned_place(width: int, height: int, quarters: int) -> spec_fn(int) -> int {
    |p: int|
        {
            let across = turned_dims(width, height, quarters).0;
            let (x, y) = unturned(width, height, quarters, p % across, p / across);
            y * width + x
        }
}

/// The picture turned by quarters against the clock, with its dimensions.
pub open spec fn turned<T>(rgba: Seq<T>, width: int, height: int, quarters: int) -> (
    Seq<T>,
    int,
    int,
) {
    (
        gathered4(rgba, width * height, turned_place(width, height, quarters)),
        turned_dims(width, height, quarters).0,
        turned_dims(width, height, quarters).1,
    )
}

/// A place of a turned picture lay in the picture.
proof fn turned_place_in_range(width: int, height: int, quarters: int, p: int)
    requires
        0 <= p < width * height,
        0 <= width,
        0 <= height,
    ensures
        ({
            let (across, down) = turned_dims(width, height, quarters);
            let (x, y) = unturned(width, height, quarters, p % across, p / across);
            &&& 0 < across
            &&& 0 <= p % across < across
            &&& 0 <= p / across < down
            &&& 0 <= x < width
            &&& 0 <= y < height
            &&& 0 <= y * width
            &&& y * width + x < width * height
            &&& turned_place(width, height, quarters)(p) == y * width + x
        }),
{
    let (across, down) = turned_dims(width, height, quarters);
    assert(across * down == width * height) by (nonlinear_arith)
        requires
            (across == width && down == height) || (across == height && down == width),
    ;
    place_has_row_and_column(across, down, p);
    let (x, y) = unturned(width, height, quarters, p % across, p / across);
    place_in_range(width, height, x, y);
}

/// Turns a picture of four samples a place by quarters against the clock.
pub fn rotate_quarters<T: Copy>(rgba: Vec<T>, width: u32, height: u32, quarters: u8) -> (r: (
    Vec<T>,
    u32,
    u32,
))
    requires
        rgba@.len() == 4 * (width * height),
    ensures
        (r.0@, r.1 as int, r.2 as int) == turned(
            rgba@,
            width as int,
            height as int,
            quarters as int,
        ),
{
    let total: usize = rgba.len();
    let turns: u8 = quarters % 4;
    let w: usize = width as usize;
    let h: usize = height as usize;
    let count: usize = w * h;
    let across: usize = if quarters % 2 == 0 {
        w
    } else {
        h
    };
    let ghost from = turned_place(width as int, height as int, quarters as int);
    let mut out: Vec<T> = Vec::new();
    let mut p: usize = 0;
    assert(out@ =~= gathered4(rgba@, 0, from));
    while p < count
        invariant
            p <= count,
            count == w * h,
            w == width,
            h == height,
            turns == quarters % 4,
            across == turned_dims(width as int, height as int, quarters as int).0,
            rgba@.len() == 4 * (width * height),
            rgba@.len() == total,
            from == turned_place(width as int, height as int, quarters as int),
            out@ == gathered4(rgba@, p as int, from),
        decreases count - p,
    {
        proof {
            turned_place_in_range(width as int, height as int, quarters as int, p as int);
            gathered_one_more(rgba@, p as int, from);
        }
        let u: usize = p % across;
        let v: usize = p / across;
        let (x, y): (usize, usize) = if turns == 0 {
            (u, v)
        } else if turns == 1 {
            (w - 1 - v, u)
        } else if turns == 2 {
            (w - 1 - u, h - 1 - v)
        } else {
            (v, h - 1 - u)
        };
        push_place(&mut out, rgba.as_slice(), y * w + x);
        p += 1;
    }
    let dims: (u32, u32) = if quarters % 2 == 0 {
        (width, height)
    } else {
        (height, width)
    };
    (out, dims.0, dims.1)
}

/// The picture cropped and then turned, with its dimensions.
pub open spec fn baked<T>(
    rgba: Seq<T>,
    width: int,
    height: int,
    crop: CropMargins,
    quarters: int,
) -> (Seq<T>, int, int) {
    let kept = cropped(rgba, width, height, crop);
    turned(kept.0, kept.1, kept.2, quarters)
}

/// Crops a picture of four samples a place to its margins, then turns what is
/// left by quarters against the clock.
pub fn bake_geometry<T: Copy>(
    rgba: Vec<T>,
    width: u32,
    height: u32,
    crop: CropMargins,
    quarters: u8,
) -> (r: (Vec<T>, u32, u32))
    requires
        rgba@.len() == 4 * (width * height),
    ensures
        (r.0@, r.1 as int, r.2 as int) == baked(
            rgba@,
            width as int,
            height as int,
            crop,
            quarters as int,
        ),
        r.0@.len() == 4 * (r.1 * r.2),
{
    let ghost before = rgba@;
    let (kept, across, down) = crop_rgba(rgba, width, height, crop);
    proof {
        assert(kept@.len() == 4 * (across * down)) by {
            if across != width || down != height {
                assert(0 <= across * down) by (nonlinear_arith);
            }
        }
        assert(across * down == down * across) by (nonlinear_arith);
    }
    rotate_quarters(kept, across, down, quarters)
}

/// A column and a row are found again in the place that they make.
proof fn place_splits(across: int, x: int, y: int)
    requires
        0 <= x < across,
        0 <= y,
    ensures
        (y * across + x) / across == y,
        (y * across + x) % across == x,
{
    vstd::arithmetic::div_mod::lemma_fundamental_div_mod_converse(y * across + x, across, y, x);
}

/// Going back through two turns is going back through one by both amounts.
proof fn unturned_adds_up(width: int, height: int, a: int, b: int, x: int, y: int)
    requires
        0 <= a,
        0 <= b,
    ensures
        ({
            let (w, h) = turned_dims(width, height, a);
            let (u, v) = unturned(w, h, b, x, y);
            &&& unturned(width, height, a, u, v) == unturned(width, height, a + b, x, y)
            &&& turned_dims(w, h, b) == turned_dims(width, height, a + b)
        }),
{
}

/// The place of a picture turned twice is that of the picture turned once by
/// both amounts.
proof fn turned_places_add_up(width: int, height: int, a: int, b: int, p: int)
    requires
        0 <= width,
        0 <= height,
        0 <= a,
        0 <= b,
        0 <= p < width * height,
    ensures
        ({
            let (w, h) = turned_dims(width, height, a);
            let q = turned_place(w, h, b)(p);
            &&& 0 <= q < width * height
            &&& turned_place(width, height, a)(q) == turned_place(width, height, a + b)(p)
        }),
{
    let (w, h) = turned_dims(width, height, a);
    assert(w * h == width * height) by (nonlinear_arith)
        requires
            (w == width && h == height) || (w == height && h == width),
    ;
    turned_place_in_range(w, h, b, p);
    let q = turned_place(w, h, b)(p);
    let across = turned_dims(w, h, b).0;
    let (x, y) = unturned(w, h, b, p % across, p / across);
    place_splits(w, x, y);
    turned_place_in_range(width, height, a, q);
    turned_place_in_range(width, height, a + b, p);
    unturned_adds_up(width, height, a, b, p % across, p / across);
}

/// Turning twice is turning once by both amounts.
pub proof fn turns_add_up<T>(rgba: Seq<T>, width: int, height: int, a: int, b: int)
    requires
        0 <= width,
        0 <= height,
        0 <= a,
        0 <= b,
        rgba.len() == 4 * (width * height),
    ensures
        ({
            let first = turned(rgba, width, height, a);
            turned(first.0, first.1, first.2, b) == turned(rgba, width, height, a + b)
        }),
{
    let first = turned(rgba, width, height, a);
    let (w, h) = turned_dims(width, height, a);
    let there = turned_place(width, height, a);
    let back = turned_place(w, h, b);
    let whole = turned_place(width, height, a + b);
    let count = width * height;
    assert(w * h == count) by (nonlinear_arith)
        requires
            (w == width && h == height) || (w == height && h == width),
            count == width * height,
    ;
    assert(0 <= count) by (nonlinear_arith)
        requires
            0 <= width,
            0 <= height,
            count == width * height,
    ;
    unturned_adds_up(width, height, a, b, 0, 0);
    let twice = gathered4(gathered4(rgba, count, there), count, back);
    let once = gathered4(rgba, count, whole);
    assert forall|i: int| 0 <= i < 4 * count implies twice[i] == once[i] by {
        turned_places_add_up(width, height, a, b, i / 4);
        let k = 4 * back(i / 4) + i % 4;
        assert(k / 4 == back(i / 4) && k % 4 == i % 4);
        assert(twice[i] == gathered4(rgba, count, there)[k]);
    }
    assert(twice =~= once);
}

/// Four quarter turns give the picture back.
pub proof fn a_full_turn_is_none<T>(rgba: Seq<T>, width: int, height: int)
    requires
        0 <= width,
        0 <= height,
        rgba.len() == 4 * (width * height),
    ensures
        turned(rgba, width, height, 4) == (rgba, width, height),
{
    assert(0 <= width * height) by (nonlinear_arith)
        requires
            0 <= width,
            0 <= height,
    ;
    let same = turned(rgba, width, height, 4).0;
    assert forall|i: int| 0 <= i < rgba.len() implies same[i] == rgba[i] by {
        let p = i / 4;
        turned_place_in_range(width, height, 4, p);
        vstd::arithmetic::div_mod::lemma_fundamental_div_mod(p, width);
        assert(width * (p / width) == (p / width) * width) by (nonlinear_arith);
    }
    assert(same =~= rgba);
}

/// A crop without margins is none.
pub proof fn no_margins_no_crop<T>(rgba: Seq<T>, width: int, height: int, crop: CropMargins)
    requires
        0 <= width,
        0 <= height,
        rgba.len() == 4 * (width * height),
        crop.top == 0 && crop.right == 0 && crop.bottom == 0 && crop.left == 0,
    ensures
        cropped(rgba, width, height, crop) == (rgba, width, height),
{
    if 0 < width && 0 < height {
        let same = cropped(rgba, width, height, crop).0;
        assert(0 <= width * height) by (nonlinear_arith)
            requires
                0 <= width,
                0 <= height,
        ;
        assert forall|i: int| 0 <= i < rgba.len() implies same[i] == rgba[i] by {
            let p = i / 4;
            vstd::arithmetic::div_mod::lemma_fundamental_div_mod(p, width);
            assert(width * (p / width) == (p / width) * width) by (nonlinear_arith);
        }
        assert(same =~= rgba);
    }
}

/// Scaling down keeps within the bound and leaves a picture.
pub proof fn resized_fits(width: int, height: int, max: int)
    requires
        0 <= width,
        0 <= height,
        1 <= max,
    ensures
        1 <= held_to(width, height, max).0 <= max,
        1 <= held_to(width, height, max).1 <= max,
        width >= 1 && height >= 1 && width <= max && height <= max ==> held_to(width, height, max)
            == (width, height),
{
    let long = if width < height {
        height
    } else {
        width
    };
    if long > max {
        assert(width * max / long <= max) by (nonlinear_arith)
            requires
                0 <= width <= long,
                1 <= max < long,
        ;
        assert(height * max / long <= max) by (nonlinear_arith)
            requires
                0 <= height <= long,
                1 <= max < long,
        ;
    }
}

} // verus!
