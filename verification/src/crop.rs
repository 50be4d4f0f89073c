//! Moving and resizing the crop window of a frame.

use vstd::prelude::*;
use crate::edit_manifest;
use crate::edit_manifest::{CropDirection, CropMargins};
use crate::library::MoveDir;

verus! {

/// The least long edge a crop window is shrunk to.
pub const MIN_CROP_WINDOW: u32 = 4;

/// A number held between zero and `high`.
pub open spec fn held(x: int, high: int) -> int {
    if x < 0 {
        0
    } else if x > high {
        high
    } else {
        x
    }
}

/// The width of the window that the margins leave of a frame.
pub open spec fn window_width(crop: CropMargins, width: int) -> int {
    edit_manifest::remaining(width, crop.left as int, crop.right as int)
}

/// The height of the window that the margins leave of a frame.
pub open spec fn window_height(crop: CropMargins, height: int) -> int {
    edit_manifest::remaining(height, crop.top as int, crop.bottom as int)
}

/// Whether the margins leave a window that lies inside the frame.
pub open spec fn window_inside(crop: CropMargins, width: int, height: int) -> bool {
    crop.left + crop.right <= width && crop.top + crop.bottom <= height
}

/// The margins of a window of the given size with its corner at `left`, `top`.
pub open spec fn margins_around(
    left: int,
    top: int,
    window: (int, int),
    frame: (int, int),
) -> CropMargins {
    CropMargins {
        top: top as u32,
        right: edit_manifest::remaining(frame.0, left, window.0) as u32,
        bottom: edit_manifest::remaining(frame.1, top, window.1) as u32,
        left: left as u32,
    }
}

/// The window moved by a number of pixels and held inside the frame, its size
/// unchanged.
pub open spec fn moved(
    crop: CropMargins,
    direction: CropDirection,
    delta: int,
    width: int,
    height: int,
) -> CropMargins {
    let w = window_width(crop, width);
    let h = window_height(crop, height);
    let left = match direction {
        CropDirection::Left => held(crop.left - delta, width - w),
        CropDirection::Right => held(crop.left + delta, width - w),
        _ => crop.left as int,
    };
    let top = match direction {
        CropDirection::Top => held(crop.top - delta, height - h),
        CropDirection::Bottom => held(crop.top + delta, height - h),
        _ => crop.top as int,
    };
    margins_around(left, top, (w, h), (width, height))
}

/// The margins of a window of the given size with its corner at `left`, `top`.
fn margins_of(left: u32, top: u32, window: (u32, u32), frame: (u32, u32)) -> (r: CropMargins)
    ensures
        r == margins_around(
            left as int,
            top as int,
            (window.0 as int, window.1 as int),
            (frame.0 as int, frame.1 as int),
        ),
{
    CropMargins {
        top,
        right: frame.0.saturating_sub(left).saturating_sub(window.0),
        bottom: frame.1.saturating_sub(top).saturating_sub(window.1),
        left,
    }
}

/// Holds the window origin coordinate after a `delta` move (`grow`: the
/// coordinate increases) within `0..=max_origin`.
pub fn clamp_window_origin(origin: u32, delta: i32, grow: bool, max_origin: u32) -> (r: u32)
    ensures
        r == held(
            if grow {
                origin + delta
            } else {
                origin - delta
            },
            max_origin as int,
        ),
{
    let moved: i64 = if grow {
        origin as i64 + delta as i64
    } else {
        origin as i64 - delta as i64
    };
    if moved < 0 {
        0
    } else if moved > max_origin as i64 {
        max_origin
    } else {
        moved as u32
    }
}

/// Translates the crop window by `delta_px` in `direction`, keeping the window
/// size untouched. The window stays held inside the source frame.
pub fn move_crop_box(
    crop: CropMargins,
    direction: CropDirection,
    delta_px: i32,
    width: u32,
    height: u32,
) -> (r: CropMargins)
    ensures
        r == moved(crop, direction, delta_px as int, width as int, height as int),
{
    let cw: u32 = crop.cropped_width(width);
    let ch: u32 = crop.cropped_height(height);
    let (left, top): (u32, u32) = match direction {
        CropDirection::Left => (
            clamp_window_origin(crop.left, delta_px, false, width - cw),
            crop.top,
        ),
        CropDirection::Right => (
            clamp_window_origin(crop.left, delta_px, true, width - cw),
            crop.top,
        ),
        CropDirection::Top => (
            crop.left,
            clamp_window_origin(crop.top, delta_px, false, height - ch),
        ),
        CropDirection::Bottom => (
            crop.left,
            clamp_window_origin(crop.top, delta_px, true, height - ch),
        ),
    };
    margins_of(left, top, (cw, ch), (width, height))
}

/// The place of a screen direction in the cycle left, up, right, down.
pub open spec fn screen_turn(dir: MoveDir) -> int {
    match dir {
        MoveDir::Left => 0,
        MoveDir::Up => 1,
        MoveDir::Right => 2,
        MoveDir::Down => 3,
    }
}

/// The edge of the source frame at a place in that cycle.
pub open spec fn edge_at(turn: int) -> CropDirection {
    if turn == 0 {
        CropDirection::Left
    } else if turn == 1 {
        CropDirection::Top
    } else if turn == 2 {
        CropDirection::Right
    } else {
        CropDirection::Bottom
    }
}

/// Maps a screen-space crop move to the direction in the upright source frame
/// that produces the same visual movement, given the display's
/// counter-clockwise quarter-turns.
pub fn crop_move_direction(dir: MoveDir, rotation: u8) -> (r: CropDirection)
    ensures
        r == edge_at((screen_turn(dir) + rotation) % 4),
{
    let screen: u32 = match dir {
        MoveDir::Left => 0,
        MoveDir::Up => 1,
        MoveDir::Right => 2,
        MoveDir::Down => 3,
    };
    let turn: u32 = (screen + (rotation % 4) as u32) % 4;
    if turn == 0 {
        CropDirection::Left
    } else if turn == 1 {
        CropDirection::Top
    } else if turn == 2 {
        CropDirection::Right
    } else {
        CropDirection::Bottom
    }
}

/// The larger of two numbers.
pub open spec fn larger(a: int, b: int) -> int {
    if a >= b {
        a
    } else {
        b
    }
}

/// The smaller of two numbers.
pub open spec fn smaller(a: int, b: int) -> int {
    if a <= b {
        a
    } else {
        b
    }
}

/// A side scaled in the proportion `to : from`, rounded to the nearest pixel
/// (halves up).
#[verifier::opaque]
pub open spec fn scaled(side: int, to: int, from: int) -> int {
    (2 * side * to + from) / (2 * from)
}

/// How long the long edge can get before a side that grows with it in
/// proportion exceeds the frame.
#[verifier::opaque]
pub open spec fn room(side: int, long: int, frame: int) -> int {
    long * frame / side
}

/// The long edge of a window of the given sides that is resized by `delta`: at
/// least [`MIN_CROP_WINDOW`], but never more than both sides of the frame have
/// room for.
pub open spec fn resized_long_edge(
    sides: (int, int),
    delta: int,
    frame: (int, int),
) -> int {
    let long = larger(sides.0, sides.1);
    smaller(
        larger(long + delta, MIN_CROP_WINDOW as int),
        smaller(room(sides.0, long, frame.0), room(sides.1, long, frame.1)),
    )
}

/// Where a side begins after it is resized about its center, held inside the
/// frame.
pub open spec fn recentered(start: int, side: int, resized: int, frame: int) -> int {
    held((2 * start + side - resized + 1) / 2, frame - resized)
}

/// The window resized about its center by a number of pixels of its long edge,
/// both sides in the same proportion, held inside the frame.
pub open spec fn resized(crop: CropMargins, delta: int, width: int, height: int) -> CropMargins {
    let w = larger(window_width(crop, width), 1);
    let h = larger(window_height(crop, height), 1);
    let long = larger(w, h);
    let to = resized_long_edge((w, h), delta, (width, height));
    let nw = larger(scaled(w, to, long), 1);
    let nh = larger(scaled(h, to, long), 1);
    margins_around(
        recentered(crop.left as int, w, nw, width),
        recentered(crop.top as int, h, nh, height),
        (nw, nh),
        (width, height),
    )
}

/// A side scaled to its share of a long edge that has room fits the frame.
proof fn scaled_fits(side: int, to: int, from: int, frame: int)
    requires
        1 <= side <= frame,
        from > 0,
        to <= room(side, from, frame),
    ensures
        scaled(side, to, from) <= frame,
{
    reveal(scaled);
    reveal(room);
    assert(side * to <= from * frame) by (nonlinear_arith)
        requires
            side > 0,
            to <= from * frame / side,
    ;
    assert((2 * side * to + from) / (2 * from) <= frame) by (nonlinear_arith)
        requires
            from > 0,
            side * to <= from * frame,
    ;
}

/// A window that lies in the frame has room for its long edge.
proof fn room_for_itself(side: int, long: int, frame: int)
    requires
        1 <= side <= frame,
        side <= long,
    ensures
        long <= room(side, long, frame),
        side == long ==> room(side, long, frame) == frame,
{
    reveal(room);
    assert(long <= long * frame / side) by (nonlinear_arith)
        requires
            1 <= side <= frame,
            long >= 0,
    ;
    assert(side == long ==> long * frame / side == frame) by (nonlinear_arith)
        requires
            side > 0,
    ;
}

/// The room that a side leaves for the long edge, if that is asked to be at
/// most `want`.
fn room_up_to(want: u64, side: u32, long: u32, frame: u32) -> (r: u64)
    requires
        side > 0,
    ensures
        r == smaller(want as int, room(side as int, long as int, frame as int)),
{
    proof {
        reveal(room);
    }
    let l: u64 = long as u64;
    let f: u64 = frame as u64;
    assert(l * f <= 0xffff_ffff * 0xffff_ffff) by (nonlinear_arith)
        requires
            l <= 0xffff_ffff,
            f <= 0xffff_ffff,
    ;
    let most: u64 = l * f / (side as u64);
    if want < most {
        want
    } else {
        most
    }
}

/// Scales a side that fits the frame, to one pixel at least.
fn scale_side(side: u32, to: u32, from: u32, frame: u32) -> (r: u32)
    requires
        1 <= side <= frame,
        from > 0,
        to <= room(side as int, from as int, frame as int),
    ensures
        r == larger(scaled(side as int, to as int, from as int), 1),
        r <= frame,
{
    proof {
        scaled_fits(side as int, to as int, from as int, frame as int);
        reveal(scaled);
    }
    let s: u128 = side as u128;
    let t: u128 = to as u128;
    let f: u128 = from as u128;
    assert(s * t <= 0xffff_ffff * 0xffff_ffff) by (nonlinear_arith)
        requires
            s <= 0xffff_ffff,
            t <= 0xffff_ffff,
    ;
    let product: u128 = s * t;
    let n: u128 = (2 * product + f) / (2 * f);
    assert(2 * side * to == 2 * (side * to)) by (nonlinear_arith);
    if n < 1 {
        1
    } else {
        n as u32
    }
}

/// Where a resized side begins.
fn recenter(start: u32, side: u32, resized: u32, frame: u32) -> (r: u32)
    requires
        resized <= frame,
    ensures
        r == recentered(start as int, side as int, resized as int, frame as int),
{
    let twice: i64 = 2 * (start as i64) + side as i64 - resized as i64 + 1;
    let high: i64 = frame as i64 - resized as i64;
    if twice < 0 {
        return 0;
    }
    let origin: i64 = twice / 2;
    if origin > high {
        high as u32
    } else {
        origin as u32
    }
}

/// Resizes the crop window about its center by `delta_px`: the long edge
/// changes by `delta_px` and both sides keep their proportion. The long edge
/// stays at [`MIN_CROP_WINDOW`] or more, as far as the frame has room, and the
/// window never exceeds the frame: it stops growing where its first side is as
/// long as the frame's.
pub fn resize_crop_box(crop: CropMargins, delta_px: i32, width: u32, height: u32) -> (r:
    CropMargins)
    requires
        width >= 1,
        height >= 1,
        width >= MIN_CROP_WINDOW || height >= MIN_CROP_WINDOW,
    ensures
        r == resized(crop, delta_px as int, width as int, height as int),
{
    let cw0: u32 = crop.cropped_width(width);
    let ch0: u32 = crop.cropped_height(height);
    let cw: u32 = if cw0 < 1 {
        1
    } else {
        cw0
    };
    let ch: u32 = if ch0 < 1 {
        1
    } else {
        ch0
    };
    let long: u32 = if cw >= ch {
        cw
    } else {
        ch
    };
    let asked: i64 = long as i64 + delta_px as i64;
    let want: u64 = if asked < MIN_CROP_WINDOW as i64 {
        MIN_CROP_WINDOW as u64
    } else {
        asked as u64
    };
    assert(cw == larger(window_width(crop, width as int), 1));
    assert(ch == larger(window_height(crop, height as int), 1));
    assert(long == larger(cw as int, ch as int));
    proof {
        room_for_itself(cw as int, long as int, width as int);
        room_for_itself(ch as int, long as int, height as int);
    }
    let to: u32 = room_up_to(room_up_to(want, cw, long, width), ch, long, height) as u32;
    assert(to == resized_long_edge(
        (cw as int, ch as int),
        delta_px as int,
        (width as int, height as int),
    ));
    let nw: u32 = scale_side(cw, to, long, width);
    let nh: u32 = scale_side(ch, to, long, height);
    let left: u32 = recenter(crop.left, cw, nw, width);
    let top: u32 = recenter(crop.top, ch, nh, height);
    margins_of(left, top, (nw, nh), (width, height))
}

/// A move never changes the size of a window that lies inside the frame, and
/// leaves it inside.
pub proof fn move_keeps_size_and_frame(
    crop: CropMargins,
    direction: CropDirection,
    delta: int,
    width: u32,
    height: u32,
)
    requires
        window_inside(crop, width as int, height as int),
    ensures
        ({
            let r = moved(crop, direction, delta, width as int, height as int);
            &&& window_inside(r, width as int, height as int)
            &&& window_width(r, width as int) == window_width(crop, width as int)
            &&& window_height(r, height as int) == window_height(crop, height as int)
        }),
{
}

/// The direction back from a direction.
pub open spec fn opposite(direction: CropDirection) -> CropDirection {
    match direction {
        CropDirection::Left => CropDirection::Right,
        CropDirection::Right => CropDirection::Left,
        CropDirection::Top => CropDirection::Bottom,
        CropDirection::Bottom => CropDirection::Top,
    }
}

/// Whether there is room to move a window by `delta` without meeting the edge.
pub open spec fn has_room(
    crop: CropMargins,
    direction: CropDirection,
    delta: int,
    width: int,
    height: int,
) -> bool {
    match direction {
        CropDirection::Left => delta <= crop.left,
        CropDirection::Right => delta <= crop.right,
        CropDirection::Top => delta <= crop.top,
        CropDirection::Bottom => delta <= crop.bottom,
    }
}

/// Where there is room, moving a window and moving it back restores its
/// margins exactly.
pub proof fn moving_back_restores(
    crop: CropMargins,
    direction: CropDirection,
    delta: int,
    width: u32,
    height: u32,
)
    requires
        window_inside(crop, width as int, height as int),
        delta >= 0,
        has_room(crop, direction, delta, width as int, height as int),
    ensures
        moved(
            moved(crop, direction, delta, width as int, height as int),
            opposite(direction),
            delta,
            width as int,
            height as int,
        ) == crop,
{
}

/// A resized window lies inside the frame and never collapses, and its sides
/// are within half a pixel of the proportion that they had, save that neither
/// gets shorter than a single pixel.
pub proof fn resize_stays_inside_and_in_proportion(
    crop: CropMargins,
    delta: int,
    width: u32,
    height: u32,
)
    requires
        width >= 1,
        height >= 1,
    ensures
        ({
            let r = resized(crop, delta, width as int, height as int);
            let w = larger(window_width(crop, width as int), 1);
            let h = larger(window_height(crop, height as int), 1);
            let long = larger(w, h);
            let to = resized_long_edge((w, h), delta, (width as int, height as int));
            let nw = window_width(r, width as int);
            let nh = window_height(r, height as int);
            &&& window_inside(r, width as int, height as int)
            &&& 1 <= nw <= width && 1 <= nh <= height
            &&& larger(nw, nh) == to
            &&& -long <= 2 * (nw * long - w * to)
            &&& nw == 1 || 2 * (nw * long - w * to) <= long
            &&& -long <= 2 * (nh * long - h * to)
            &&& nh == 1 || 2 * (nh * long - h * to) <= long
        }),
{
    let w = larger(window_width(crop, width as int), 1);
    let h = larger(window_height(crop, height as int), 1);
    let long = larger(w, h);
    let to = resized_long_edge((w, h), delta, (width as int, height as int));
    resized_long_edge_in_range(w, h, delta, width as int, height as int);
    scaled_is_nearest(w, to, long);
    scaled_is_nearest(h, to, long);
    scaled_fits(w, to, long, width as int);
    scaled_fits(h, to, long, height as int);
    scaled_keeps_order(w, to, long);
    scaled_keeps_order(h, to, long);
    if scaled(w, to, long) < 1 {
        single_pixel_is_no_less(w, to, long);
    }
    if scaled(h, to, long) < 1 {
        single_pixel_is_no_less(h, to, long);
    }
}

/// A side that would vanish is less than a single pixel.
proof fn single_pixel_is_no_less(side: int, to: int, from: int)
    requires
        from > 0,
        scaled(side, to, from) < 1,
    ensures
        side * to <= from,
{
    reveal(scaled);
    assert(side * to <= from) by (nonlinear_arith)
        requires
            from > 0,
            (2 * side * to + from) / (2 * from) < 1,
    ;
}

/// The long edge scales to exactly what is asked, and no side to more.
proof fn scaled_keeps_order(side: int, to: int, from: int)
    requires
        0 <= side <= from,
        from > 0,
        to >= 0,
    ensures
        scaled(side, to, from) <= to,
        side == from ==> scaled(side, to, from) == to,
{
    reveal(scaled);
    assert((2 * side * to + from) / (2 * from) <= to) by (nonlinear_arith)
        requires
            0 <= side <= from,
            from > 0,
            to >= 0,
    ;
    assert(side == from ==> (2 * side * to + from) / (2 * from) == to) by (nonlinear_arith)
        requires
            from > 0,
            to >= 0,
    ;
}

/// The long edge of a resized window is a pixel at least, and no longer than
/// what both sides have room for.
proof fn resized_long_edge_in_range(w: int, h: int, delta: int, width: int, height: int)
    requires
        1 <= w <= width,
        1 <= h <= height,
    ensures
        ({
            let long = larger(w, h);
            let to = resized_long_edge((w, h), delta, (width, height));
            &&& 1 <= to <= larger(width, height)
            &&& to <= room(w, long, width)
            &&& to <= room(h, long, height)
            &&& long <= room(w, long, width)
            &&& long <= room(h, long, height)
        }),
{
    let long = larger(w, h);
    room_for_itself(w, long, width);
    room_for_itself(h, long, height);
}

/// A scaled side is within half a pixel of the exact proportion.
proof fn scaled_is_nearest(side: int, to: int, from: int)
    requires
        from > 0,
        side >= 0,
        to >= 0,
    ensures
        -from <= 2 * (scaled(side, to, from) * from - side * to) <= from,
        scaled(side, to, from) >= 0,
{
    reveal(scaled);
    let n = 2 * side * to + from;
    let d = 2 * from;
    let q = n / d;
    assert(2 * side * to == 2 * (side * to)) by (nonlinear_arith);
    assert(n == d * q + n % d && 0 <= n % d < d) by (nonlinear_arith)
        requires
            d > 0,
            q == n / d,
    ;
    assert(d * q == 2 * (q * from)) by (nonlinear_arith)
        requires
            d == 2 * from,
    ;
    assert(side * to >= 0) by (nonlinear_arith)
        requires
            side >= 0,
            to >= 0,
    ;
    assert(q >= 0) by (nonlinear_arith)
        requires
            n >= 0,
            d > 0,
            q == n / d,
    ;
}

/// Where the frame has room for both sides, the long edge changes by exactly
/// what is asked; a window with a side as long as the frame's does not grow.
pub proof fn long_edge_changes_by_delta(crop: CropMargins, delta: int, width: u32, height: u32)
    requires
        width >= 1,
        height >= 1,
    ensures
        ({
            let r = resized(crop, delta, width as int, height as int);
            let w = larger(window_width(crop, width as int), 1);
            let h = larger(window_height(crop, height as int), 1);
            let long = larger(w, h);
            let edge = larger(window_width(r, width as int), window_height(r, height as int));
            &&& long + delta >= MIN_CROP_WINDOW && (long + delta) * w <= long * width && (long
                + delta) * h <= long * height ==> edge == long + delta
            &&& edge * w <= long * width && edge * h <= long * height
            &&& delta >= 0 && long >= MIN_CROP_WINDOW && (w == width || h == height) ==> edge
                == long
            &&& edge >= smaller(long, MIN_CROP_WINDOW as int)
        }),
{
    let w = larger(window_width(crop, width as int), 1);
    let h = larger(window_height(crop, height as int), 1);
    let long = larger(w, h);
    let to = resized_long_edge((w, h), delta, (width as int, height as int));
    resize_stays_inside_and_in_proportion(crop, delta, width, height);
    resized_long_edge_in_range(w, h, delta, width as int, height as int);
    room_is_exact(w, long, width as int, to);
    room_is_exact(h, long, height as int, to);
    room_is_exact(w, long, width as int, long + delta);
    room_is_exact(h, long, height as int, long + delta);
}

/// The room of a side is the most that its proportion allows.
proof fn room_is_exact(side: int, long: int, frame: int, to: int)
    requires
        1 <= side <= frame,
        side <= long,
    ensures
        to <= room(side, long, frame) <==> to * side <= long * frame,
        side == frame ==> room(side, long, frame) == long,
{
    reveal(room);
    assert(to <= long * frame / side <==> to * side <= long * frame) by (nonlinear_arith)
        requires
            side > 0,
    ;
    assert(side == frame ==> long * frame / side == long) by (nonlinear_arith)
        requires
            side > 0,
    ;
}

/// Four quarter-turns of the display bring every move back to where it was,
/// and a turned move and its reverse stay opposite.
pub proof fn turned_moves_stay_consistent(dir: MoveDir, rotation: int)
    requires
        rotation >= 0,
    ensures
        edge_at((screen_turn(dir) + rotation + 4) % 4) == edge_at(
            (screen_turn(dir) + rotation) % 4,
        ),
        edge_at((screen_turn(dir) + 2 + rotation) % 4) == opposite(
            edge_at((screen_turn(dir) + rotation) % 4),
        ),
{
}

} // verus!
