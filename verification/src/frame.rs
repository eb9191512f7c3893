//! Pixel work of the camera and display services: copying camera frames into
//! shared memory, painting shared frames into the display texture, scaling
//! them down for the face detector, and outlining detected faces.
use vstd::prelude::*;

verus! {

/// Width of a display frame, in pixels.
pub const FRAME_WIDTH: usize = 1280;

/// Pixels of a display frame.
pub const FRAME_PIXELS: usize = 921600;

/// Side of the square handed to the face detector: half the shared side.
pub const SMALL_SIDE: usize = 256;

/// Pixels of the square handed to the face detector.
pub const SMALL_PIXELS: usize = 65536;

/// Side of the square that the camera copies into shared memory.
pub const CAPTURE_SIDE: usize = 512;

/// Pixels of the square that the camera copies into shared memory.
pub const CAPTURE_PIXELS: usize = 262144;

/// The colour faces are outlined in.
pub const OUTLINE_COLOUR: u32 = 0xff00ff00;

/// Position of the pixel at `(row, col)` in a row-major image `width` wide.
pub open spec fn at(row: int, col: int, width: int) -> int {
    row * width + col
}

/// `r` is `p` with its lowest and third byte exchanged: the red and blue
/// channels trade places, green and alpha stay.
pub open spec fn channels_swapped(p: u32, r: u32) -> bool {
    &&& r & 0xff == (p >> 16) & 0xff
    &&& (r >> 8) & 0xff == (p >> 8) & 0xff
    &&& (r >> 16) & 0xff == p & 0xff
    &&& r >> 24 == p >> 24
}

/// Reorders the channels of a camera pixel for the display: the bytes are
/// reversed and then rotated right by one byte, which exchanges the red and
/// blue channels.
pub fn swap_red_blue(p: u32) -> (r: u32)
    ensures
        channels_swapped(p, r),
{
    let r = (p & 0xff00ff00) | ((p & 0xff) << 16) | ((p >> 16) & 0xff);
    assert(channels_swapped(p, r)) by (bit_vector)
        requires
            r == (p & 0xff00ff00) | ((p & 0xff) << 16) | ((p >> 16) & 0xff),
    ;
    r
}

/// Exchanging the red and blue channels twice gives the pixel back.
pub proof fn law_swap_red_blue_twice(p: u32, q: u32, r: u32)
    requires
        channels_swapped(p, q),
        channels_swapped(q, r),
    ensures
        r == p,
{
    assert(r == p) by (bit_vector)
        requires
            q & 0xff == (p >> 16) & 0xff,
            (q >> 8) & 0xff == (p >> 8) & 0xff,
            (q >> 16) & 0xff == p & 0xff,
            q >> 24 == p >> 24,
            r & 0xff == (q >> 16) & 0xff,
            (r >> 8) & 0xff == (q >> 8) & 0xff,
            (r >> 16) & 0xff == q & 0xff,
            r >> 24 == q >> 24,
    ;
}

/// Paints the shared frame into the display texture. The camera shares a
/// 512 x 512 square while the texture is 1280 x 720: the square is painted
/// at its own size, not stretched, into the top-left corner of the texture,
/// every pixel with its red and blue channels exchanged; the rest of the
/// texture is left as it was.
pub fn paint_frame(shared: &Vec<u32>, texture: &mut Vec<u32>)
    requires
        shared.len() >= CAPTURE_PIXELS,
        old(texture).len() >= FRAME_PIXELS,
    ensures
        final(texture).len() == old(texture).len(),
        forall|r: int, c: int|
            0 <= r < CAPTURE_SIDE && 0 <= c < CAPTURE_SIDE ==> channels_swapped(
                shared[at(r, c, 512)],
                #[trigger] final(texture)[at(r, c, 1280)],
            ),
        forall|r: int, c: int|
            0 <= r && 0 <= c < 1280 && at(r, c, 1280) < old(texture).len() && !(r < CAPTURE_SIDE && c < CAPTURE_SIDE)
                ==> #[trigger] final(texture)[at(r, c, 1280)] == old(texture)[at(r, c, 1280)],
{
    let ghost initial = old(texture)@;
    let mut row: usize = 0;
    while row < CAPTURE_SIDE
        invariant
            row <= CAPTURE_SIDE,
            shared.len() >= CAPTURE_PIXELS,
            initial.len() >= FRAME_PIXELS,
            texture.len() == initial.len(),
            forall|r: int, c: int|
                0 <= r && 0 <= c < 1280 && at(r, c, 1280) < initial.len() ==> if r < row && c < CAPTURE_SIDE {
                    channels_swapped(shared[at(r, c, 512)], #[trigger] texture[at(r, c, 1280)])
                } else {
                    texture[at(r, c, 1280)] == initial[at(r, c, 1280)]
                },
        decreases CAPTURE_SIDE - row,
    {
        let mut col: usize = 0;
        while col < CAPTURE_SIDE
            invariant
                row < CAPTURE_SIDE,
                col <= CAPTURE_SIDE,
                shared.len() >= CAPTURE_PIXELS,
                initial.len() >= FRAME_PIXELS,
                texture.len() == initial.len(),
                forall|r: int, c: int|
                    0 <= r && 0 <= c < 1280 && at(r, c, 1280) < initial.len() ==> if (r < row && c < CAPTURE_SIDE) || (r
                        == row && c < col) {
                        channels_swapped(shared[at(r, c, 512)], #[trigger] texture[at(r, c, 1280)])
                    } else {
                        texture[at(r, c, 1280)] == initial[at(r, c, 1280)]
                    },
            decreases CAPTURE_SIDE - col,
        {
            let p = swap_red_blue(shared[row * 512 + col]);
            texture.set(row * 1280 + col, p);
            col += 1;
        }
        row += 1;
    }
}

/// Scales the shared frame down for the face detector, which sees the
/// camera's 512 x 512 square at half size, 256 x 256: the pixel at
/// `(row, col)` of the result is the lowest byte of the pixel at
/// `(2 row, 2 col)` of the shared frame; the rest of the buffer is left as
/// it was. Faces found there, doubled, lie in the square as painted in the
/// corner of the texture.
pub fn downsample(shared: &Vec<u32>, buffer: &mut Vec<u8>)
    requires
        shared.len() >= CAPTURE_PIXELS,
        old(buffer).len() >= SMALL_PIXELS,
    ensures
        final(buffer).len() == old(buffer).len(),
        forall|row: int, col: int|
            0 <= row < SMALL_SIDE && 0 <= col < SMALL_SIDE ==> #[trigger] final(buffer)[at(row, col, 256)]
                == shared[at(2 * row, 2 * col, 512)] as u8,
        forall|k: int| SMALL_PIXELS <= k < old(buffer).len() ==> #[trigger] final(buffer)[k] == old(buffer)[k],
{
    let mut row: usize = 0;
    while row < SMALL_SIDE
        invariant
            row <= SMALL_SIDE,
            shared.len() >= CAPTURE_PIXELS,
            buffer.len() == old(buffer).len(),
            old(buffer).len() >= SMALL_PIXELS,
            forall|r: int, c: int|
                0 <= r < row && 0 <= c < SMALL_SIDE ==> #[trigger] buffer[at(r, c, 256)] == shared[at(2 * r, 2 * c, 512)] as u8,
            forall|k: int| at(row as int, 0, 256) <= k < old(buffer).len() ==> #[trigger] buffer[k] == old(buffer)[k],
        decreases SMALL_SIDE - row,
    {
        let mut col: usize = 0;
        while col < SMALL_SIDE
            invariant
                row < SMALL_SIDE,
                col <= SMALL_SIDE,
                shared.len() >= CAPTURE_PIXELS,
                buffer.len() == old(buffer).len(),
                old(buffer).len() >= SMALL_PIXELS,
                forall|r: int, c: int|
                    0 <= r < row && 0 <= c < SMALL_SIDE ==> #[trigger] buffer[at(r, c, 256)] == shared[at(2 * r, 2 * c, 512)] as u8,
                forall|c: int| 0 <= c < col ==> #[trigger] buffer[at(row as int, c, 256)] == shared[at(2 * row, 2 * c, 512)] as u8,
                forall|k: int| at(row as int, col as int, 256) <= k < old(buffer).len() ==> #[trigger] buffer[k] == old(buffer)[k],
            decreases SMALL_SIDE - col,
        {
            let source = shared[row * 1024 + col * 2];
            buffer.set(row * 256 + col, source as u8);
            col += 1;
        }
        row += 1;
    }
}

/// A face the detector found, in the coordinates of the half-size frame.
#[derive(Clone, Copy)]
pub struct FaceBox {
    pub x: i32,
    pub y: i32,
    pub width: u32,
    pub height: u32,
}

/// Left edge of a face in display coordinates.
pub open spec fn left(b: FaceBox) -> int {
    2 * b.x
}

/// Top edge of a face in display coordinates.
pub open spec fn top(b: FaceBox) -> int {
    2 * b.y
}

/// Width of a face in display coordinates.
pub open spec fn wide(b: FaceBox) -> int {
    2 * b.width
}

/// Height of a face in display coordinates.
pub open spec fn high(b: FaceBox) -> int {
    2 * b.height
}

/// A face is outlined when, in display coordinates, it is between 20 and
/// 400 pixels wide and high and lies in the region that keeps 40 pixels
/// from the left and top edges and ends by column 1240 and row 700.
pub open spec fn accepted(b: FaceBox) -> bool {
    &&& 20 <= high(b) <= 400
    &&& 20 <= wide(b) <= 400
    &&& 40 <= top(b)
    &&& top(b) + high(b) <= 700
    &&& 40 <= left(b)
    &&& left(b) + wide(b) <= 1240
}

/// The pixel at `(row, col)` of the display lies on the outline of `b`: a
/// band three pixels thick along the top and bottom edges of the box and
/// along its left and right edges.
pub open spec fn on_outline(b: FaceBox, row: int, col: int) -> bool {
    let (x, y, w, h) = (left(b), top(b), wide(b), high(b));
    ||| x <= col < x + w && (y <= row < y + 3 || y + h <= row < y + h + 3)
    ||| y <= row < y + h && (x <= col < x + 3 || x + w <= col < x + w + 3)
}

/// The pixel at `(row, col)` lies on the outline of one of the first `n`
/// faces.
pub open spec fn painted(faces: Seq<FaceBox>, n: int, row: int, col: int) -> bool {
    exists|k: int| 0 <= k < n && #[trigger] on_outline(faces[k], row, col)
}

/// Pixels are laid out row by row: the pixel at `(row, col)` of an image
/// `width` wide comes `row` whole rows and then `col` pixels after the first.
pub proof fn law_pixels_are_row_major(row: int, col: int, width: int)
    ensures
        at(row, col, width) == row * width + col,
        at(row + 1, col, width) == at(row, col, width) + width,
        at(row, col + 1, width) == at(row, col, width) + 1,
{
    assert((row + 1) * width == row * width + width) by (nonlinear_arith);
}

/// In display coordinates a face box spans columns `2 x` to `2 x + 2 width`
/// and rows `2 y` to `2 y + 2 height`; it is outlined when it is between 20
/// and 400 pixels wide and high, at least 40 pixels from the left and top
/// edges, and ends by column 1240 and row 700.
pub proof fn law_accepted_boxes(b: FaceBox)
    ensures
        accepted(b) <==> {
            &&& 20 <= 2 * b.height <= 400
            &&& 20 <= 2 * b.width <= 400
            &&& 40 <= 2 * b.y
            &&& 2 * b.y + 2 * b.height <= 700
            &&& 40 <= 2 * b.x
            &&& 2 * b.x + 2 * b.width <= 1240
        },
{
}

/// The outline of a face is a border three pixels thick around the box at
/// its own place in the display, rows `2 y` on and columns `2 x` on: every
/// pixel of the top and bottom bands and of the left and right bands is on
/// it, no pixel inside the border is, and none lies outside the box and its
/// bands.
pub proof fn law_outline_is_the_border(b: FaceBox, row: int, col: int)
    ensures
        (2 * b.x <= col < 2 * b.x + 2 * b.width && (2 * b.y <= row < 2 * b.y + 3 || 2 * b.y + 2 * b.height <= row < 2
            * b.y + 2 * b.height + 3)) ==> on_outline(b, row, col),
        (2 * b.y <= row < 2 * b.y + 2 * b.height && (2 * b.x <= col < 2 * b.x + 3 || 2 * b.x + 2 * b.width <= col < 2
            * b.x + 2 * b.width + 3)) ==> on_outline(b, row, col),
        (2 * b.x + 3 <= col < 2 * b.x + 2 * b.width && 2 * b.y + 3 <= row < 2 * b.y + 2 * b.height) ==> !on_outline(
            b,
            row,
            col,
        ),
        on_outline(b, row, col) ==> 2 * b.x <= col < 2 * b.x + 2 * b.width + 3 && 2 * b.y <= row < 2 * b.y + 2
            * b.height + 3,
{
}

/// Whether a face is outlined; the tests are those of the display, made on
/// signed numbers, so that a box with a negative corner is not outlined.
pub fn face_accepted(b: &FaceBox) -> (r: bool)
    ensures
        r == accepted(*b),
{
    let x: i64 = 2 * (b.x as i64);
    let y: i64 = 2 * (b.y as i64);
    let w: i64 = 2 * (b.width as i64);
    let h: i64 = 2 * (b.height as i64);
    !(h < 20 || w < 20 || w > 400 || h > 400 || y < 40 || y + h > 700 || x < 40 || x + w > 1240)
}

/// Colours the pixel at `(row, col)` of the display texture.
fn paint(texture: &mut Vec<u32>, row: usize, col: usize)
    requires
        col < FRAME_WIDTH,
        at(row as int, col as int, 1280) < old(texture).len(),
    ensures
        final(texture).len() == old(texture).len(),
        forall|r: int, c: int|
            0 <= r && 0 <= c < 1280 && at(r, c, 1280) < old(texture).len() ==> #[trigger] final(texture)[at(r, c, 1280)]
                == if r == row && c == col {
                OUTLINE_COLOUR
            } else {
                old(texture)[at(r, c, 1280)]
            },
{
    texture.set(row * 1280 + col, OUTLINE_COLOUR);
}

/// Outlines one accepted face in the display texture.
fn draw_outline(texture: &mut Vec<u32>, b: &FaceBox)
    requires
        accepted(*b),
        old(texture).len() >= FRAME_PIXELS,
    ensures
        final(texture).len() == old(texture).len(),
        forall|r: int, c: int|
            0 <= r && 0 <= c < 1280 && at(r, c, 1280) < old(texture).len() ==> #[trigger] final(texture)[at(r, c, 1280)]
                == if on_outline(*b, r, c) {
                OUTLINE_COLOUR
            } else {
                old(texture)[at(r, c, 1280)]
            },
{
    let x: usize = 2 * (b.x as usize);
    let y: usize = 2 * (b.y as usize);
    let w: usize = 2 * (b.width as usize);
    let h: usize = 2 * (b.height as usize);
    let ghost initial = old(texture)@;
    let mut i: usize = 0;
    while i < w
        invariant
            accepted(*b),
            x == left(*b),
            y == top(*b),
            w == wide(*b),
            h == high(*b),
            i <= w,
            initial.len() >= FRAME_PIXELS,
            texture.len() == initial.len(),
            forall|r: int, c: int|
                0 <= r && 0 <= c < 1280 && at(r, c, 1280) < initial.len() ==> #[trigger] texture[at(r, c, 1280)]
                    == if x <= c < x + i && (y <= r < y + 3 || y + h <= r < y + h + 3) {
                    OUTLINE_COLOUR
                } else {
                    initial[at(r, c, 1280)]
                },
        decreases w - i,
    {
        paint(texture, y, x + i);
        paint(texture, y + 1, x + i);
        paint(texture, y + 2, x + i);
        paint(texture, y + h, x + i);
        paint(texture, y + h + 1, x + i);
        paint(texture, y + h + 2, x + i);
        i += 1;
    }
    let mut i: usize = 0;
    while i < h
        invariant
            accepted(*b),
            x == left(*b),
            y == top(*b),
            w == wide(*b),
            h == high(*b),
            i <= h,
            initial.len() >= FRAME_PIXELS,
            texture.len() == initial.len(),
            forall|r: int, c: int|
                0 <= r && 0 <= c < 1280 && at(r, c, 1280) < initial.len() ==> #[trigger] texture[at(r, c, 1280)]
                    == if (x <= c < x + w && (y <= r < y + 3 || y + h <= r < y + h + 3)) || (y <= r < y + i && (x <= c < x + 3 || x + w <= c < x + w + 3)) {
                    OUTLINE_COLOUR
                } else {
                    initial[at(r, c, 1280)]
                },
        decreases h - i,
    {
        paint(texture, y + i, x);
        paint(texture, y + i, x + 1);
        paint(texture, y + i, x + 2);
        paint(texture, y + i, x + w);
        paint(texture, y + i, x + w + 1);
        paint(texture, y + i, x + w + 2);
        i += 1;
    }
}

/// Outlines detected faces in the display texture, in the order the
/// detector gave them, and stops at the first face that is not accepted:
/// neither it nor any face after it is drawn. Returns how many faces were
/// outlined.
pub fn outline_faces(texture: &mut Vec<u32>, faces: &Vec<FaceBox>) -> (n: usize)
    requires
        old(texture).len() >= FRAME_PIXELS,
    ensures
        n <= faces.len(),
        forall|k: int| 0 <= k < n ==> accepted(#[trigger] faces[k]),
        n < faces.len() ==> !accepted(faces[n as int]),
        final(texture).len() == old(texture).len(),
        forall|r: int, c: int|
            0 <= r && 0 <= c < 1280 && at(r, c, 1280) < old(texture).len() ==> #[trigger] final(texture)[at(r, c, 1280)]
                == if painted(faces@, n as int, r, c) {
                OUTLINE_COLOUR
            } else {
                old(texture)[at(r, c, 1280)]
            },
{
    let ghost initial = old(texture)@;
    let mut n: usize = 0;
    while n < faces.len() && face_accepted(&faces[n])
        invariant
            n <= faces.len(),
            forall|k: int| 0 <= k < n ==> accepted(#[trigger] faces[k]),
            initial.len() >= FRAME_PIXELS,
            texture.len() == initial.len(),
            forall|r: int, c: int|
                0 <= r && 0 <= c < 1280 && at(r, c, 1280) < initial.len() ==> #[trigger] texture[at(r, c, 1280)]
                    == if painted(faces@, n as int, r, c) {
                    OUTLINE_COLOUR
                } else {
                    initial[at(r, c, 1280)]
                },
        decreases faces.len() - n,
    {
        draw_outline(texture, &faces[n]);
        proof {
            assert forall|r: int, c: int| #[trigger] painted(faces@, n + 1, r, c) <==> (painted(faces@, n as int, r, c) || on_outline(faces@[n as int], r, c)) by {
                if painted(faces@, n + 1, r, c) {
                    let k = choose|k: int| 0 <= k < n + 1 && #[trigger] on_outline(faces@[k], r, c);
                    if k < n {
                        assert(painted(faces@, n as int, r, c));
                    }
                }
                if on_outline(faces@[n as int], r, c) {
                    assert(0 <= n < n + 1);
                }
                if painted(faces@, n as int, r, c) {
                    let k = choose|k: int| 0 <= k < n && #[trigger] on_outline(faces@[k], r, c);
                    assert(0 <= k < n + 1);
                }
            }
        }
        n += 1;
    }
    n
}

/// Copies the top-left 512 x 512 square of a camera image, `stride` pixels
/// to a row, into shared memory, with the red and blue channels of every
/// pixel exchanged; the rest of the memory is left as it was.
pub fn copy_capture(raw: &Vec<u32>, stride: usize, memory: &mut Vec<u32>)
    requires
        raw.len() >= 511 * stride + 512,
        old(memory).len() >= CAPTURE_PIXELS,
    ensures
        final(memory).len() == old(memory).len(),
        forall|r: int, c: int|
            0 <= r < CAPTURE_SIDE && 0 <= c < CAPTURE_SIDE ==> channels_swapped(
                raw[at(r, c, stride as int)],
                #[trigger] final(memory)[at(r, c, 512)],
            ),
        forall|k: int| CAPTURE_PIXELS <= k < old(memory).len() ==> #[trigger] final(memory)[k] == old(memory)[k],
{
    let mut row: usize = 0;
    while row < CAPTURE_SIDE
        invariant
            row <= CAPTURE_SIDE,
            raw.len() >= 511 * stride + 512,
            memory.len() == old(memory).len(),
            old(memory).len() >= CAPTURE_PIXELS,
            forall|r: int, c: int|
                0 <= r < row && 0 <= c < CAPTURE_SIDE ==> channels_swapped(
                    raw[at(r, c, stride as int)],
                    #[trigger] memory[at(r, c, 512)],
                ),
            forall|k: int| at(row as int, 0, 512) <= k < old(memory).len() ==> #[trigger] memory[k] == old(memory)[k],
        decreases CAPTURE_SIDE - row,
    {
        assert(row * stride <= 511 * stride) by (nonlinear_arith)
            requires
                row < 512,
        ;
        let base = row * stride;
        let mut col: usize = 0;
        while col < CAPTURE_SIDE
            invariant
                row < CAPTURE_SIDE,
                col <= CAPTURE_SIDE,
                base == row * stride,
                base <= 511 * stride,
                raw.len() >= 511 * stride + 512,
                memory.len() == old(memory).len(),
                old(memory).len() >= CAPTURE_PIXELS,
                forall|r: int, c: int|
                    0 <= r < row && 0 <= c < CAPTURE_SIDE ==> channels_swapped(
                        raw[at(r, c, stride as int)],
                        #[trigger] memory[at(r, c, 512)],
                    ),
                forall|c: int|
                    0 <= c < col ==> channels_swapped(raw[at(row as int, c, stride as int)], #[trigger] memory[at(row as int, c, 512)]),
                forall|k: int| at(row as int, col as int, 512) <= k < old(memory).len() ==> #[trigger] memory[k] == old(memory)[k],
            decreases CAPTURE_SIDE - col,
        {
            let p = swap_red_blue(raw[base + col]);
            memory.set(row * 512 + col, p);
            col += 1;
        }
        row += 1;
    }
}

} // verus!
