//! The canvas configuration view, the plugin interface and the scheduler.
//!
//! [`ConfigGalar`] owns the row-major pixel framebuffer together with the
//! shared per-frame settings (background color, clean flag, frame mode) and
//! offers every bounds-checked drawing primitive.  [`Galar`] owns one
//! `ConfigGalar` and the registered plugins and drives the per-tick sequence
//! clear, update every plugin in registration order, transition the frame
//! mode.  Presenting the buffer to a display and polling input are outside
//! collaborators' business: whoever runs the loop reads the buffer through
//! [`ConfigGalar::buffer`] after each tick.

use crate::fixed::fx_abs;
use vstd::arithmetic::div_mod::{
    lemma_fundamental_div_mod, lemma_fundamental_div_mod_converse, lemma_mod_bound,
};
use vstd::prelude::*;

verus! {

/// The scheduler's update cadence.  The mode is process-wide state shared by
/// every plugin: a change made by one plugin affects the cadence of all of
/// them from the next tick on.
#[derive(Debug, Clone, Copy, PartialEq, Eq, Structural)]
pub enum FrameMode {
    /// Draw and update every frame.
    Continuous,
    /// Update once, then pause (input stays live).
    SingleStep,
    /// Update nothing; only input and the window stay live.
    Paused,
}

/// The canvas edge length the engine accepts (a machine limit: it keeps
/// every pixel index and every fixed-point pixel coordinate representable).
pub const MAX_DIM: usize = 16384;

/// Row-major indexing: a cell within bounds has a unique index in range.
pub proof fn lemma_index_of_cell(w: int, x: int, y: int)
    requires
        w >= 1,
        0 <= x < w,
        0 <= y,
    ensures
        (y * w + x) / w == y,
        (y * w + x) % w == x,
        y * w + x >= 0,
{
    assert(y * w + x == w * y + x) by (nonlinear_arith);
    assert(w * y + x >= 0) by (nonlinear_arith)
        requires
            w >= 1,
            0 <= x,
            0 <= y,
    ;
    lemma_fundamental_div_mod_converse(y * w + x, w, y, x);
}

/// Row-major indexing: an index in range names a unique cell within bounds.
pub proof fn lemma_row_of_index(i: int, w: int, h: int)
    requires
        w >= 1,
        0 <= i < w * h,
    ensures
        0 <= i / w < h,
        0 <= i % w < w,
        i == (i / w) * w + (i % w),
{
    lemma_fundamental_div_mod(i, w);
    lemma_mod_bound(i, w);
    assert(i == (i / w) * w + (i % w)) by (nonlinear_arith)
        requires
            i == w * (i / w) + (i % w),
    ;
    assert(i / w >= 0) by {
        if i / w < 0 {
            assert((i / w) * w <= -w) by (nonlinear_arith)
                requires
                    i / w <= -1,
                    w >= 1,
            ;
        }
    }
    assert(i / w < h) by {
        if i / w >= h {
            assert((i / w) * w >= h * w) by (nonlinear_arith)
                requires
                    i / w >= h,
                    w >= 1,
            ;
            assert(w * h == h * w) by (nonlinear_arith);
        }
    }
}

/// A cell within bounds has its row-major index within the buffer.
pub proof fn lemma_cell_index_in_range(w: int, h: int, x: int, y: int)
    requires
        w >= 1,
        h >= 1,
        0 <= x < w,
        0 <= y < h,
    ensures
        0 <= y * w + x < w * h,
        (y * w + x) / w == y,
        (y * w + x) % w == x,
{
    lemma_index_of_cell(w, x, y);
    assert(y * w + x < w * h) by (nonlinear_arith)
        requires
            0 <= x < w,
            0 <= y < h,
    ;
}

/// The framebuffer after a bounds-checked write of one pixel: out-of-range
/// coordinates leave it unchanged.
pub open spec fn write_pixel_spec(buf: Seq<u32>, w: int, h: int, x: int, y: int, color: u32) -> Seq<
    u32,
> {
    if 0 <= x < w && 0 <= y < h {
        buf.update(y * w + x, color)
    } else {
        buf
    }
}

/// The canvas and the shared per-frame configuration handed to plugins,
/// together with a snapshot of the outside input state.  The host polls the
/// window once per tick and writes the snapshot through
/// [`ConfigGalar::set_input_state`]; plugins query it during their update.
pub struct ConfigGalar {
    buffer: Vec<u32>,
    width: usize,
    height: usize,
    clean: bool,
    background: u32,
    frame_mode: FrameMode,
    pressed_keys: Vec<u32>,
    mouse_position: Option<(i64, i64)>,
    display_open: bool,
}

impl ConfigGalar {
    /// The buffer covers exactly `width * height` pixels, and both
    /// dimensions respect the engine's limit.
    pub closed spec fn wf(self) -> bool {
        &&& self.buffer@.len() == self.width as int * self.height as int
        &&& self.width <= MAX_DIM
        &&& self.height <= MAX_DIM
    }

    /// The framebuffer contents, row-major.
    pub closed spec fn pixels(self) -> Seq<u32> {
        self.buffer@
    }

    /// The canvas width in pixels.
    pub closed spec fn width_spec(self) -> int {
        self.width as int
    }

    /// The canvas height in pixels.
    pub closed spec fn height_spec(self) -> int {
        self.height as int
    }

    /// Whether each active frame starts from the background color.
    pub closed spec fn clean_spec(self) -> bool {
        self.clean
    }

    /// The clear color.
    pub closed spec fn background_spec(self) -> u32 {
        self.background
    }

    /// The update cadence currently requested.
    pub closed spec fn frame_mode_spec(self) -> FrameMode {
        self.frame_mode
    }

    /// The key codes reported down at the last input poll.
    pub closed spec fn pressed_keys_spec(self) -> Seq<u32> {
        self.pressed_keys@
    }

    /// The cursor position reported at the last input poll, in fixed-point
    /// canvas coordinates.
    pub closed spec fn mouse_spec(self) -> Option<(i64, i64)> {
        self.mouse_position
    }

    /// Whether the display was reported open at the last input poll.
    pub closed spec fn display_open_spec(self) -> bool {
        self.display_open
    }

    /// What well-formedness gives a caller: the buffer covers the canvas
    /// and both dimensions respect the engine's limit.
    pub proof fn lemma_wf(self)
        requires
            self.wf(),
        ensures
            self.pixels().len() == self.width_spec() * self.height_spec(),
            0 <= self.width_spec() <= MAX_DIM,
            0 <= self.height_spec() <= MAX_DIM,
    {
    }

    /// Everything but the framebuffer contents agrees between two states.
    pub open spec fn same_config(pre: Self, post: Self) -> bool {
        &&& post.width_spec() == pre.width_spec()
        &&& post.height_spec() == pre.height_spec()
        &&& post.clean_spec() == pre.clean_spec()
        &&& post.background_spec() == pre.background_spec()
        &&& post.frame_mode_spec() == pre.frame_mode_spec()
        &&& post.pressed_keys_spec() == pre.pressed_keys_spec()
        &&& post.mouse_spec() == pre.mouse_spec()
        &&& post.display_open_spec() == pre.display_open_spec()
        &&& post.pixels().len() == pre.pixels().len()
    }

    /// A fresh canvas: a zeroed buffer, clearing enabled, black background,
    /// continuous updates.
    pub fn new(width: usize, height: usize) -> (c: Self)
        requires
            width <= MAX_DIM,
            height <= MAX_DIM,
        ensures
            c.wf(),
            c.width_spec() == width,
            c.height_spec() == height,
            c.pixels() =~= Seq::new((width * height) as nat, |i: int| 0u32),
            c.clean_spec() == true,
            c.background_spec() == 0,
            c.frame_mode_spec() == FrameMode::Continuous,
            c.pressed_keys_spec() == Seq::<u32>::empty(),
            c.mouse_spec() is None,
            c.display_open_spec() == true,
    {
        proof {
            assert(width * height <= MAX_DIM * MAX_DIM) by (nonlinear_arith)
                requires
                    width <= MAX_DIM,
                    height <= MAX_DIM,
            ;
        }
        let n = width * height;
        let mut buffer: Vec<u32> = Vec::new();
        let mut i: usize = 0;
        while i < n
            invariant
                0 <= i <= n,
                buffer@.len() == i,
                forall|k: int| 0 <= k < i ==> buffer@[k] == 0u32,
            decreases n - i,
        {
            buffer.push(0);
            i = i + 1;
        }
        let pressed_keys: Vec<u32> = Vec::new();
        proof {
            assert(pressed_keys@ =~= Seq::<u32>::empty());
        }
        ConfigGalar {
            buffer,
            width,
            height,
            clean: true,
            background: 0,
            frame_mode: FrameMode::Continuous,
            pressed_keys,
            mouse_position: None,
            display_open: true,
        }
    }

    /// The canvas size as (width, height).
    pub fn size(&self) -> (s: (usize, usize))
        ensures
            s.0 == self.width_spec(),
            s.1 == self.height_spec(),
    {
        (self.width, self.height)
    }

    /// Chooses whether each active frame starts from the background color.
    pub fn set_clean_pixels(&mut self, clear: bool)
        ensures
            final(self).clean_spec() == clear,
            final(self).width_spec() == old(self).width_spec(),
            final(self).height_spec() == old(self).height_spec(),
            final(self).pixels() == old(self).pixels(),
            final(self).background_spec() == old(self).background_spec(),
            final(self).frame_mode_spec() == old(self).frame_mode_spec(),
            final(self).wf() == old(self).wf(),
    {
        self.clean = clear;
    }

    /// Sets the background color.
    pub fn set_background(&mut self, color: u32)
        ensures
            final(self).background_spec() == color,
            final(self).width_spec() == old(self).width_spec(),
            final(self).height_spec() == old(self).height_spec(),
            final(self).pixels() == old(self).pixels(),
            final(self).clean_spec() == old(self).clean_spec(),
            final(self).frame_mode_spec() == old(self).frame_mode_spec(),
            final(self).wf() == old(self).wf(),
    {
        self.background = color;
    }

    /// Requests an update cadence; the change takes effect at the next tick.
    pub fn set_frame_mode(&mut self, mode: FrameMode)
        ensures
            final(self).frame_mode_spec() == mode,
            final(self).width_spec() == old(self).width_spec(),
            final(self).height_spec() == old(self).height_spec(),
            final(self).pixels() == old(self).pixels(),
            final(self).clean_spec() == old(self).clean_spec(),
            final(self).background_spec() == old(self).background_spec(),
            final(self).wf() == old(self).wf(),
    {
        self.frame_mode = mode;
    }

    /// The update cadence currently requested.
    pub fn get_frame_mode(&self) -> (m: FrameMode)
        ensures
            m == self.frame_mode_spec(),
    {
        self.frame_mode
    }

    /// Whether each active frame starts from the background color.
    pub fn get_clean_pixels(&self) -> (c: bool)
        ensures
            c == self.clean_spec(),
    {
        self.clean
    }

    /// The clear color.
    pub fn get_background(&self) -> (b: u32)
        ensures
            b == self.background_spec(),
    {
        self.background
    }

    /// Records the input state the host polled for this tick: the key codes
    /// down, the cursor position (fixed-point canvas coordinates), and
    /// whether the display is still open.
    pub fn set_input_state(&mut self, pressed_keys: Vec<u32>, mouse_position: Option<(i64, i64)>, display_open: bool)
        ensures
            final(self).pressed_keys_spec() == pressed_keys@,
            final(self).mouse_spec() == mouse_position,
            final(self).display_open_spec() == display_open,
            final(self).pixels() == old(self).pixels(),
            final(self).width_spec() == old(self).width_spec(),
            final(self).height_spec() == old(self).height_spec(),
            final(self).clean_spec() == old(self).clean_spec(),
            final(self).background_spec() == old(self).background_spec(),
            final(self).frame_mode_spec() == old(self).frame_mode_spec(),
            final(self).wf() == old(self).wf(),
    {
        self.pressed_keys = pressed_keys;
        self.mouse_position = mouse_position;
        self.display_open = display_open;
    }

    /// Whether the key with the given code was down at the last input poll.
    pub fn is_key_down(&self, key: u32) -> (r: bool)
        ensures
            r == self.pressed_keys_spec().contains(key),
    {
        let n = self.pressed_keys.len();
        let mut i: usize = 0;
        while i < n
            invariant
                0 <= i <= n,
                n == self.pressed_keys@.len(),
                forall|k: int| 0 <= k < i ==> self.pressed_keys@[k] != key,
            decreases n - i,
        {
            if self.pressed_keys[i] == key {
                return true;
            }
            i = i + 1;
        }
        false
    }

    /// The cursor position at the last input poll, if the window reported
    /// one, in fixed-point canvas coordinates.
    pub fn get_mouse_position(&self) -> (m: Option<(i64, i64)>)
        ensures
            m == self.mouse_spec(),
    {
        self.mouse_position
    }

    /// Whether the display was still open at the last input poll.
    pub fn is_open(&self) -> (r: bool)
        ensures
            r == self.display_open_spec(),
    {
        self.display_open
    }

    /// Fills the whole buffer with the background color — but only when the
    /// clean flag is set; a plugin opts into persistent trails by clearing
    /// the flag.
    pub fn clear_buffer(&mut self)
        requires
            old(self).wf(),
        ensures
            final(self).wf(),
            Self::same_config(*old(self), *final(self)),
            old(self).clean_spec() ==> final(self).pixels() =~= Seq::new(
                old(self).pixels().len(),
                |i: int| old(self).background_spec(),
            ),
            !old(self).clean_spec() ==> final(self).pixels() == old(self).pixels(),
    {
        if self.clean {
            let n = self.buffer.len();
            let bg = self.background;
            let mut i: usize = 0;
            while i < n
                invariant
                    0 <= i <= n,
                    self.buffer@.len() == n,
                    bg == self.background,
                    forall|k: int| 0 <= k < i ==> self.buffer@[k] == bg,
                    forall|k: int| i <= k < n ==> self.buffer@[k] == old(self).buffer@[k],
                    self.width == old(self).width,
                    self.height == old(self).height,
                    self.clean == old(self).clean,
                    self.background == old(self).background,
                    self.frame_mode == old(self).frame_mode,
                    self.pressed_keys == old(self).pressed_keys,
                    self.mouse_position == old(self).mouse_position,
                    self.display_open == old(self).display_open,
                decreases n - i,
            {
                self.buffer.set(i, bg);
                i = i + 1;
            }
        }
    }

    /// A direct write at a linear index the caller has already shown valid —
    /// the rasterizer's fast path.
    pub fn explicit_draw(&mut self, index: usize, color: u32)
        requires
            old(self).wf(),
            index < old(self).pixels().len(),
        ensures
            final(self).wf(),
            Self::same_config(*old(self), *final(self)),
            final(self).pixels() == old(self).pixels().update(index as int, color),
    {
        self.buffer.set(index, color);
    }

    /// The pixel at `(x, y)`, which must lie on the canvas.
    pub fn get_pixel(&self, x: usize, y: usize) -> (p: u32)
        requires
            self.wf(),
            x < self.width_spec(),
            y < self.height_spec(),
        ensures
            p == self.pixels()[y * self.width_spec() + x],
    {
        proof {
            lemma_cell_index_in_range(
                self.width as int,
                self.height as int,
                x as int,
                y as int,
            );
            assert(self.width * self.height <= MAX_DIM * MAX_DIM) by (nonlinear_arith)
                requires
                    self.width <= MAX_DIM,
                    self.height <= MAX_DIM,
            ;
        }
        self.buffer[y * self.width + x]
    }

    /// A borrowed view of the whole framebuffer, row-major — what a display
    /// sink presents after a tick.
    pub fn buffer(&self) -> (b: &Vec<u32>)
        ensures
            b@ == self.pixels(),
    {
        &self.buffer
    }

    /// The linear index range of the framebuffer.
    pub fn iter_d1(&self) -> (r: core::ops::Range<usize>)
        requires
            self.wf(),
        ensures
            r.start == 0,
            r.end == self.pixels().len(),
    {
        proof {
            assert(self.width * self.height <= MAX_DIM * MAX_DIM) by (nonlinear_arith)
                requires
                    self.width <= MAX_DIM,
                    self.height <= MAX_DIM,
            ;
        }
        0..(self.width * self.height)
    }

    /// Bounds-checked single-pixel write: out-of-range coordinates are a
    /// silent no-op.
    pub fn draw_pixel(&mut self, x: usize, y: usize, color: u32)
        requires
            old(self).wf(),
        ensures
            final(self).wf(),
            Self::same_config(*old(self), *final(self)),
            final(self).pixels() == write_pixel_spec(
                old(self).pixels(),
                old(self).width_spec(),
                old(self).height_spec(),
                x as int,
                y as int,
                color,
            ),
    {
        if x < self.width && y < self.height {
            proof {
                lemma_cell_index_in_range(
                    self.width as int,
                    self.height as int,
                    x as int,
                    y as int,
                );
                assert(self.width * self.height <= MAX_DIM * MAX_DIM) by (nonlinear_arith)
                    requires
                        self.width <= MAX_DIM,
                        self.height <= MAX_DIM,
                ;
            }
            self.buffer.set(y * self.width + x, color);
        }
    }
}

/// Whether the filled rectangle at `(x, y)` of size `rw` by `rh`, clamped to
/// the canvas, covers the cell `(ix, iy)`.
pub open spec fn rect_covers(
    w: int,
    h: int,
    x: int,
    y: int,
    rw: int,
    rh: int,
    ix: int,
    iy: int,
) -> bool {
    &&& x <= ix < x + rw
    &&& ix < w
    &&& y <= iy < y + rh
    &&& iy < h
}

/// The framebuffer after a filled rectangle, clamped to the canvas.
pub open spec fn rect_render(
    buf: Seq<u32>,
    w: int,
    h: int,
    x: int,
    y: int,
    rw: int,
    rh: int,
    color: u32,
) -> Seq<u32> {
    Seq::new(
        buf.len(),
        |i: int|
            if rect_covers(w, h, x, y, rw, rh, i % w, i / w) {
                color
            } else {
                buf[i]
            },
    )
}

impl ConfigGalar {
    /// Filled rectangle, clamped to the canvas bounds.
    pub fn draw_rect(&mut self, x: usize, y: usize, width: usize, height: usize, color: u32)
        requires
            old(self).wf(),
        ensures
            final(self).wf(),
            Self::same_config(*old(self), *final(self)),
            final(self).pixels() =~= rect_render(
                old(self).pixels(),
                old(self).width_spec(),
                old(self).height_spec(),
                x as int,
                y as int,
                width as int,
                height as int,
                color,
            ),
    {
        let ghost buf0 = old(self).pixels();
        let ghost w0 = old(self).width_spec();
        let ghost h0 = old(self).height_spec();
        let (w, h) = self.size();
        let x_end = if x >= w || width >= w - x {
            w
        } else {
            x + width
        };
        let y_end = if y >= h || height >= h - y {
            h
        } else {
            y + height
        };
        let mut cy = y;
        while cy < y_end
            invariant
                self.wf(),
                Self::same_config(*old(self), *self),
                w0 == old(self).width_spec(),
                h0 == old(self).height_spec(),
                w == w0,
                h == h0,
                buf0 == old(self).pixels(),
                buf0.len() == w0 * h0,
                y <= cy,
                cy <= y_end || cy == y,
                y_end <= h,
                x_end <= w,
                x >= w || width >= w - x ==> x_end == w,
                x < w && width < w - x ==> x_end == x + width,
                y >= h || height >= h - y ==> y_end == h,
                y < h && height < h - y ==> y_end == y + height,
                self.pixels().len() == buf0.len(),
                forall|i: int|
                    0 <= i < buf0.len() ==> self.pixels()[i] == (if rect_covers(
                        w0,
                        h0,
                        x as int,
                        y as int,
                        width as int,
                        height as int,
                        i % w0,
                        i / w0,
                    ) && i / w0 < cy {
                        color
                    } else {
                        buf0[i]
                    }),
            decreases y_end - cy,
        {
            let mut cx = x;
            while cx < x_end
                invariant
                    self.wf(),
                    Self::same_config(*old(self), *self),
                    w0 == old(self).width_spec(),
                    h0 == old(self).height_spec(),
                    w == w0,
                    h == h0,
                    buf0 == old(self).pixels(),
                    buf0.len() == w0 * h0,
                    y <= cy < y_end <= h,
                    x <= cx,
                    cx <= x_end || cx == x,
                    x_end <= w,
                    x >= w || width >= w - x ==> x_end == w,
                    x < w && width < w - x ==> x_end == x + width,
                    y >= h || height >= h - y ==> y_end == h,
                    y < h && height < h - y ==> y_end == y + height,
                    self.pixels().len() == buf0.len(),
                    forall|i: int|
                        0 <= i < buf0.len() ==> self.pixels()[i] == (if rect_covers(
                            w0,
                            h0,
                            x as int,
                            y as int,
                            width as int,
                            height as int,
                            i % w0,
                            i / w0,
                        ) && (i / w0 < cy || (i / w0 == cy && i % w0 < cx)) {
                            color
                        } else {
                            buf0[i]
                        }),
                decreases x_end - cx,
            {
                proof {
                    lemma_cell_index_in_range(w0, h0, cx as int, cy as int);
                    assert(w0 * h0 <= MAX_DIM * MAX_DIM) by (nonlinear_arith)
                        requires
                            0 <= w0 <= MAX_DIM,
                            0 <= h0 <= MAX_DIM,
                    ;
                }
                let idx = cy * w + cx;
                self.explicit_draw(idx, color);
                proof {
                    assert forall|i: int| 0 <= i < buf0.len() implies self.pixels()[i] == (
                    if rect_covers(
                        w0,
                        h0,
                        x as int,
                        y as int,
                        width as int,
                        height as int,
                        i % w0,
                        i / w0,
                    ) && (i / w0 < cy || (i / w0 == cy && i % w0 < cx + 1)) {
                        color
                    } else {
                        buf0[i]
                    }) by {
                        lemma_row_of_index(i, w0, h0);
                    }
                }
                cx = cx + 1;
            }
            cy = cy + 1;
        }
        proof {
            assert forall|i: int| 0 <= i < buf0.len() implies self.pixels()[i] == (if rect_covers(
                w0,
                h0,
                x as int,
                y as int,
                width as int,
                height as int,
                i % w0,
                i / w0,
            ) {
                color
            } else {
                buf0[i]
            }) by {
                lemma_row_of_index(i, w0, h0);
            }
            assert(self.pixels() =~= rect_render(
                buf0,
                w0,
                h0,
                x as int,
                y as int,
                width as int,
                height as int,
                color,
            ));
        }
    }
}

/// Whether the annulus around `(cx, cy)` with squared radii `lo2 <= d2 <=
/// hi2` covers the canvas cell `(ix, iy)`.  A filled circle is the annulus
/// with `lo2 == 0`.
pub open spec fn annulus_covers(
    w: int,
    h: int,
    cx: int,
    cy: int,
    lo2: int,
    hi2: int,
    ix: int,
    iy: int,
) -> bool {
    &&& 0 <= ix < w
    &&& 0 <= iy < h
    &&& lo2 <= (ix - cx) * (ix - cx) + (iy - cy) * (iy - cy) <= hi2
}

/// The framebuffer after painting an annulus, clipped to the canvas.
pub open spec fn annulus_render(
    buf: Seq<u32>,
    w: int,
    h: int,
    cx: int,
    cy: int,
    lo2: int,
    hi2: int,
    color: u32,
) -> Seq<u32> {
    Seq::new(
        buf.len(),
        |i: int|
            if annulus_covers(w, h, cx, cy, lo2, hi2, i % w, i / w) {
                color
            } else {
                buf[i]
            },
    )
}

/// Two values whose squares sum to within `r * r` each lie within `r`.
proof fn lemma_sq_le(a: int, b: int, r: int)
    requires
        r >= 0,
        a * a + b * b <= r * r,
    ensures
        -r <= a <= r,
        -r <= b <= r,
{
    assert(a * a >= 0 && b * b >= 0) by (nonlinear_arith);
    assert(a > r ==> a * a > r * r) by (nonlinear_arith)
        requires
            r >= 0,
    ;
    assert(a < -r ==> a * a > r * r) by (nonlinear_arith)
        requires
            r >= 0,
    ;
    assert(b > r ==> b * b > r * r) by (nonlinear_arith)
        requires
            r >= 0,
    ;
    assert(b < -r ==> b * b > r * r) by (nonlinear_arith)
        requires
            r >= 0,
    ;
}

impl ConfigGalar {
    /// Paints every canvas pixel whose squared distance from `(cx, cy)` lies
    /// in `[lo2, r * r]`, scanning the bounding square of side `2 r`.
    fn annulus_fill(&mut self, cx: i64, cy: i64, r: i64, lo2: i64, color: u32)
        requires
            old(self).wf(),
            0 <= r <= 0x4000_0000,
            -0x4000_0000 <= cx <= 0x4000_0000,
            -0x4000_0000 <= cy <= 0x4000_0000,
            0 <= lo2,
        ensures
            final(self).wf(),
            Self::same_config(*old(self), *final(self)),
            final(self).pixels() =~= annulus_render(
                old(self).pixels(),
                old(self).width_spec(),
                old(self).height_spec(),
                cx as int,
                cy as int,
                lo2 as int,
                r as int * r as int,
                color,
            ),
    {
        let ghost buf0 = old(self).pixels();
        let ghost w0 = old(self).width_spec();
        let ghost h0 = old(self).height_spec();
        let (wu, hu) = self.size();
        let w = wu as i64;
        let h = hu as i64;
        proof {
            assert(r * r <= 0x1000_0000_0000_0000) by (nonlinear_arith)
                requires
                    0 <= r <= 0x4000_0000,
            ;
        }
        let hi2: i64 = r * r;
        proof {
            assert forall|i: int| 0 <= i < buf0.len() implies self.pixels()[i] == (
            if annulus_covers(
                w0,
                h0,
                cx as int,
                cy as int,
                lo2 as int,
                hi2 as int,
                i % w0,
                i / w0,
            ) && i / w0 < cy - r {
                color
            } else {
                buf0[i]
            }) by {
                lemma_row_of_index(i, w0, h0);
                if annulus_covers(w0, h0, cx as int, cy as int, lo2 as int, hi2 as int, i % w0, i / w0) {
                    lemma_sq_le(i % w0 - cx, i / w0 - cy, r as int);
                }
            }
        }
        let mut dy: i64 = -r;
        while dy <= r
            invariant
                self.wf(),
                Self::same_config(*old(self), *self),
                w0 == old(self).width_spec(),
                h0 == old(self).height_spec(),
                w == w0,
                h == h0,
                wu as int == w0,
                hu as int == h0,
                0 <= w0 <= MAX_DIM,
                0 <= h0 <= MAX_DIM,
                buf0 == old(self).pixels(),
                buf0.len() == w0 * h0,
                0 <= r <= 0x4000_0000,
                -0x4000_0000 <= cx <= 0x4000_0000,
                -0x4000_0000 <= cy <= 0x4000_0000,
                0 <= lo2,
                hi2 == r * r,
                -r <= dy <= r + 1,
                self.pixels().len() == buf0.len(),
                forall|i: int|
                    0 <= i < buf0.len() ==> self.pixels()[i] == (if annulus_covers(
                        w0,
                        h0,
                        cx as int,
                        cy as int,
                        lo2 as int,
                        hi2 as int,
                        i % w0,
                        i / w0,
                    ) && i / w0 < cy + dy {
                        color
                    } else {
                        buf0[i]
                    }),
            decreases r + 1 - dy,
        {
            proof {
                assert forall|i: int| 0 <= i < buf0.len() implies self.pixels()[i] == (
                if annulus_covers(
                    w0,
                    h0,
                    cx as int,
                    cy as int,
                    lo2 as int,
                    hi2 as int,
                    i % w0,
                    i / w0,
                ) && (i / w0 < cy + dy || (i / w0 == cy + dy && i % w0 < cx - r)) {
                    color
                } else {
                    buf0[i]
                }) by {
                    lemma_row_of_index(i, w0, h0);
                    if annulus_covers(w0, h0, cx as int, cy as int, lo2 as int, hi2 as int, i % w0, i / w0) {
                        lemma_sq_le(i % w0 - cx, i / w0 - cy, r as int);
                    }
                }
            }
            let mut dx: i64 = -r;
            while dx <= r
                invariant
                    self.wf(),
                    Self::same_config(*old(self), *self),
                    w0 == old(self).width_spec(),
                    h0 == old(self).height_spec(),
                    w == w0,
                    h == h0,
                    wu as int == w0,
                    hu as int == h0,
                    0 <= w0 <= MAX_DIM,
                    0 <= h0 <= MAX_DIM,
                    buf0 == old(self).pixels(),
                    buf0.len() == w0 * h0,
                    0 <= r <= 0x4000_0000,
                    -0x4000_0000 <= cx <= 0x4000_0000,
                    -0x4000_0000 <= cy <= 0x4000_0000,
                    0 <= lo2,
                    hi2 == r * r,
                    -r <= dy <= r,
                    -r <= dx <= r + 1,
                    self.pixels().len() == buf0.len(),
                    forall|i: int|
                        0 <= i < buf0.len() ==> self.pixels()[i] == (if annulus_covers(
                            w0,
                            h0,
                            cx as int,
                            cy as int,
                            lo2 as int,
                            hi2 as int,
                            i % w0,
                            i / w0,
                        ) && (i / w0 < cy + dy || (i / w0 == cy + dy && i % w0 < cx + dx)) {
                            color
                        } else {
                            buf0[i]
                        }),
                decreases r + 1 - dx,
            {
                proof {
                    assert(dx * dx <= 0x1000_0000_0000_0000 && dy * dy <= 0x1000_0000_0000_0000)
                        by (nonlinear_arith)
                        requires
                            -0x4000_0000 <= dx <= 0x4000_0000,
                            -0x4000_0000 <= dy <= 0x4000_0000,
                    ;
                    assert(dx * dx >= 0 && dy * dy >= 0) by (nonlinear_arith);
                }
                let d2 = dx * dx + dy * dy;
                if d2 <= hi2 && d2 >= lo2 {
                    let px = cx + dx;
                    let py = cy + dy;
                    if px >= 0 && px < w && py >= 0 && py < h {
                        proof {
                            lemma_cell_index_in_range(w0, h0, px as int, py as int);
                            assert(w0 * h0 <= MAX_DIM * MAX_DIM) by (nonlinear_arith)
                                requires
                                    0 <= w0 <= MAX_DIM,
                                    0 <= h0 <= MAX_DIM,
                            ;
                        }
                        let idx = (py as usize) * wu + (px as usize);
                        self.explicit_draw(idx, color);
                    }
                }
                proof {
                    assert forall|i: int| 0 <= i < buf0.len() implies self.pixels()[i] == (
                    if annulus_covers(
                        w0,
                        h0,
                        cx as int,
                        cy as int,
                        lo2 as int,
                        hi2 as int,
                        i % w0,
                        i / w0,
                    ) && (i / w0 < cy + dy || (i / w0 == cy + dy && i % w0 < cx + dx + 1)) {
                        color
                    } else {
                        buf0[i]
                    }) by {
                        lemma_row_of_index(i, w0, h0);
                    }
                }
                dx = dx + 1;
            }
            proof {
                assert forall|i: int| 0 <= i < buf0.len() implies self.pixels()[i] == (
                if annulus_covers(
                    w0,
                    h0,
                    cx as int,
                    cy as int,
                    lo2 as int,
                    hi2 as int,
                    i % w0,
                    i / w0,
                ) && i / w0 < cy + dy + 1 {
                    color
                } else {
                    buf0[i]
                }) by {
                    lemma_row_of_index(i, w0, h0);
                    if annulus_covers(w0, h0, cx as int, cy as int, lo2 as int, hi2 as int, i % w0, i / w0) {
                        lemma_sq_le(i % w0 - cx, i / w0 - cy, r as int);
                        lemma_sq_le(i % w0 - cx, i / w0 - cy, r as int);
                    }
                }
            }
            dy = dy + 1;
        }
        proof {
            assert forall|i: int| 0 <= i < buf0.len() implies self.pixels()[i] == (
            if annulus_covers(
                w0,
                h0,
                cx as int,
                cy as int,
                lo2 as int,
                hi2 as int,
                i % w0,
                i / w0,
            ) {
                color
            } else {
                buf0[i]
            }) by {
                lemma_row_of_index(i, w0, h0);
                if annulus_covers(w0, h0, cx as int, cy as int, lo2 as int, hi2 as int, i % w0, i / w0) {
                    lemma_sq_le(i % w0 - cx, i / w0 - cy, r as int);
                }
            }
            assert(self.pixels() =~= annulus_render(
                buf0,
                w0,
                h0,
                cx as int,
                cy as int,
                lo2 as int,
                r as int * r as int,
                color,
            ));
        }
    }

    /// Filled circle via a squared-distance test over the bounding square,
    /// clipped to the canvas.
    pub fn draw_circle(&mut self, cx: usize, cy: usize, radius: usize, color: u32)
        requires
            old(self).wf(),
            cx <= 0x4000_0000,
            cy <= 0x4000_0000,
            radius <= 0x4000_0000,
        ensures
            final(self).wf(),
            Self::same_config(*old(self), *final(self)),
            final(self).pixels() =~= annulus_render(
                old(self).pixels(),
                old(self).width_spec(),
                old(self).height_spec(),
                cx as int,
                cy as int,
                0,
                radius as int * radius as int,
                color,
            ),
    {
        self.annulus_fill(cx as i64, cy as i64, radius as i64, 0, color);
    }

    /// Circle outline: an annulus one pixel thick, via the squared-distance
    /// test `(radius - 1)^2 <= d^2 <= radius^2`, clipped to the canvas.  A
    /// negative radius draws nothing.
    pub fn draw_circle_outline(&mut self, cx: i64, cy: i64, radius: i64, color: crate::color::Color)
        requires
            old(self).wf(),
            -0x4000_0000 <= cx <= 0x4000_0000,
            -0x4000_0000 <= cy <= 0x4000_0000,
            -0x4000_0000 <= radius <= 0x4000_0000,
        ensures
            final(self).wf(),
            Self::same_config(*old(self), *final(self)),
            radius >= 0 ==> final(self).pixels() =~= annulus_render(
                old(self).pixels(),
                old(self).width_spec(),
                old(self).height_spec(),
                cx as int,
                cy as int,
                (radius - 1) * (radius - 1),
                radius as int * radius as int,
                crate::color::to_hex_spec(color) as u32,
            ),
            radius < 0 ==> final(self).pixels() == old(self).pixels(),
    {
        let hex_color = color.to_hex();
        if radius >= 0 {
            proof {
                assert((radius - 1) * (radius - 1) >= 0) by (nonlinear_arith);
                assert((radius - 1) * (radius - 1) <= 0x1000_0000_0000_0000) by (nonlinear_arith)
                    requires
                        0 <= radius <= 0x4000_0000,
                ;
            }
            self.annulus_fill(cx, cy, radius, (radius - 1) * (radius - 1), hex_color);
        }
    }
}

/// One state of Bresenham's error-accumulation walk: paint the current
/// pixel (clipped against the canvas), stop at the endpoint or at the
/// walk's own guard breaks, otherwise step toward the endpoint and
/// continue.  `fuel` bounds the recursion; the walk finishes within
/// `|x1 - x0| + |y1 - y0|` steps, so the fuel [`line_render`] supplies is
/// never exhausted.
pub open spec fn line_walk(
    buf: Seq<u32>,
    w: int,
    h: int,
    x: int,
    y: int,
    xe: int,
    ye: int,
    dx: int,
    dy: int,
    sx: int,
    sy: int,
    err: int,
    color: u32,
    fuel: nat,
) -> Seq<u32>
    decreases fuel,
{
    if fuel == 0 {
        buf
    } else {
        let painted = write_pixel_spec(buf, w, h, x, y, color);
        if x == xe && y == ye {
            painted
        } else {
            let e2 = 2 * err;
            if e2 >= dy && x == xe {
                painted
            } else {
                let x2 = if e2 >= dy {
                    x + sx
                } else {
                    x
                };
                let err2 = if e2 >= dy {
                    err + dy
                } else {
                    err
                };
                if e2 <= dx && y == ye {
                    painted
                } else {
                    let y2 = if e2 <= dx {
                        y + sy
                    } else {
                        y
                    };
                    let err3 = if e2 <= dx {
                        err2 + dx
                    } else {
                        err2
                    };
                    line_walk(
                        painted,
                        w,
                        h,
                        x2,
                        y2,
                        xe,
                        ye,
                        dx,
                        dy,
                        sx,
                        sy,
                        err3,
                        color,
                        (fuel - 1) as nat,
                    )
                }
            }
        }
    }
}

/// The framebuffer after Bresenham's error-accumulation walk from
/// `(x0, y0)` to `(x1, y1)`, each pixel clipped against the canvas.
pub open spec fn line_render(
    buf: Seq<u32>,
    w: int,
    h: int,
    x0: int,
    y0: int,
    x1: int,
    y1: int,
    color: u32,
) -> Seq<u32> {
    let dx = fx_abs(x1 - x0);
    let dy = -fx_abs(y1 - y0);
    line_walk(
        buf,
        w,
        h,
        x0,
        y0,
        x1,
        y1,
        dx,
        dy,
        if x0 < x1 {
            1int
        } else {
            -1int
        },
        if y0 < y1 {
            1int
        } else {
            -1int
        },
        dx + dy,
        color,
        (dx - dy + 1) as nat,
    )
}

impl ConfigGalar {
    /// A line segment by Bresenham's integer error accumulation, each pixel
    /// clipped against the canvas bounds: the framebuffer becomes exactly
    /// [`line_render`] of the old one.  In particular every pixel the walk
    /// touches gets `color`, every touched pixel lies in the bounding box of
    /// the two endpoints, and the starting endpoint is painted whenever it
    /// lies on the canvas.
    pub fn draw_line(&mut self, x0: usize, y0: usize, x1: usize, y1: usize, color: u32)
        requires
            old(self).wf(),
            x0 <= 0x4000_0000,
            y0 <= 0x4000_0000,
            x1 <= 0x4000_0000,
            y1 <= 0x4000_0000,
        ensures
            final(self).wf(),
            Self::same_config(*old(self), *final(self)),
            forall|i: int|
                0 <= i < old(self).pixels().len() ==> {
                    ||| final(self).pixels()[i] == old(self).pixels()[i]
                    ||| {
                        &&& final(self).pixels()[i] == color
                        &&& vstd::math::min(x0 as int, x1 as int) <= i % old(self).width_spec()
                            <= vstd::math::max(x0 as int, x1 as int)
                        &&& vstd::math::min(y0 as int, y1 as int) <= i / old(self).width_spec()
                            <= vstd::math::max(y0 as int, y1 as int)
                    }
                },
            x0 < old(self).width_spec() && y0 < old(self).height_spec() ==> final(self).pixels()[
                y0 * old(self).width_spec() + x0] == color,
            final(self).pixels() == line_render(
                old(self).pixels(),
                old(self).width_spec(),
                old(self).height_spec(),
                x0 as int,
                y0 as int,
                x1 as int,
                y1 as int,
                color,
            ),
    {
        let ghost buf0 = old(self).pixels();
        let ghost w0 = old(self).width_spec();
        let ghost h0 = old(self).height_spec();
        let (wu, hu) = self.size();
        let w = wu as i64;
        let h = hu as i64;
        let xs = x0 as i64;
        let ys = y0 as i64;
        let xe = x1 as i64;
        let ye = y1 as i64;
        let mut cx = xs;
        let mut cy = ys;
        let dx = if xe >= xs {
            xe - xs
        } else {
            xs - xe
        };
        let dy = if ye >= ys {
            -(ye - ys)
        } else {
            -(ys - ye)
        };
        let sx: i64 = if cx < xe {
            1
        } else {
            -1
        };
        let sy: i64 = if cy < ye {
            1
        } else {
            -1
        };
        let mut err = dx + dy;
        let ghost fuel0: nat = (dx - dy + 1) as nat;
        let ghost mut fuel: nat = fuel0;
        let ghost mut painted_start: bool = false;
        loop
            invariant_except_break
                fuel >= vstd::math::max(xe as int, cx as int) - vstd::math::min(
                    xe as int,
                    cx as int,
                ) + vstd::math::max(ye as int, cy as int) - vstd::math::min(ye as int, cy as int)
                    + 1,
                line_walk(
                    buf0,
                    w0,
                    h0,
                    xs as int,
                    ys as int,
                    xe as int,
                    ye as int,
                    dx as int,
                    dy as int,
                    sx as int,
                    sy as int,
                    dx + dy,
                    color,
                    fuel0,
                ) == line_walk(
                    self.pixels(),
                    w0,
                    h0,
                    cx as int,
                    cy as int,
                    xe as int,
                    ye as int,
                    dx as int,
                    dy as int,
                    sx as int,
                    sy as int,
                    err as int,
                    color,
                    fuel,
                ),
            invariant
                self.wf(),
                Self::same_config(*old(self), *self),
                w0 == old(self).width_spec(),
                h0 == old(self).height_spec(),
                w == w0,
                h == h0,
                wu as int == w0,
                hu as int == h0,
                0 <= w0 <= MAX_DIM,
                0 <= h0 <= MAX_DIM,
                buf0 == old(self).pixels(),
                buf0.len() == w0 * h0,
                0 <= xs <= 0x4000_0000,
                0 <= ys <= 0x4000_0000,
                0 <= xe <= 0x4000_0000,
                0 <= ye <= 0x4000_0000,
                xs == x0 && ys == y0 && xe == x1 && ye == y1,
                dx == vstd::math::max(xe as int, xs as int) - vstd::math::min(xe as int, xs as int),
                dy == vstd::math::min(ye as int, ys as int) - vstd::math::max(ye as int, ys as int),
                vstd::math::min(xs as int, xe as int) <= cx
                    <= vstd::math::max(xs as int, xe as int),
                vstd::math::min(ys as int, ye as int) <= cy
                    <= vstd::math::max(ys as int, ye as int),
                sx == 1 || sx == -1,
                sy == 1 || sy == -1,
                xs < xe ==> sx == 1,
                xs >= xe ==> sx == -1,
                ys < ye ==> sy == 1,
                ys >= ye ==> sy == -1,
                2 * dy <= err <= 2 * dx,
                self.pixels().len() == buf0.len(),
                forall|i: int|
                    0 <= i < buf0.len() ==> {
                        ||| self.pixels()[i] == buf0[i]
                        ||| {
                            &&& self.pixels()[i] == color
                            &&& vstd::math::min(x0 as int, x1 as int) <= i % w0
                                <= vstd::math::max(x0 as int, x1 as int)
                            &&& vstd::math::min(y0 as int, y1 as int) <= i / w0
                                <= vstd::math::max(y0 as int, y1 as int)
                        }
                    },
                painted_start ==> (xs < w0 && ys < h0 ==> self.pixels()[ys * w0 + xs] == color),
                !painted_start ==> cx == xs && cy == ys,
                fuel0 == (dx - dy + 1) as nat,
            ensures
                self.wf(),
                Self::same_config(*old(self), *self),
                self.pixels().len() == buf0.len(),
                forall|i: int|
                    0 <= i < buf0.len() ==> {
                        ||| self.pixels()[i] == buf0[i]
                        ||| {
                            &&& self.pixels()[i] == color
                            &&& vstd::math::min(x0 as int, x1 as int) <= i % w0
                                <= vstd::math::max(x0 as int, x1 as int)
                            &&& vstd::math::min(y0 as int, y1 as int) <= i / w0
                                <= vstd::math::max(y0 as int, y1 as int)
                        }
                    },
                xs < w0 && ys < h0 ==> self.pixels()[ys * w0 + xs] == color,
                self.pixels() == line_walk(
                    buf0,
                    w0,
                    h0,
                    xs as int,
                    ys as int,
                    xe as int,
                    ye as int,
                    dx as int,
                    dy as int,
                    sx as int,
                    sy as int,
                    dx + dy,
                    color,
                    fuel0,
                ),
            decreases
                    vstd::math::max(xe as int, cx as int) - vstd::math::min(xe as int, cx as int)
                        + vstd::math::max(ye as int, cy as int) - vstd::math::min(
                        ye as int,
                        cy as int,
                    ),
        {
            let ghost pre = self.pixels();
            let ghost hx = cx as int;
            let ghost hy = cy as int;
            let ghost herr = err as int;
            if cx >= 0 && cx < w && cy >= 0 && cy < h {
                proof {
                    lemma_cell_index_in_range(w0, h0, cx as int, cy as int);
                    assert(w0 * h0 <= MAX_DIM * MAX_DIM) by (nonlinear_arith)
                        requires
                            0 <= w0 <= MAX_DIM,
                            0 <= h0 <= MAX_DIM,
                    ;
                }
                let idx = (cy as usize) * wu + (cx as usize);
                self.explicit_draw(idx, color);
                proof {
                    assert forall|i: int| 0 <= i < buf0.len() implies {
                        ||| self.pixels()[i] == buf0[i]
                        ||| {
                            &&& self.pixels()[i] == color
                            &&& vstd::math::min(x0 as int, x1 as int) <= i % w0
                                <= vstd::math::max(x0 as int, x1 as int)
                            &&& vstd::math::min(y0 as int, y1 as int) <= i / w0
                                <= vstd::math::max(y0 as int, y1 as int)
                        }
                    } by {
                        lemma_row_of_index(i, w0, h0);
                    }
                }
            }
            proof {
                if xs < w0 && ys < h0 {
                    lemma_cell_index_in_range(w0, h0, xs as int, ys as int);
                    assert(w0 * h0 <= MAX_DIM * MAX_DIM) by (nonlinear_arith)
                        requires
                            0 <= w0 <= MAX_DIM,
                            0 <= h0 <= MAX_DIM,
                    ;
                }
                painted_start = true;
                assert(self.pixels() == write_pixel_spec(pre, w0, h0, hx, hy, color));
            }
            if cx == xe && cy == ye {
                proof {
                    assert(line_walk(
                        pre,
                        w0,
                        h0,
                        hx,
                        hy,
                        xe as int,
                        ye as int,
                        dx as int,
                        dy as int,
                        sx as int,
                        sy as int,
                        herr,
                        color,
                        fuel,
                    ) == self.pixels());
                }
                break;
            }
            let e2 = 2 * err;
            if e2 >= dy {
                if cx == xe {
                    proof {
                        assert(line_walk(
                            pre,
                            w0,
                            h0,
                            hx,
                            hy,
                            xe as int,
                            ye as int,
                            dx as int,
                            dy as int,
                            sx as int,
                            sy as int,
                            herr,
                            color,
                            fuel,
                        ) == self.pixels());
                    }
                    break;
                }
                err = err + dy;
                cx = cx + sx;
            }
            if e2 <= dx {
                if cy == ye {
                    proof {
                        assert(line_walk(
                            pre,
                            w0,
                            h0,
                            hx,
                            hy,
                            xe as int,
                            ye as int,
                            dx as int,
                            dy as int,
                            sx as int,
                            sy as int,
                            herr,
                            color,
                            fuel,
                        ) == self.pixels());
                    }
                    break;
                }
                err = err + dx;
                cy = cy + sy;
            }
            proof {
                assert(line_walk(
                    pre,
                    w0,
                    h0,
                    hx,
                    hy,
                    xe as int,
                    ye as int,
                    dx as int,
                    dy as int,
                    sx as int,
                    sy as int,
                    herr,
                    color,
                    fuel,
                ) == line_walk(
                    self.pixels(),
                    w0,
                    h0,
                    cx as int,
                    cy as int,
                    xe as int,
                    ye as int,
                    dx as int,
                    dy as int,
                    sx as int,
                    sy as int,
                    err as int,
                    color,
                    (fuel - 1) as nat,
                ));
                fuel = (fuel - 1) as nat;
            }
        }
    }
}

/// A drawing plugin.  The scheduler owns registered plugins and calls
/// `init` once at registration, `update` once per active frame in
/// registration order, and `cleanup` once at teardown.  An implementation
/// must keep the canvas well formed and must not change its size.
pub trait PluginGalar {
    /// Called once per active frame.
    fn update(&mut self, config: &mut ConfigGalar)
        requires
            old(config).wf(),
        ensures
            final(config).wf(),
            final(config).width_spec() == old(config).width_spec(),
            final(config).height_spec() == old(config).height_spec(),
    ;

    /// Called once at registration, before the first update.
    fn init(&mut self, config: &mut ConfigGalar)
        requires
            old(config).wf(),
        ensures
            final(config).wf(),
            final(config).width_spec() == old(config).width_spec(),
            final(config).height_spec() == old(config).height_spec(),
    {
    }

    /// Called once at teardown.
    fn cleanup(&mut self, config: &mut ConfigGalar)
        requires
            old(config).wf(),
        ensures
            final(config).wf(),
            final(config).width_spec() == old(config).width_spec(),
            final(config).height_spec() == old(config).height_spec(),
    {
    }

    /// The plugin's name, for diagnostics.
    fn name(&self) -> &str {
        "UnnamedPlugin"
    }
}

/// The framebuffer after the conditional clear at the start of an active
/// frame: the background fill when the clean flag is set, untouched
/// otherwise.
pub open spec fn cleared_spec(c: ConfigGalar) -> Seq<u32> {
    if c.clean_spec() {
        Seq::new(c.pixels().len(), |i: int| c.background_spec())
    } else {
        c.pixels()
    }
}

/// The frame-mode transition the scheduler applies after one tick: a single
/// step pauses, the other modes are stable until changed explicitly.
pub open spec fn mode_after_tick(m: FrameMode) -> FrameMode {
    match m {
        FrameMode::SingleStep => FrameMode::Paused,
        _ => m,
    }
}

/// One registered plugin, owned by the scheduler.
struct PluginSlot {
    plugin: Box<dyn PluginGalar>,
}

/// Appends one registered plugin.
fn push_slot(plugins: &mut Vec<PluginSlot>, slot: PluginSlot)
    ensures
        final(plugins)@.len() == old(plugins)@.len() + 1,
{
    plugins.push(slot);
}

/// The engine: one canvas configuration, the registered plugins, and the
/// frame-mode state machine that drives them.
pub struct Galar {
    config: ConfigGalar,
    plugins: Vec<PluginSlot>,
    running: bool,
}

impl Galar {
    /// The canvas is well formed.
    pub open spec fn wf(self) -> bool {
        self.config_spec().wf()
    }

    /// The canvas configuration.
    pub closed spec fn config_spec(self) -> ConfigGalar {
        self.config
    }

    /// How many plugins are registered.
    pub closed spec fn plugins_len(self) -> int {
        self.plugins@.len() as int
    }

    /// Whether the main loop has been asked to keep going.
    pub closed spec fn running_spec(self) -> bool {
        self.running
    }

    /// A fresh engine: a zeroed canvas, no plugins, not yet running.
    pub fn new(width: usize, height: usize) -> (g: Self)
        requires
            width <= MAX_DIM,
            height <= MAX_DIM,
        ensures
            g.wf(),
            g.config_spec().width_spec() == width,
            g.config_spec().height_spec() == height,
            g.config_spec().pixels() =~= Seq::new((width * height) as nat, |i: int| 0u32),
            g.config_spec().clean_spec() == true,
            g.config_spec().background_spec() == 0,
            g.config_spec().frame_mode_spec() == FrameMode::Continuous,
            g.plugins_len() == 0,
            g.running_spec() == false,
    {
        Galar { config: ConfigGalar::new(width, height), plugins: Vec::new(), running: false }
    }

    /// Builder: choose whether frames start from the background color.
    pub fn with_clean_pixels(self, clear: bool) -> (g: Self)
        ensures
            g.config_spec().clean_spec() == clear,
            g.config_spec().pixels() == self.config_spec().pixels(),
            g.config_spec().width_spec() == self.config_spec().width_spec(),
            g.config_spec().height_spec() == self.config_spec().height_spec(),
            g.config_spec().background_spec() == self.config_spec().background_spec(),
            g.config_spec().frame_mode_spec() == self.config_spec().frame_mode_spec(),
            g.plugins_len() == self.plugins_len(),
            g.running_spec() == self.running_spec(),
            g.wf() == self.wf(),
    {
        let mut g = self;
        g.config.set_clean_pixels(clear);
        g
    }

    /// Registers a plugin: its `init` runs once, synchronously, before it
    /// ever receives an update.
    pub fn add_plugin<P: PluginGalar + 'static>(&mut self, plugin: P)
        requires
            old(self).wf(),
        ensures
            final(self).wf(),
            final(self).plugins_len() == old(self).plugins_len() + 1,
            final(self).config_spec().width_spec() == old(self).config_spec().width_spec(),
            final(self).config_spec().height_spec() == old(self).config_spec().height_spec(),
            final(self).running_spec() == old(self).running_spec(),
    {
        let mut plugin = plugin;
        plugin.init(&mut self.config);
        push_slot(&mut self.plugins, PluginSlot { plugin: Box::new(plugin) });
    }

    /// How many plugins are registered.
    pub fn plugin_count(&self) -> (n: usize)
        ensures
            n == self.plugins_len(),
    {
        self.plugins.len()
    }

    /// Asks the main loop to stop after the current tick.
    pub fn stop(&mut self)
        ensures
            final(self).running_spec() == false,
            final(self).config_spec() == old(self).config_spec(),
            final(self).plugins_len() == old(self).plugins_len(),
            final(self).wf() == old(self).wf(),
    {
        self.running = false;
    }

    /// Asks for exactly one more update pass: the next tick runs the plugins
    /// once and then pauses.
    pub fn nonloop(&mut self)
        requires
            old(self).wf(),
        ensures
            final(self).wf(),
            final(self).config_spec().frame_mode_spec() == FrameMode::SingleStep,
            final(self).config_spec().pixels() == old(self).config_spec().pixels(),
            final(self).config_spec().width_spec() == old(self).config_spec().width_spec(),
            final(self).config_spec().height_spec() == old(self).config_spec().height_spec(),
            final(self).plugins_len() == old(self).plugins_len(),
            final(self).running_spec() == old(self).running_spec(),
    {
        self.config.set_frame_mode(FrameMode::SingleStep);
    }

    /// Marks the main loop as running.
    pub fn start(&mut self)
        ensures
            final(self).running_spec() == true,
            final(self).config_spec() == old(self).config_spec(),
            final(self).plugins_len() == old(self).plugins_len(),
            final(self).wf() == old(self).wf(),
    {
        self.running = true;
    }

    /// Whether the main loop has been asked to keep going.
    pub fn is_running(&self) -> (r: bool)
        ensures
            r == self.running_spec(),
    {
        self.running
    }

    /// Records the input state the host polled for this tick, for plugins to
    /// query during their updates.
    pub fn set_input_state(&mut self, pressed_keys: Vec<u32>, mouse_position: Option<(i64, i64)>, display_open: bool)
        ensures
            final(self).config_spec().pressed_keys_spec() == pressed_keys@,
            final(self).config_spec().mouse_spec() == mouse_position,
            final(self).config_spec().display_open_spec() == display_open,
            final(self).config_spec().pixels() == old(self).config_spec().pixels(),
            final(self).config_spec().width_spec() == old(self).config_spec().width_spec(),
            final(self).config_spec().height_spec() == old(self).config_spec().height_spec(),
            final(self).config_spec().clean_spec() == old(self).config_spec().clean_spec(),
            final(self).config_spec().background_spec() == old(self).config_spec().background_spec(),
            final(self).config_spec().frame_mode_spec() == old(self).config_spec().frame_mode_spec(),
            final(self).plugins_len() == old(self).plugins_len(),
            final(self).running_spec() == old(self).running_spec(),
            final(self).wf() == old(self).wf(),
    {
        self.config.set_input_state(pressed_keys, mouse_position, display_open);
    }

    /// A borrowed view of the framebuffer, for presentation to a display.
    pub fn buffer(&self) -> (b: &Vec<u32>)
        ensures
            b@ == self.config_spec().pixels(),
    {
        self.config.buffer()
    }

    /// The canvas size as (width, height).
    pub fn size(&self) -> (s: (usize, usize))
        ensures
            s.0 == self.config_spec().width_spec(),
            s.1 == self.config_spec().height_spec(),
    {
        self.config.size()
    }

    /// One update pass: conditionally clear the canvas, then update every
    /// plugin in registration order.
    fn update_all(&mut self)
        requires
            old(self).wf(),
        ensures
            final(self).wf(),
            final(self).plugins_len() == old(self).plugins_len(),
            final(self).running_spec() == old(self).running_spec(),
            final(self).config_spec().width_spec() == old(self).config_spec().width_spec(),
            final(self).config_spec().height_spec() == old(self).config_spec().height_spec(),
            old(self).plugins_len() == 0 ==> final(self).config_spec().pixels() =~= cleared_spec(
                old(self).config_spec(),
            ),
            old(self).plugins_len() == 0 ==> {
                &&& final(self).config_spec().frame_mode_spec() == old(
                    self,
                ).config_spec().frame_mode_spec()
                &&& final(self).config_spec().clean_spec() == old(self).config_spec().clean_spec()
                &&& final(self).config_spec().background_spec() == old(
                    self,
                ).config_spec().background_spec()
            },
    {
        self.config.clear_buffer();
        let n = self.plugins.len();
        let mut i: usize = 0;
        while i < n
            invariant
                self.config.wf(),
                self.plugins@.len() == n,
                n == old(self).plugins_len(),
                self.config.width_spec() == old(self).config_spec().width_spec(),
                self.config.height_spec() == old(self).config_spec().height_spec(),
                self.running == old(self).running_spec(),
                0 <= i <= n,
                n == 0 ==> self.config.pixels() =~= cleared_spec(old(self).config_spec()),
                n == 0 ==> self.config.frame_mode_spec() == old(self).config_spec().frame_mode_spec()
                    && self.config.clean_spec() == old(self).config_spec().clean_spec()
                    && self.config.background_spec() == old(self).config_spec().background_spec(),
            decreases n - i,
        {
            let p = &mut self.plugins[i];
            p.plugin.update(&mut self.config);
            i = i + 1;
        }
    }

    /// One scheduler tick: in `Continuous` run one update pass; in
    /// `SingleStep` run one pass and pause; in `Paused` touch nothing.  The
    /// caller presents the buffer afterwards either way.
    pub fn tick(&mut self)
        requires
            old(self).wf(),
        ensures
            final(self).wf(),
            final(self).plugins_len() == old(self).plugins_len(),
            final(self).running_spec() == old(self).running_spec(),
            final(self).config_spec().width_spec() == old(self).config_spec().width_spec(),
            final(self).config_spec().height_spec() == old(self).config_spec().height_spec(),
            old(self).config_spec().frame_mode_spec() == FrameMode::SingleStep
                ==> final(self).config_spec().frame_mode_spec() == FrameMode::Paused,
            old(self).config_spec().frame_mode_spec() == FrameMode::Paused ==> final(self).config_spec()
                == old(self).config_spec(),
            old(self).plugins_len() == 0 && old(self).config_spec().frame_mode_spec()
                != FrameMode::Paused ==> final(self).config_spec().pixels() =~= cleared_spec(
                old(self).config_spec(),
            ),
            old(self).plugins_len() == 0 ==> {
                &&& final(self).config_spec().frame_mode_spec() == mode_after_tick(
                    old(self).config_spec().frame_mode_spec(),
                )
                &&& final(self).config_spec().clean_spec() == old(self).config_spec().clean_spec()
                &&& final(self).config_spec().background_spec() == old(
                    self,
                ).config_spec().background_spec()
            },
    {
        match self.config.get_frame_mode() {
            FrameMode::Continuous => self.update_all(),
            FrameMode::SingleStep => {
                self.update_all();
                self.config.set_frame_mode(FrameMode::Paused);
            },
            FrameMode::Paused => {},
        }
    }

    /// Teardown: every plugin's `cleanup` runs exactly once, in registration
    /// order.  Whoever owns the engine calls this on every exit path.
    pub fn cleanup_all(&mut self)
        requires
            old(self).wf(),
        ensures
            final(self).wf(),
            final(self).plugins_len() == old(self).plugins_len(),
            final(self).config_spec().width_spec() == old(self).config_spec().width_spec(),
            final(self).config_spec().height_spec() == old(self).config_spec().height_spec(),
    {
        let n = self.plugins.len();
        let mut i: usize = 0;
        while i < n
            invariant
                self.config.wf(),
                self.plugins@.len() == n,
                self.config.width_spec() == old(self).config_spec().width_spec(),
                self.config.height_spec() == old(self).config_spec().height_spec(),
                0 <= i <= n,
            decreases n - i,
        {
            let p = &mut self.plugins[i];
            p.plugin.cleanup(&mut self.config);
            i = i + 1;
        }
    }
}

/// Law: the frame-mode state machine is stable everywhere but on the single
/// step: one tick from `SingleStep` pauses, and `Continuous` and `Paused`
/// stay what they are until changed explicitly.
pub proof fn lemma_mode_transitions()
    ensures
        mode_after_tick(FrameMode::SingleStep) == FrameMode::Paused,
        mode_after_tick(FrameMode::Continuous) == FrameMode::Continuous,
        mode_after_tick(FrameMode::Paused) == FrameMode::Paused,
        forall|m: FrameMode| mode_after_tick(mode_after_tick(m)) == mode_after_tick(m),
{
}

/// Law: a bounds-checked write at in-range coordinates followed by a read at
/// the same coordinates returns the written color, and leaves every other
/// pixel as it was; at out-of-range coordinates the write leaves the whole
/// buffer unchanged.
pub proof fn lemma_pixel_write_read(buf: Seq<u32>, w: int, h: int, x: int, y: int, color: u32)
    requires
        w >= 0,
        h >= 0,
        buf.len() == w * h,
    ensures
        0 <= x < w && 0 <= y < h ==> {
            &&& write_pixel_spec(buf, w, h, x, y, color)[y * w + x] == color
            &&& forall|i: int|
                0 <= i < buf.len() && i != y * w + x ==> write_pixel_spec(buf, w, h, x, y, color)[i]
                    == buf[i]
        },
        !(0 <= x < w && 0 <= y < h) ==> write_pixel_spec(buf, w, h, x, y, color) == buf,
{
    if 0 <= x < w && 0 <= y < h {
        lemma_index_of_cell(w, x, y);
        assert(y * w + x < w * h) by (nonlinear_arith)
            requires
                0 <= x < w,
                0 <= y < h,
        ;
    }
}

} // verus!
