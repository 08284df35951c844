//! Rendering into plain pixel buffers: the byte buffer a font engine draws
//! into, and the painting of window backgrounds into a screen-sized pixel
//! buffer. Handing the finished buffer to the display hardware is outside
//! this library.

use vstd::prelude::*;
use crate::ctx::Context;
use crate::window::Window;

verus! {

/// A buffer on which a font can be rendered.
pub struct RenderBuffer {
    /// The width of the buffer in pixels.
    width: usize,
    /// The height of the buffer in pixels.
    height: usize,
    /// The number of channels per pixel.
    channels: usize,
    /// The buffer's data.
    data: Vec<u8>,
}

impl RenderBuffer {
    /// The buffer's bytes.
    pub closed spec fn spec_data(&self) -> Seq<u8> {
        self.data@
    }

    /// The number of channels per pixel.
    pub closed spec fn spec_channels(&self) -> int {
        self.channels as int
    }

    /// Creates a new buffer, cleared to zero.
    ///
    /// Arguments:
    /// - `width` is the width of the buffer in pixels.
    /// - `height` is the height of the buffer in pixels.
    /// - `channels` is the number of channels per pixel.
    pub fn new(width: usize, height: usize, channels: usize) -> (r: Self)
        requires
            width * height <= usize::MAX,
            width * height * channels <= usize::MAX,
        ensures
            r.spec_data().len() == width * height * channels,
            r.spec_channels() == channels,
            forall|i: int| 0 <= i < r.spec_data().len() ==> r.spec_data()[i] == 0,
    {
        let pixels = width * height;
        let len = pixels * channels;
        let mut data: Vec<u8> = Vec::new();
        let mut i: usize = 0;
        while i < len
            invariant
                i <= len,
                data@.len() == i,
                forall|j: int| 0 <= j < i ==> data@[j] == 0,
            decreases len - i,
        {
            data.push(0);
            i = i + 1;
        }
        RenderBuffer { width, height, channels, data }
    }

    /// Clears the buffer with the given color.
    ///
    /// If the given color doesn't match the number of channels, the function
    /// does nothing.
    pub fn clear(&mut self, color: &[u8])
        requires
            old(self).spec_channels() >= 1,
            old(self).spec_data().len() as int % old(self).spec_channels() == 0,
        ensures
            final(self).spec_data().len() == old(self).spec_data().len(),
            final(self).spec_channels() == old(self).spec_channels(),
            color@.len() != old(self).spec_channels() ==> *final(self) == *old(self),
            color@.len() == old(self).spec_channels() ==> forall|i: int|
                0 <= i < final(self).spec_data().len() ==> final(self).spec_data()[i] == color@[i
                    % color@.len() as int],
    {
        if color.len() != self.channels {
            return ;
        }
        let len = self.data.len();
        proof {
            vstd::arithmetic::div_mod::lemma_small_mod(0, color@.len() as nat);
        }
        let mut i: usize = 0;
        while i < len
            invariant
                i <= len,
                len == self.data@.len(),
                self.channels == old(self).spec_channels(),
                self.width == old(self).width,
                self.height == old(self).height,
                color@.len() == self.channels,
                color@.len() >= 1,
                i as int % color@.len() as int == 0,
                len as int % color@.len() as int == 0,
                forall|j: int| 0 <= j < i ==> self.data@[j] == color@[j % color@.len() as int],
            decreases len - i,
        {
            proof {
                let m = color@.len() as int;
                vstd::arithmetic::div_mod::lemma_small_mod(0, m as nat);
                vstd::arithmetic::div_mod::lemma_sub_mod_noop(len as int, i as int, m);
                assert((len - i) % m == 0);
                if len - i < m {
                    vstd::arithmetic::div_mod::lemma_small_mod((len - i) as nat, m as nat);
                    assert(false);
                }
            }
            let mut c: usize = 0;
            while c < color.len()
                invariant
                    c <= color@.len(),
                    color@.len() >= 1,
                    i + color@.len() <= len,
                    len == self.data@.len(),
                    self.channels == old(self).spec_channels(),
                    self.width == old(self).width,
                    self.height == old(self).height,
                    color@.len() == self.channels,
                    i as int % color@.len() as int == 0,
                    len as int % color@.len() as int == 0,
                    forall|j: int| 0 <= j < i + c ==> self.data@[j] == color@[j % color@.len() as int],
                decreases color@.len() - c,
            {
                let v = color[c];
                self.data.set(i + c, v);
                proof {
                    let m = color@.len() as int;
                    vstd::arithmetic::div_mod::lemma_add_mod_noop(i as int, c as int, m);
                    vstd::arithmetic::div_mod::lemma_small_mod(c as nat, m as nat);
                    assert((i + c) as int % m == c as int);
                }
                c = c + 1;
            }
            i = i + color.len();
            proof {
                let m = color@.len() as int;
                vstd::arithmetic::div_mod::lemma_add_mod_noop((i - color@.len()) as int, m, m);
                vstd::arithmetic::div_mod::lemma_mod_self_0(m);
                assert(i as int % m == 0);
            }
        }
    }
}

/// Whether flat pixel index `i` of a row-major buffer `sw` pixels wide lies
/// inside the rectangle spanning columns `xb..xe` and rows `yb..ye`.
pub open spec fn pixel_in_rect(i: int, sw: int, xb: int, xe: int, yb: int, ye: int) -> bool {
    yb <= i / sw < ye && xb <= i % sw < xe
}

/// The half-open span `[at, at + extent)` clamped to `[0, limit)`.
pub open spec fn clamp_span(at: int, extent: int, limit: int) -> (int, int) {
    let b = if at >= 0 {
        at
    } else {
        0
    };
    let e = if at + extent <= limit {
        at + extent
    } else {
        limit
    };
    (b, e)
}

/// The buffer `fb`, row-major and `sw` pixels wide, with every pixel of the
/// given rectangle set to `color`.
pub open spec fn paint_rect(fb: Seq<u32>, sw: int, xb: int, xe: int, yb: int, ye: int, color: u32) -> Seq<u32> {
    Seq::new(fb.len(), |i: int| if pixel_in_rect(i, sw, xb, xe, yb, ye) {
        color
    } else {
        fb[i]
    })
}

/// The buffer after painting the window's background: the window's rectangle
/// placed at the absolute position `(at_x, at_y)`, clamped to the screen,
/// takes the window's background pixel.
pub open spec fn spec_window_background(
    w: Window,
    at_x: int,
    at_y: int,
    sw: int,
    sh: int,
    fb: Seq<u32>,
) -> Seq<u32> {
    let (xb, xe) = clamp_span(at_x, w.spec_rect().width as int, sw);
    let (yb, ye) = clamp_span(at_y, w.spec_rect().height as int, sh);
    paint_rect(fb, sw as int, xb, xe, yb, ye, w.attributes.background_pixel)
}

/// An accumulated window origin, saturated to the 32-bit range: positions
/// beyond it lie off every screen anyway.
pub open spec fn sat_coord(v: int) -> int {
    if v < -0x80000000 {
        -0x80000000
    } else if v > 0x7FFFFFFF {
        0x7FFFFFFF
    } else {
        v
    }
}

/// The buffer after painting the window's subtree, painter's order: the
/// window's own background first — if its class draws — then each child's
/// subtree in list order, each child placed at the window's origin displaced
/// by the child's rectangle. One unit of fuel is spent per level.
pub open spec fn spec_render_tree(
    ws: Seq<Window>,
    w: Window,
    at_x: int,
    at_y: int,
    sw: int,
    sh: int,
    fb: Seq<u32>,
    fuel: nat,
) -> Seq<u32>
    decreases fuel, 0int,
{
    let fb1 = if w.attributes.class is InputOutput {
        spec_window_background(w, at_x, at_y, sw, sh, fb)
    } else {
        fb
    };
    if fuel == 0 {
        fb1
    } else {
        spec_render_children(
            ws,
            w.spec_children(),
            w.spec_children().len() as int,
            at_x,
            at_y,
            sw,
            sh,
            fb1,
            (fuel - 1) as nat,
        )
    }
}

/// The buffer after painting the subtrees of the first `k` children, in
/// order. An id that names no window paints nothing.
pub open spec fn spec_render_children(
    ws: Seq<Window>,
    children: Seq<u32>,
    k: int,
    at_x: int,
    at_y: int,
    sw: int,
    sh: int,
    fb: Seq<u32>,
    fuel: nat,
) -> Seq<u32>
    decreases fuel, k,
{
    if k <= 0 {
        fb
    } else {
        let fb1 = spec_render_children(ws, children, k - 1, at_x, at_y, sw, sh, fb, fuel);
        let c = children[k - 1];
        if crate::ctx::win_has(ws, c) {
            let cw = ws[crate::ctx::win_index(ws, c)];
            spec_render_tree(
                ws,
                cw,
                sat_coord(at_x + cw.spec_rect().x),
                sat_coord(at_y + cw.spec_rect().y),
                sw,
                sh,
                fb1,
                fuel,
            )
        } else {
            fb1
        }
    }
}

/// Saturates an accumulated origin displacement to the 32-bit range.
fn sat_add(a: i64, d: i16) -> (r: i64)
    requires
        -0x80000000 <= a <= 0x7FFFFFFF,
    ensures
        r == sat_coord(a + d),
        -0x80000000 <= r <= 0x7FFFFFFF,
{
    let v = a + d as i64;
    if v < -0x80000000 {
        -0x80000000
    } else if v > 0x7FFFFFFF {
        0x7FFFFFFF
    } else {
        v
    }
}

impl Window {
    /// Renders the window's background with its background pixel: every
    /// pixel of the buffer under the window's rectangle — placed at the
    /// absolute position `(at_x, at_y)` and clamped to the screen — takes
    /// the window's background color; every other pixel keeps its value.
    /// The buffer is row-major, one 32-bit pixel per cell.
    pub fn render_pixel_background(&self, at_x: i64, at_y: i64, sw: u16, sh: u16, fb: &mut Vec<u32>)
        requires
            -0x80000000 <= at_x <= 0x7FFFFFFF,
            -0x80000000 <= at_y <= 0x7FFFFFFF,
            old(fb)@.len() == sw * sh,
        ensures
            final(fb)@.len() == old(fb)@.len(),
            final(fb)@ == spec_window_background(
                *self,
                at_x as int,
                at_y as int,
                sw as int,
                sh as int,
                old(fb)@,
            ),
    {
        let ghost xbg = clamp_span(at_x as int, self.spec_rect().width as int, sw as int).0;
        let ghost xeg = clamp_span(at_x as int, self.spec_rect().width as int, sw as int).1;
        let ghost ybg = clamp_span(at_y as int, self.spec_rect().height as int, sh as int).0;
        let ghost yeg = clamp_span(at_y as int, self.spec_rect().height as int, sh as int).1;
        let rect = self.get_rectangle();
        let xb64: i64 = if at_x >= 0 {
            at_x
        } else {
            0
        };
        let xe64: i64 = {
            let e: i64 = at_x + rect.width as i64;
            if e <= sw as i64 {
                e
            } else {
                sw as i64
            }
        };
        let yb64: i64 = if at_y >= 0 {
            at_y
        } else {
            0
        };
        let ye64: i64 = {
            let e: i64 = at_y + rect.height as i64;
            if e <= sh as i64 {
                e
            } else {
                sh as i64
            }
        };
        let total = fb.len();
        assert(total == sw * sh);
        let color = self.attributes.background_pixel;
        if xb64 >= xe64 || yb64 >= ye64 {
            proof {
                assert(fb@ =~= spec_window_background(
                    *self,
                    at_x as int,
                    at_y as int,
                    sw as int,
                    sh as int,
                    old(fb)@,
                ));
            }
            return ;
        }
        let x_begin: usize = xb64 as usize;
        let x_end: usize = xe64 as usize;
        let y_begin: usize = yb64 as usize;
        let y_end: usize = ye64 as usize;
        let mut y = y_begin;
        while y < y_end
            invariant
                y_begin <= y <= y_end,
                x_begin == xbg && x_end == xeg && y_begin == ybg && y_end == yeg,
                0 <= x_begin < x_end <= sw,
                0 <= y_begin < y_end <= sh,
                fb@.len() == sw * sh,
                sw * sh <= usize::MAX,
                xbg == clamp_span(at_x as int, self.spec_rect().width as int, sw as int).0,
                xeg == clamp_span(at_x as int, self.spec_rect().width as int, sw as int).1,
                ybg == clamp_span(at_y as int, self.spec_rect().height as int, sh as int).0,
                yeg == clamp_span(at_y as int, self.spec_rect().height as int, sh as int).1,
                color == self.attributes.background_pixel,
                forall|i: int|
                    0 <= i < fb@.len() ==> fb@[i] == (if pixel_in_rect(
                        i,
                        sw as int,
                        xbg,
                        xeg,
                        ybg,
                        yeg,
                    ) && i / (sw as int) < y {
                        color
                    } else {
                        old(fb)@[i]
                    }),
            decreases y_end - y,
        {
            let mut x = x_begin;
            while x < x_end
                invariant
                    x_begin <= x <= x_end,
                    x_begin == xbg && x_end == xeg && y_begin == ybg && y_end == yeg,
                    0 <= x_begin < x_end <= sw,
                    0 <= y_begin <= y < y_end <= sh,
                    fb@.len() == sw * sh,
                    sw * sh <= usize::MAX,
                    xbg == clamp_span(at_x as int, self.spec_rect().width as int, sw as int).0,
                    xeg == clamp_span(at_x as int, self.spec_rect().width as int, sw as int).1,
                    ybg == clamp_span(at_y as int, self.spec_rect().height as int, sh as int).0,
                    yeg == clamp_span(at_y as int, self.spec_rect().height as int, sh as int).1,
                    color == self.attributes.background_pixel,
                    forall|i: int|
                        0 <= i < fb@.len() ==> fb@[i] == (if pixel_in_rect(
                            i,
                            sw as int,
                            xbg,
                            xeg,
                            ybg,
                            yeg,
                        ) && (i / (sw as int) < y || (i / (sw as int) == y && i % (sw as int)
                            < x)) {
                            color
                        } else {
                            old(fb)@[i]
                        }),
                decreases x_end - x,
            {
                proof {
                    assert(y * (sw as int) + x < sw * sh) by (nonlinear_arith)
                        requires
                            0 <= (y as int) < (sh as int),
                            0 <= (x as int) < (sw as int),
                    ;
                }
                let idx = y * (sw as usize) + x;
                proof {
                    vstd::arithmetic::div_mod::lemma_fundamental_div_mod_converse(
                        idx as int,
                        sw as int,
                        y as int,
                        x as int,
                    );
                    assert(idx as int / (sw as int) == y as int);
                    assert(idx as int % (sw as int) == x as int);
                }
                fb.set(idx, color);
                proof {
                    assert forall|i: int|
                        0 <= i < fb@.len() && i != idx implies #[trigger] (i / (sw as int))
                        != y as int || i % (sw as int) != x as int by {
                        if i / (sw as int) == y as int && i % (sw as int) == x as int {
                            vstd::arithmetic::div_mod::lemma_fundamental_div_mod(i, sw as int);
                            assert(i == (sw as int) * (y as int) + (x as int));
                            assert((sw as int) * (y as int) == (y as int) * (sw as int))
                                by (nonlinear_arith);
                            assert(i == idx);
                        }
                    }
                }
                x = x + 1;
            }
            y = y + 1;
        }
        proof {
            assert(fb@ =~= spec_window_background(
                *self,
                at_x as int,
                at_y as int,
                sw as int,
                sh as int,
                old(fb)@,
            ));
        }
    }

    /// Renders the window's background at the given absolute position. A
    /// pixmap background is out of this library's scope, so the background
    /// pixel paints the window.
    pub fn render_background(&self, at_x: i64, at_y: i64, sw: u16, sh: u16, fb: &mut Vec<u32>)
        requires
            -0x80000000 <= at_x <= 0x7FFFFFFF,
            -0x80000000 <= at_y <= 0x7FFFFFFF,
            old(fb)@.len() == sw * sh,
        ensures
            final(fb)@.len() == old(fb)@.len(),
            final(fb)@ == spec_window_background(
                *self,
                at_x as int,
                at_y as int,
                sw as int,
                sh as int,
                old(fb)@,
            ),
    {
        self.render_pixel_background(at_x, at_y, sw, sh, fb);
    }

    /// Renders the full window, including children windows, painter's order:
    /// the window's own background first, then each child's subtree, each at
    /// absolute coordinates — this window's origin displaced by the child's
    /// rectangle. The walk spends one unit of fuel per level, so a malformed
    /// graph cannot hold the renderer.
    pub fn render_full(
        &self,
        ctx: &Context,
        at_x: i64,
        at_y: i64,
        sw: u16,
        sh: u16,
        fb: &mut Vec<u32>,
        fuel: usize,
    )
        requires
            ctx.wf(),
            -0x80000000 <= at_x <= 0x7FFFFFFF,
            -0x80000000 <= at_y <= 0x7FFFFFFF,
            old(fb)@.len() == sw * sh,
        ensures
            final(fb)@.len() == old(fb)@.len(),
            final(fb)@ == spec_render_tree(
                ctx.windows@,
                *self,
                at_x as int,
                at_y as int,
                sw as int,
                sh as int,
                old(fb)@,
                fuel as nat,
            ),
        decreases fuel,
    {
        if self.is_output() {
            self.render_background(at_x, at_y, sw, sh, fb);
        }
        if fuel == 0 {
            return ;
        }
        let ghost fb1 = fb@;
        let children = self.get_children();
        let mut k: usize = 0;
        while k < children.len()
            invariant
                ctx.wf(),
                children@ == self.spec_children(),
                k <= children@.len(),
                fb@.len() == sw * sh,
                -0x80000000 <= at_x <= 0x7FFFFFFF,
                -0x80000000 <= at_y <= 0x7FFFFFFF,
                fuel >= 1,
                fb@ == spec_render_children(
                    ctx.windows@,
                    children@,
                    k as int,
                    at_x as int,
                    at_y as int,
                    sw as int,
                    sh as int,
                    fb1,
                    (fuel - 1) as nat,
                ),
            decreases children@.len() - k,
        {
            match ctx.get_window(children[k]) {
                Some(child) => {
                    let cr = child.get_rectangle();
                    let cx = sat_add(at_x, cr.x);
                    let cy = sat_add(at_y, cr.y);
                    child.render_full(ctx, cx, cy, sw, sh, fb, fuel - 1);
                },
                None => {},
            }
            k = k + 1;
        }
    }
}

impl Context {
    /// Renders every screen's window tree into the matching pixel buffer of
    /// `fbs`: each screen's root window, placed at the origin, painted with
    /// its whole subtree. A screen whose root id names no window paints
    /// nothing.
    pub fn render(&self, fbs: &mut Vec<Vec<u32>>)
        requires
            self.wf(),
            old(fbs)@.len() == self.screens@.len(),
            forall|k: int|
                0 <= k < old(fbs)@.len() ==> (#[trigger] old(fbs)@[k])@.len() == self.screens@[k].width
                    * self.screens@[k].height,
        ensures
            final(fbs)@.len() == old(fbs)@.len(),
            forall|k: int|
                0 <= k < final(fbs)@.len() ==> (#[trigger] final(fbs)@[k])@ == spec_render_screen(
                    *self,
                    self.screens@[k],
                    old(fbs)@[k]@,
                ),
    {
        let mut k: usize = 0;
        while k < self.screens.len()
            invariant
                self.wf(),
                fbs@.len() == old(fbs)@.len(),
                fbs@.len() == self.screens@.len(),
                forall|j: int|
                    0 <= j < fbs@.len() ==> (#[trigger] fbs@[j])@.len() == self.screens@[j].width
                        * self.screens@[j].height,
                forall|j: int|
                    k <= j < fbs@.len() ==> (#[trigger] fbs@[j])@ == old(fbs)@[j]@,
                forall|j: int|
                    0 <= j < k ==> (#[trigger] fbs@[j])@ == spec_render_screen(
                        *self,
                        self.screens@[j],
                        old(fbs)@[j]@,
                    ),
            decreases self.screens@.len() - k,
        {
            let root_id = self.screens[k].root_win_id;
            let sw = self.screens[k].width;
            let sh = self.screens[k].height;
            let fuel = self.windows.len();
            match self.get_window(root_id) {
                Some(root) => {
                    let rr = root.get_rectangle();
                    let fb = &mut fbs[k];
                    root.render_full(self, rr.x as i64, rr.y as i64, sw, sh, fb, fuel);
                },
                None => {},
            }
            k = k + 1;
        }
    }
}

/// What rendering one screen leaves in its buffer: the root window's whole
/// subtree, painted from the root's own origin.
pub open spec fn spec_render_screen(ctx: Context, s: crate::ctx::Screen, fb: Seq<u32>) -> Seq<u32> {
    if crate::ctx::win_has(ctx.windows@, s.root_win_id) {
        let root = ctx.windows@[crate::ctx::win_index(ctx.windows@, s.root_win_id)];
        spec_render_tree(
            ctx.windows@,
            root,
            root.spec_rect().x as int,
            root.spec_rect().y as int,
            s.width as int,
            s.height as int,
            fb,
            ctx.windows@.len(),
        )
    } else {
        fb
    }
}

} // verus!
