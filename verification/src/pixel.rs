//! The off-screen pixel buffer: an RGB color plane and a parallel depth
//! plane with nearest-wins depth testing.

use vstd::prelude::*;

verus! {

/// Depth every pixel is reset to: large enough that any ordinary write wins.
pub const DEFAULT_Z: u64 = 0xffff_ffff_ffff_ffff;

/// One pending pixel write: a target pixel, a depth and a color.
#[derive(Clone, Copy, Debug)]
pub struct PixelWrite {
    pub x: u32,
    pub y: u32,
    pub depth: u64,
    pub color: [u8; 3],
}

/// A width × height color buffer (3 bytes per pixel, row-major) with a
/// parallel depth buffer.
pub struct PixelGrid {
    pub width: u32,
    pub height: u32,
    pub pixel_colors: Vec<u8>,
    pub pixel_zs: Vec<u64>,
}

/// The buffers have the right lengths for the dimensions, and the dimensions
/// are small enough that every byte index fits comfortably.
pub open spec fn grid_wf(g: PixelGrid) -> bool {
    &&& g.width <= 16384
    &&& g.height <= 16384
    &&& g.pixel_zs@.len() == g.width * g.height
    &&& g.pixel_colors@.len() == 3 * g.width * g.height
}

/// Index of pixel (x, y) in the depth plane.
pub open spec fn pidx(g: PixelGrid, x: int, y: int) -> int {
    y * g.width + x
}

/// The stored depth of pixel (x, y).
pub open spec fn depth_at(g: PixelGrid, x: int, y: int) -> int {
    g.pixel_zs@[pidx(g, x, y)] as int
}

/// One stored color byte of pixel (x, y); `c` picks the channel.
pub open spec fn color_at(g: PixelGrid, x: int, y: int, c: int) -> int {
    g.pixel_colors@[3 * pidx(g, x, y) + c] as int
}

/// The write targets pixel (x, y).
pub open spec fn write_matches(w: PixelWrite, x: int, y: int) -> bool {
    w.x == x && w.y == y
}

/// The depth stored at (x, y) after a sequence of writes is folded over an
/// initial depth `cur`: each matching write whose depth is no greater than
/// the running value replaces it.
pub open spec fn run_depth(ws: Seq<PixelWrite>, x: int, y: int, cur: int) -> int
    decreases ws.len(),
{
    if ws.len() == 0 {
        cur
    } else {
        let step = if write_matches(ws[0], x, y) && ws[0].depth <= cur {
            ws[0].depth as int
        } else {
            cur
        };
        run_depth(ws.drop_first(), x, y, step)
    }
}

/// Index of the last write that is adopted at (x, y), or -1 when none is:
/// the write whose color the pixel ends up holding.
pub open spec fn last_adopted(ws: Seq<PixelWrite>, x: int, y: int, init: int) -> int
    decreases ws.len(),
{
    if ws.len() == 0 {
        -1
    } else {
        let k = ws.len() - 1;
        if write_matches(ws[k], x, y) && ws[k].depth <= run_depth(ws.take(k), x, y, init) {
            k
        } else {
            last_adopted(ws.take(k), x, y, init)
        }
    }
}


/// After folding `ws`, pixel (x, y) of `g` holds the folded depth over its
/// initial depth in `init`.
pub open spec fn folded_depth_at(ws: Seq<PixelWrite>, init: PixelGrid, g: PixelGrid, x: int, y: int) -> bool {
    depth_at(g, x, y) == run_depth(ws, x, y, depth_at(init, x, y))
}

/// After folding `ws`, pixel (x, y) of `g` holds the color of the last
/// adopted write, or its initial color in `init` when none was adopted.
pub open spec fn folded_color_at(ws: Seq<PixelWrite>, init: PixelGrid, g: PixelGrid, x: int, y: int) -> bool {
    let li = last_adopted(ws, x, y, depth_at(init, x, y));
    if li == -1 {
        color_at(g, x, y, 0) == color_at(init, x, y, 0) && color_at(g, x, y, 1) == color_at(
            init,
            x,
            y,
            1,
        ) && color_at(g, x, y, 2) == color_at(init, x, y, 2)
    } else {
        color_at(g, x, y, 0) == ws[li].color[0] && color_at(g, x, y, 1) == ws[li].color[1]
            && color_at(g, x, y, 2) == ws[li].color[2]
    }
}

/// Pixel (x, y) holds the same depth and color in `a` and `b`.
pub open spec fn pixel_unchanged(a: PixelGrid, b: PixelGrid, x: int, y: int) -> bool {
    depth_at(b, x, y) == depth_at(a, x, y) && color_at(b, x, y, 0) == color_at(a, x, y, 0)
        && color_at(b, x, y, 1) == color_at(a, x, y, 1) && color_at(b, x, y, 2) == color_at(
        a,
        x,
        y,
        2,
    )
}

/// Distinct in-bounds pixels have distinct indices.
pub proof fn lemma_pidx_injective(g: PixelGrid, x1: int, y1: int, x2: int, y2: int)
    requires
        0 <= x1 < g.width,
        0 <= y1 < g.height,
        0 <= x2 < g.width,
        0 <= y2 < g.height,
        !(x1 == x2 && y1 == y2),
    ensures
        pidx(g, x1, y1) != pidx(g, x2, y2),
{
    assert(y1 * g.width + x1 != y2 * g.width + x2) by (nonlinear_arith)
        requires
            0 <= x1 < g.width,
            0 <= x2 < g.width,
            0 <= y1,
            0 <= y2,
            !(x1 == x2 && y1 == y2),
    ;
}

/// A pixel index is within the depth plane, its byte range within the color
/// plane, and both fit comfortably in a machine word.
pub proof fn lemma_pidx_in_bounds(g: PixelGrid, x: int, y: int)
    requires
        grid_wf(g),
        0 <= x < g.width,
        0 <= y < g.height,
    ensures
        0 <= pidx(g, x, y) < g.width * g.height,
        0 <= 3 * pidx(g, x, y),
        3 * pidx(g, x, y) + 2 < 3 * g.width * g.height,
        pidx(g, x, y) < 0x1000_0000,
{
    assert(0 <= y * g.width + x && y * g.width + x < g.width * g.height && y * g.width + x
        < 0x1000_0000) by (nonlinear_arith)
        requires
            0 <= x < g.width,
            0 <= y < g.height,
            g.width <= 16384,
            g.height <= 16384,
    ;
    assert(3 * (g.width * g.height) == 3 * g.width * g.height) by (nonlinear_arith);
}

impl PixelGrid {
    /// A cleared buffer of the given dimensions.
    pub fn new(width: u32, height: u32) -> (r: PixelGrid)
        requires
            width <= 16384,
            height <= 16384,
        ensures
            grid_wf(r),
            r.width == width,
            r.height == height,
            forall|x: int, y: int|
                0 <= x < width && 0 <= y < height ==> depth_at(r, x, y) == DEFAULT_Z,
            forall|x: int, y: int, c: int|
                0 <= x < width && 0 <= y < height && 0 <= c < 3 ==> color_at(r, x, y, c) == 0,
    {
        proof {
            assert(0 <= (width as int) * (height as int) <= 16384 * 16384) by (nonlinear_arith)
                requires
                    width <= 16384,
                    height <= 16384,
            ;
        }
        let n: usize = (width as usize) * (height as usize);
        let mut pixel_zs: Vec<u64> = Vec::new();
        let mut i: usize = 0;
        while i < n
            invariant
                i <= n,
                pixel_zs@.len() == i,
                forall|k: int| 0 <= k < i ==> pixel_zs@[k] == DEFAULT_Z,
            decreases n - i,
        {
            pixel_zs.push(DEFAULT_Z);
            i += 1;
        }
        let mut pixel_colors: Vec<u8> = Vec::new();
        let mut j: usize = 0;
        while j < 3 * n
            invariant
                n <= 16384 * 16384,
                j <= 3 * n,
                pixel_colors@.len() == j,
                forall|k: int| 0 <= k < j ==> pixel_colors@[k] == 0,
            decreases 3 * n - j,
        {
            pixel_colors.push(0);
            j += 1;
        }
        let r = PixelGrid { width, height, pixel_colors, pixel_zs };
        proof {
            assert(3 * ((width as int) * (height as int)) == 3 * (width as int) * (height as int))
                by (nonlinear_arith);
            assert(grid_wf(r));
            assert forall|x: int, y: int| 0 <= x < width && 0 <= y < height implies depth_at(
                r,
                x,
                y,
            ) == DEFAULT_Z by {
                lemma_pidx_in_bounds(r, x, y);
            }
            assert forall|x: int, y: int, c: int|
                0 <= x < width && 0 <= y < height && 0 <= c < 3 implies color_at(r, x, y, c)
                == 0 by {
                lemma_pidx_in_bounds(r, x, y);
            }
        }
        r
    }

    /// The stored depth of an in-bounds pixel.
    pub fn get_depth(&self, x: u32, y: u32) -> (r: u64)
        requires
            grid_wf(*self),
            x < self.width,
            y < self.height,
        ensures
            r as int == depth_at(*self, x as int, y as int),
    {
        proof {
            lemma_pidx_in_bounds(*self, x as int, y as int);
        }
        let i: usize = (y as usize) * (self.width as usize) + (x as usize);
        self.pixel_zs[i]
    }

    /// The stored color of an in-bounds pixel.
    pub fn get_color(&self, x: u32, y: u32) -> (r: [u8; 3])
        requires
            grid_wf(*self),
            x < self.width,
            y < self.height,
        ensures
            r[0] as int == color_at(*self, x as int, y as int, 0),
            r[1] as int == color_at(*self, x as int, y as int, 1),
            r[2] as int == color_at(*self, x as int, y as int, 2),
    {
        proof {
            lemma_pidx_in_bounds(*self, x as int, y as int);
        }
        let i: usize = (y as usize) * (self.width as usize) + (x as usize);
        [self.pixel_colors[3 * i], self.pixel_colors[3 * i + 1], self.pixel_colors[3 * i + 2]]
    }

    /// Writes a (depth, color) pair at (x, y) with nearest-wins depth
    /// testing: the write is adopted exactly when its depth does not exceed
    /// the stored depth.  No other pixel changes.
    pub fn set_pixel(&mut self, x: u32, y: u32, pixel: (u64, [u8; 3]))
        requires
            grid_wf(*old(self)),
            x < old(self).width,
            y < old(self).height,
        ensures
            grid_wf(*final(self)),
            final(self).width == old(self).width,
            final(self).height == old(self).height,
            pixel.0 > depth_at(*old(self), x as int, y as int) ==> *final(self) == *old(self),
            pixel.0 <= depth_at(*old(self), x as int, y as int) ==> {
                &&& depth_at(*final(self), x as int, y as int) == pixel.0
                &&& color_at(*final(self), x as int, y as int, 0) == pixel.1[0]
                &&& color_at(*final(self), x as int, y as int, 1) == pixel.1[1]
                &&& color_at(*final(self), x as int, y as int, 2) == pixel.1[2]
            },
            forall|x2: int, y2: int|
                0 <= x2 < old(self).width && 0 <= y2 < old(self).height && !(x2 == x && y2 == y)
                    ==> pixel_unchanged(*old(self), *final(self), x2, y2),
    {
        proof {
            lemma_pidx_in_bounds(*self, x as int, y as int);
        }
        let i: usize = (y as usize) * (self.width as usize) + (x as usize);
        let current = self.pixel_zs[i];
        if pixel.0 > current {
            proof {
                assert(*final(self) == *old(self)) by {
                    assert(self.pixel_zs@ =~= old(self).pixel_zs@);
                }
            }
            return ;
        }
        self.pixel_zs[i] = pixel.0;
        self.pixel_colors[3 * i] = pixel.1[0];
        self.pixel_colors[3 * i + 1] = pixel.1[1];
        self.pixel_colors[3 * i + 2] = pixel.1[2];
        proof {
            assert forall|x2: int, y2: int|
                0 <= x2 < old(self).width && 0 <= y2 < old(self).height && !(x2 == x && y2
                    == y) implies pixel_unchanged(*old(self), *self, x2, y2) by {
                lemma_pidx_in_bounds(*old(self), x2, y2);
                lemma_pidx_injective(*old(self), x2, y2, x as int, y as int);
            }
        }
    }

    /// Resets every pixel to black and every depth to [`DEFAULT_Z`].
    pub fn clear(&mut self)
        requires
            grid_wf(*old(self)),
        ensures
            grid_wf(*final(self)),
            final(self).width == old(self).width,
            final(self).height == old(self).height,
            forall|x: int, y: int|
                0 <= x < old(self).width && 0 <= y < old(self).height ==> depth_at(
                    *final(self),
                    x,
                    y,
                ) == DEFAULT_Z,
            forall|x: int, y: int, c: int|
                0 <= x < old(self).width && 0 <= y < old(self).height && 0 <= c < 3 ==> color_at(
                    *final(self),
                    x,
                    y,
                    c,
                ) == 0,
    {
        let zn: usize = self.pixel_zs.len();
        let mut i: usize = 0;
        while i < zn
            invariant
                i <= zn,
                self.pixel_zs@.len() == zn,
                self.pixel_colors@ == old(self).pixel_colors@,
                self.width == old(self).width,
                self.height == old(self).height,
                forall|k: int| 0 <= k < i ==> self.pixel_zs@[k] == DEFAULT_Z,
            decreases zn - i,
        {
            self.pixel_zs[i] = DEFAULT_Z;
            i += 1;
        }
        let cn: usize = self.pixel_colors.len();
        let mut j: usize = 0;
        while j < cn
            invariant
                j <= cn,
                self.pixel_colors@.len() == cn,
                self.pixel_zs@.len() == old(self).pixel_zs@.len(),
                self.width == old(self).width,
                self.height == old(self).height,
                forall|k: int| 0 <= k < self.pixel_zs@.len() ==> self.pixel_zs@[k] == DEFAULT_Z,
                forall|k: int| 0 <= k < j ==> self.pixel_colors@[k] == 0,
            decreases cn - j,
        {
            self.pixel_colors[j] = 0;
            j += 1;
        }
        proof {
            assert forall|x: int, y: int|
                0 <= x < old(self).width && 0 <= y < old(self).height implies depth_at(
                *self,
                x,
                y,
            ) == DEFAULT_Z by {
                lemma_pidx_in_bounds(*self, x, y);
            }
            assert forall|x: int, y: int, c: int|
                0 <= x < old(self).width && 0 <= y < old(self).height && 0 <= c < 3 implies
                color_at(*self, x, y, c) == 0 by {
                lemma_pidx_in_bounds(*self, x, y);
            }
        }
    }

    /// The raw RGB byte plane, row-major, for presentation.
    pub fn get_pixel_data(&self) -> (r: &Vec<u8>)
        ensures
            r@ == self.pixel_colors@,
    {
        &self.pixel_colors
    }

    /// Applies a batch of pixel writes in order, each through the
    /// nearest-wins depth test: afterwards every pixel holds the running
    /// minimum depth of its matching writes, and the color of the last write
    /// adopted there.
    pub fn apply_writes(&mut self, writes: &Vec<PixelWrite>)
        requires
            grid_wf(*old(self)),
            forall|k: int|
                0 <= k < writes@.len() ==> writes@[k].x < old(self).width && writes@[k].y < old(
                    self,
                ).height,
        ensures
            grid_wf(*final(self)),
            final(self).width == old(self).width,
            final(self).height == old(self).height,
            forall|x: int, y: int|
                0 <= x < old(self).width && 0 <= y < old(self).height ==> folded_depth_at(
                    writes@, *old(self), *final(self), x, y)
                    && folded_color_at(writes@, *old(self), *final(self), x, y),
    {
        let n = writes.len();
        let mut i: usize = 0;
        while i < n
            invariant
                grid_wf(*old(self)),
                grid_wf(*self),
                self.width == old(self).width,
                self.height == old(self).height,
                i <= n,
                n == writes@.len(),
                forall|k: int|
                    0 <= k < writes@.len() ==> writes@[k].x < old(self).width && writes@[k].y
                        < old(self).height,
                forall|x: int, y: int|
                    0 <= x < old(self).width && 0 <= y < old(self).height ==> folded_depth_at(
                        writes@.take(i as int), *old(self), *self, x, y)
                        && folded_color_at(writes@.take(i as int), *old(self), *self, x, y),
            decreases n - i,
        {
            let ghost pre = *self;
            let w = writes[i];
            self.set_pixel(w.x, w.y, (w.depth, w.color));
            proof {
                lemma_apply_step(writes@.take(i as int), w, *old(self), pre, *self);
                assert(writes@.take(i + 1) =~= writes@.take(i as int).push(w));
            }
            i += 1;
        }
        proof {
            assert(writes@.take(n as int) =~= writes@);
        }
    }
}

/// One `set_pixel` step extends the fold over a prefix of writes by one.
proof fn lemma_apply_step(ws: Seq<PixelWrite>, w: PixelWrite, init: PixelGrid, pre: PixelGrid, post: PixelGrid)
    requires
        init.width == pre.width && init.height == pre.height,
        pre.width == post.width && pre.height == post.height,
        grid_wf(init),
        grid_wf(pre),
        grid_wf(post),
        w.x < init.width && w.y < init.height,
        // the invariant before the step
        forall|x: int, y: int|
            0 <= x < init.width && 0 <= y < init.height ==> folded_depth_at(ws, init, pre, x, y)
                && folded_color_at(ws, init, pre, x, y),
        // what set_pixel did
        w.depth > depth_at(pre, w.x as int, w.y as int) ==> post == pre,
        w.depth <= depth_at(pre, w.x as int, w.y as int) ==> {
            &&& depth_at(post, w.x as int, w.y as int) == w.depth
            &&& color_at(post, w.x as int, w.y as int, 0) == w.color[0]
            &&& color_at(post, w.x as int, w.y as int, 1) == w.color[1]
            &&& color_at(post, w.x as int, w.y as int, 2) == w.color[2]
        },
        forall|x2: int, y2: int|
            0 <= x2 < pre.width && 0 <= y2 < pre.height && !(x2 == w.x && y2 == w.y)
                ==> pixel_unchanged(pre, post, x2, y2),
    ensures
        forall|x: int, y: int|
            0 <= x < init.width && 0 <= y < init.height ==> folded_depth_at(ws.push(w), init,
                post, x, y) && folded_color_at(ws.push(w), init, post, x, y),
{
    let n = ws.len() as int;
    assert forall|x: int, y: int| 0 <= x < init.width && 0 <= y < init.height implies
        folded_depth_at(ws.push(w), init, post, x, y) && folded_color_at(ws.push(w), init, post,
        x, y) by {
        let d0 = depth_at(init, x, y);
        let s1 = ws.push(w);
        assert(s1.take(n) =~= ws);
        assert(folded_depth_at(ws, init, pre, x, y));
        assert(folded_color_at(ws, init, pre, x, y));
        let d_pre = run_depth(ws, x, y, d0);
        lemma_run_depth_snoc(ws, w, x, y, d0);
        lemma_last_adopted_range(ws, x, y, d0);
        assert(s1[n] == w);
        assert(forall|j: int| 0 <= j < n ==> s1[j] == ws[j]);
        let li0 = last_adopted(ws, x, y, d0);
        if x == w.x && y == w.y {
            assert(write_matches(w, x, y));
            assert(depth_at(pre, x, y) == d_pre);
            if w.depth <= d_pre {
                assert(run_depth(s1, x, y, d0) == w.depth);
                assert(depth_at(post, x, y) == w.depth);
                assert(last_adopted(s1, x, y, d0) == n);
                assert(folded_color_at(s1, init, post, x, y));
            } else {
                assert(post == pre);
                assert(run_depth(s1, x, y, d0) == d_pre);
                assert(last_adopted(s1, x, y, d0) == li0);
                assert(folded_color_at(s1, init, post, x, y));
            }
        } else {
            assert(!write_matches(w, x, y));
            assert(pixel_unchanged(pre, post, x, y));
            assert(run_depth(s1, x, y, d0) == d_pre);
            assert(last_adopted(s1, x, y, d0) == li0);
            assert(folded_color_at(s1, init, post, x, y));
        }
    }
}

/// Folding one more write is one conditional step on the folded value.
proof fn lemma_run_depth_snoc(ws: Seq<PixelWrite>, w: PixelWrite, x: int, y: int, cur: int)
    ensures
        run_depth(ws.push(w), x, y, cur) == {
            let d = run_depth(ws, x, y, cur);
            if write_matches(w, x, y) && w.depth <= d {
                w.depth as int
            } else {
                d
            }
        },
    decreases ws.len(),
{
    let s1 = ws.push(w);
    assert(s1.len() == ws.len() + 1);
    if ws.len() == 0 {
        assert(s1[0] == w);
        let step = if write_matches(s1[0], x, y) && s1[0].depth <= cur {
            s1[0].depth as int
        } else {
            cur
        };
        assert(s1.drop_first() =~= Seq::<PixelWrite>::empty());
        assert(run_depth(s1, x, y, cur) == run_depth(s1.drop_first(), x, y, step));
        assert(run_depth(s1.drop_first(), x, y, step) == step);
        assert(run_depth(ws, x, y, cur) == cur);
    } else {
        assert(s1[0] == ws[0]);
        let step = if write_matches(ws[0], x, y) && ws[0].depth <= cur {
            ws[0].depth as int
        } else {
            cur
        };
        assert(s1.drop_first() =~= ws.drop_first().push(w));
        assert(run_depth(s1, x, y, cur) == run_depth(s1.drop_first(), x, y, step));
        lemma_run_depth_snoc(ws.drop_first(), w, x, y, step);
        assert(run_depth(ws, x, y, cur) == run_depth(ws.drop_first(), x, y, step));
    }
}

/// The last adopted index is either -1 or a matching in-range index.
pub proof fn lemma_last_adopted_range(ws: Seq<PixelWrite>, x: int, y: int, init: int)
    ensures
        ({
            let li = last_adopted(ws, x, y, init);
            li == -1 || (0 <= li < ws.len() && write_matches(ws[li], x, y))
        }),
    decreases ws.len(),
{
    if ws.len() > 0 {
        let k = ws.len() - 1;
        if !(write_matches(ws[k], x, y) && ws[k].depth <= run_depth(ws.take(k), x, y, init)) {
            lemma_last_adopted_range(ws.take(k), x, y, init);
        }
    }
}

/// The depth-buffer law: after folding any batch of writes over an initial
/// depth, the stored depth is the minimum of the initial depth and every
/// matching write's depth, and when any write was adopted the stored color
/// is that of an adopted write whose depth equals the stored depth.
pub proof fn lemma_depth_buffer_nearest_wins(ws: Seq<PixelWrite>, x: int, y: int, init: int)
    ensures
        run_depth(ws, x, y, init) <= init,
        forall|k: int|
            0 <= k < ws.len() && write_matches(ws[k], x, y) ==> run_depth(ws, x, y, init)
                <= ws[k].depth,
        ({
            let li = last_adopted(ws, x, y, init);
            if li == -1 {
                run_depth(ws, x, y, init) == init
            } else {
                0 <= li < ws.len() && write_matches(ws[li], x, y) && ws[li].depth as int
                    == run_depth(ws, x, y, init)
            }
        }),
    decreases ws.len(),
{
    if ws.len() == 0 {
    } else {
        let k = ws.len() - 1;
        let s = ws.take(k);
        let w = ws[k];
        assert(ws =~= s.push(w));
        lemma_run_depth_snoc(s, w, x, y, init);
        lemma_depth_buffer_nearest_wins(s, x, y, init);
        assert(forall|j: int| 0 <= j < k ==> ws[j] == s[j]);
    }
}

} // verus!
