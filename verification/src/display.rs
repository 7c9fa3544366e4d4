//! The 64x32 monochrome framebuffer and the XOR sprite compositing that the
//! draw opcode uses. Presenting the buffer on a real screen is a front end's
//! job; this module only owns the pixel grid.

use vstd::prelude::*;

verus! {

/// Pixels after XOR-plotting bits `0..i` of one sprite row `row` at columns
/// `x, x+1, ...` (each modulo the screen width) of screen row `yj`, paired
/// with whether any of those plots turned a lit pixel off.
pub open spec fn spec_draw_bits(fb: Seq<bool>, x: int, yj: int, row: u8, i: int) -> (Seq<
    bool,
>, bool)
    decreases i,
{
    if i <= 0 {
        (fb, false)
    } else {
        let r = spec_draw_bits(fb, x, yj, row, i - 1);
        if row & (0x80u8 >> ((i - 1) as u8)) != 0 {
            let p = yj * 64 + (x + (i - 1)) % 64;
            (r.0.update(p, !r.0[p]), r.1 || r.0[p])
        } else {
            r
        }
    }
}

/// Pixels after drawing the first `j` sprite rows, row `k` landing on screen
/// row `(y + k) mod 32`, paired with whether any plot erased a lit pixel.
pub open spec fn spec_draw_rows(fb: Seq<bool>, x: int, y: int, sprite: Seq<u8>, j: int) -> (Seq<
    bool,
>, bool)
    decreases j,
{
    if j <= 0 {
        (fb, false)
    } else {
        let r = spec_draw_rows(fb, x, y, sprite, j - 1);
        let q = spec_draw_bits(r.0, x, (y + (j - 1)) % 32, sprite[j - 1], 8);
        (q.0, r.1 || q.1)
    }
}

/// The framebuffer after drawing the whole sprite at `(x, y)`, and the
/// collision flag: coordinates wrap around the screen edges.
pub open spec fn spec_draw(fb: Seq<bool>, x: int, y: int, sprite: Seq<u8>) -> (Seq<bool>, bool) {
    spec_draw_rows(fb, x, y, sprite, sprite.len() as int)
}

/// The pixel grid, row-major: index `row * 64 + column`. The view is the
/// sequence of its 2048 pixels, `true` meaning lit. `draw_flag` records
/// whether the grid changed since a front end last presented it.
pub struct Display {
    gfx: Vec<bool>,
    draw_flag: bool,
}

impl View for Display {
    type V = Seq<bool>;

    closed spec fn view(&self) -> Seq<bool> {
        self.gfx@
    }
}

impl Display {
    pub open spec fn wf(&self) -> bool {
        self@.len() == 2048
    }

    /// Whether the grid changed since `mark_presented` was last called.
    pub closed spec fn spec_needs_redraw(&self) -> bool {
        self.draw_flag
    }

    /// A display with every pixel off, waiting for a first presentation.
    pub fn new() -> (r: Display)
        ensures
            r.wf(),
            forall|p: int| 0 <= p < 2048 ==> !r@[p],
            r.spec_needs_redraw(),
    {
        Display { gfx: vec![false; 2048], draw_flag: true }
    }

    /// Turn every pixel off.
    pub fn clear(&mut self)
        requires
            old(self).wf(),
        ensures
            final(self).wf(),
            forall|p: int| 0 <= p < 2048 ==> !final(self)@[p],
            final(self).spec_needs_redraw(),
    {
        self.gfx = vec![false; 2048];
        self.draw_flag = true;
    }

    /// The pixel at column `x` of row `y`.
    pub fn pixel(&self, x: usize, y: usize) -> (r: bool)
        requires
            self.wf(),
            x < 64,
            y < 32,
        ensures
            r == self@[y * 64 + x],
    {
        self.gfx[y * 64 + x]
    }

    /// Whether the grid changed since it was last presented.
    pub fn needs_redraw(&self) -> (r: bool)
        ensures
            r == self.spec_needs_redraw(),
    {
        self.draw_flag
    }

    /// A front end calls this after flushing the grid to a screen.
    pub fn mark_presented(&mut self)
        requires
            old(self).wf(),
        ensures
            final(self).wf(),
            final(self)@ == old(self)@,
            !final(self).spec_needs_redraw(),
    {
        self.draw_flag = false;
    }

    /// XOR-plot the sprite rows at `(x, y)`, wrapping around both screen
    /// edges, and report a collision (1 when some plot turned a lit pixel
    /// off, else 0). Sprites taller than the screen would revisit rows, so
    /// the hardware's 15-row limit is relaxed only up to the screen height.
    pub fn draw(&mut self, x: usize, y: usize, sprite: &[u8]) -> (r: u8)
        requires
            old(self).wf(),
            sprite@.len() <= 32,
        ensures
            final(self).wf(),
            ({
                let d = spec_draw(old(self)@, (x as int) % 64, (y as int) % 32, sprite@);
                final(self)@ == d.0 && r == (if d.1 {
                    1u8
                } else {
                    0u8
                })
            }),
            final(self).spec_needs_redraw(),
    {
        let xm = x % 64;
        let ym = y % 32;
        let n = sprite.len();
        let mut collision: u8 = 0;
        let ghost fb0 = self.gfx@;
        let mut j: usize = 0;
        while j < n
            invariant
                self.wf(),
                j <= n,
                n == sprite@.len() <= 32,
                xm == (x as int) % 64,
                ym == (y as int) % 32,
                xm < 64,
                ym < 32,
                fb0.len() == 2048,
                ({
                    let rj = spec_draw_rows(fb0, xm as int, ym as int, sprite@, j as int);
                    self.gfx@ == rj.0 && collision == (if rj.1 {
                        1u8
                    } else {
                        0u8
                    })
                }),
            decreases n - j,
        {
            let row = sprite[j];
            let yj = (ym + j) % 32;
            let ghost fbr = self.gfx@;
            let ghost cr = collision;
            let mut i: usize = 0;
            while i < 8
                invariant
                    self.wf(),
                    i <= 8,
                    j < n,
                    n == sprite@.len(),
                    xm < 64,
                    ym < 32,
                    yj == (ym + j) % 32,
                    yj < 32,
                    row == sprite@[j as int],
                    fbr.len() == 2048,
                    cr == 0 || cr == 1,
                    ({
                        let q = spec_draw_bits(fbr, xm as int, yj as int, row, i as int);
                        self.gfx@ == q.0 && collision == (if cr == 1 || q.1 {
                            1u8
                        } else {
                            0u8
                        })
                    }),
                decreases 8 - i,
            {
                let mask: u8 = 0x80u8 >> (i as u8);
                if row & mask != 0 {
                    let p = yj * 64 + (xm + i) % 64;
                    let cur = self.gfx[p];
                    if cur {
                        collision = 1;
                    }
                    self.gfx[p] = !cur;
                }
                i += 1;
            }
            j += 1;
        }
        self.draw_flag = true;
        collision
    }
}

} // verus!
