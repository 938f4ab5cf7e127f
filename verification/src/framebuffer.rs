//! The depth-tested sink that fragments are written to.
use vstd::prelude::*;
use crate::fragment::Fragment;

verus! {

/// The depth of a pixel that nothing has been drawn to: farther than any
/// fragment.
pub const FAR: i64 = 0x7fff_ffff_ffff_ffff;

/// A grid of packed colours with a depth key for every pixel.
#[derive(Debug)]
pub struct Framebuffer {
    pub width: usize,
    pub height: usize,
    /// Packed `0xRRGGBB` colours, row after row from the top.
    pub buffer: Vec<u32>,
    /// The depth key of what each pixel shows.
    pub zbuffer: Vec<i64>,
    pub background_color: u32,
    pub current_color: u32,
}

/// What a framebuffer holds.
pub struct Canvas {
    pub width: int,
    pub height: int,
    pub colors: Seq<u32>,
    pub depths: Seq<i64>,
    pub background_color: u32,
    pub current_color: u32,
}

impl Canvas {
    /// Pixel `(x, y)` lies on the grid.
    pub open spec fn holds(self, x: int, y: int) -> bool {
        0 <= x < self.width && 0 <= y < self.height
    }

    /// The canvas after a write of the current colour at `(x, y, depth)`: no
    /// change off the grid; on it the pixel takes the colour and the depth if
    /// the depth is strictly less than the pixel's.
    pub open spec fn with_point(self, x: int, y: int, depth: i64) -> Canvas {
        let i = y * self.width + x;
        if self.holds(x, y) && depth < self.depths[i] {
            Canvas {
                colors: self.colors.update(i, self.current_color),
                depths: self.depths.update(i, depth),
                ..self
            }
        } else {
            self
        }
    }

    /// The canvas after a fragment has been written in its own colour.
    pub open spec fn with_fragment(self, fragment: Fragment) -> Canvas {
        Canvas { current_color: fragment.color.hex() as u32, ..self }.with_point(
            fragment.x as int,
            fragment.y as int,
            fragment.depth,
        )
    }

    /// The canvas after a series of fragments has been written, one after
    /// the other.
    pub open spec fn with_fragments(self, fragments: Seq<Fragment>) -> Canvas
        decreases fragments.len(),
    {
        if fragments.len() == 0 {
            self
        } else {
            self.with_fragments(fragments.drop_last()).with_fragment(fragments.last())
        }
    }

    /// The canvas with every pixel in one colour and infinitely far.
    pub open spec fn cleared(self, color: u32) -> Canvas {
        Canvas {
            colors: Seq::new(self.colors.len(), |i: int| color),
            depths: Seq::new(self.depths.len(), |i: int| FAR),
            ..self
        }
    }
}

impl Canvas {
    /// Both grids hold exactly `width * height` pixels.
    pub open spec fn wf(self) -> bool {
        &&& 0 <= self.width
        &&& 0 <= self.height
        &&& self.colors.len() == self.width * self.height
        &&& self.depths.len() == self.width * self.height
    }

    /// The fragment falls on pixel index `i` of the grid.
    pub open spec fn lands_on(self, fragment: Fragment, i: int) -> bool {
        self.holds(fragment.x as int, fragment.y as int) && i == fragment.y * self.width + fragment.x
    }

    /// Pixel index `i` shows the nearest of what it showed before and of the
    /// fragments `fragments` that fall on it: its depth is no greater than
    /// any of those, and it is the depth and the colour either of what it
    /// showed or of one of those fragments.
    pub open spec fn shows_nearest(self, before: Canvas, fragments: Seq<Fragment>, i: int) -> bool {
        &&& self.depths[i] <= before.depths[i]
        &&& forall|k: int|
            0 <= k < fragments.len() && before.lands_on(#[trigger] fragments[k], i)
                ==> self.depths[i] <= fragments[k].depth
        &&& {
            ||| self.depths[i] == before.depths[i] && self.colors[i] == before.colors[i]
            ||| exists|k: int|
                0 <= k < fragments.len() && before.lands_on(#[trigger] fragments[k], i)
                    && self.depths[i] == fragments[k].depth && self.colors[i]
                    == fragments[k].color.hex() as u32
        }
    }
}

/// A pixel of the grid has an index inside the grids.
proof fn lemma_pixel_index(canvas: Canvas, x: int, y: int)
    requires
        canvas.wf(),
        canvas.holds(x, y),
    ensures
        0 <= y * canvas.width + x < canvas.width * canvas.height,
{
    assert(0 <= y * canvas.width && y * canvas.width + x < canvas.width * canvas.height)
        by (nonlinear_arith)
        requires
            0 <= x < canvas.width,
            0 <= y < canvas.height,
    ;
}

/// Only the nearest fragment wins: after a series of fragments has been
/// written, every pixel shows the nearest of what it showed before and of the
/// fragments that fell on it, and the grid has kept its size.
pub proof fn lemma_nearest_fragment_wins(canvas: Canvas, fragments: Seq<Fragment>)
    requires
        canvas.wf(),
    ensures
        canvas.with_fragments(fragments).wf(),
        canvas.with_fragments(fragments).width == canvas.width,
        canvas.with_fragments(fragments).height == canvas.height,
        forall|i: int|
            0 <= i < canvas.width * canvas.height ==> #[trigger] canvas.with_fragments(
                fragments,
            ).shows_nearest(canvas, fragments, i),
    decreases fragments.len(),
{
    let after = canvas.with_fragments(fragments);
    if fragments.len() == 0 {
        assert forall|i: int| 0 <= i < canvas.width * canvas.height implies #[trigger] after.shows_nearest(
            canvas,
            fragments,
            i,
        ) by {
        }
    } else {
        let earlier = fragments.drop_last();
        let last = fragments.last();
        lemma_nearest_fragment_wins(canvas, earlier);
        let middle = canvas.with_fragments(earlier);
        if middle.holds(last.x as int, last.y as int) {
            lemma_pixel_index(middle, last.x as int, last.y as int);
        }
        assert forall|i: int| 0 <= i < canvas.width * canvas.height implies #[trigger] after.shows_nearest(
            canvas,
            fragments,
            i,
        ) by {
            assert(middle.shows_nearest(canvas, earlier, i));
            assert forall|k: int|
                0 <= k < fragments.len() && canvas.lands_on(
                    #[trigger] fragments[k],
                    i,
                ) implies after.depths[i] <= fragments[k].depth by {
                if k < earlier.len() {
                    assert(fragments[k] == earlier[k]);
                }
            }
        }
    }
}

impl View for Framebuffer {
    type V = Canvas;

    open spec fn view(&self) -> Canvas {
        Canvas {
            width: self.width as int,
            height: self.height as int,
            colors: self.buffer@,
            depths: self.zbuffer@,
            background_color: self.background_color,
            current_color: self.current_color,
        }
    }
}

/// A vector of `n` copies of a value.
fn filled<T: Copy>(value: T, n: usize) -> (v: Vec<T>)
    ensures
        v@ == Seq::new(n as nat, |i: int| value),
{
    let mut v: Vec<T> = Vec::new();
    let mut i: usize = 0;
    while i < n
        invariant
            i <= n,
            v@ == Seq::new(i as nat, |k: int| value),
        decreases n - i,
    {
        v.push(value);
        i = i + 1;
    }
    v
}

impl Framebuffer {
    /// Both grids hold exactly `width * height` pixels.
    pub open spec fn wf(&self) -> bool {
        &&& self.buffer@.len() == self.width * self.height
        &&& self.zbuffer@.len() == self.width * self.height
    }

    /// A black framebuffer with nothing drawn to it.
    pub fn new(width: usize, height: usize) -> (fb: Framebuffer)
        requires
            width * height <= usize::MAX,
        ensures
            fb.wf(),
            fb.width == width,
            fb.height == height,
            fb.background_color == 0,
            fb.current_color == 0xFF_FFFF,
            fb@.colors == Seq::new((width * height) as nat, |i: int| 0u32),
            fb@.depths == Seq::new((width * height) as nat, |i: int| FAR),
    {
        let n: usize = width * height;
        Framebuffer {
            width,
            height,
            buffer: filled(0u32, n),
            zbuffer: filled(FAR, n),
            background_color: 0,
            current_color: 0xFF_FFFF,
        }
    }

    /// Fills the framebuffer with the background colour and forgets all
    /// depths.
    pub fn clear(&mut self)
        requires
            old(self).wf(),
        ensures
            final(self).wf(),
            final(self)@ == old(self)@.cleared(old(self).background_color),
    {
        let n: usize = self.buffer.len();
        self.buffer = filled(self.background_color, n);
        self.zbuffer = filled(FAR, n);
    }

    /// Fills the framebuffer with a colour and forgets all depths.
    pub fn clear_to_color(&mut self, color: u32)
        requires
            old(self).wf(),
        ensures
            final(self).wf(),
            final(self)@ == old(self)@.cleared(color),
    {
        let n: usize = self.buffer.len();
        self.buffer = filled(color, n);
        self.zbuffer = filled(FAR, n);
    }

    /// Chooses the colour that `clear` fills with.
    pub fn set_background_color(&mut self, color: u32)
        ensures
            final(self)@ == (Canvas { background_color: color, ..old(self)@ }),
            old(self).wf() ==> final(self).wf(),
    {
        self.background_color = color;
    }

    /// Chooses the colour that `point` writes.
    pub fn set_current_color(&mut self, color: u32)
        ensures
            final(self)@ == (Canvas { current_color: color, ..old(self)@ }),
            old(self).wf() ==> final(self).wf(),
    {
        self.current_color = color;
    }

    /// Writes the current colour at `(x, y)` if the pixel lies on the grid
    /// and `depth` is strictly less than the depth the pixel shows.
    pub fn point(&mut self, x: usize, y: usize, depth: i64)
        requires
            old(self).wf(),
        ensures
            final(self).wf(),
            final(self)@ == old(self)@.with_point(x as int, y as int, depth),
    {
        if x < self.width && y < self.height {
            // Reading the length tells that `width * height` fits in a `usize`.
            let _len: usize = self.buffer.len();
            assert(0 <= y * self.width && y * self.width + x < self.width * self.height)
                by (nonlinear_arith)
                requires
                    0 <= x < self.width,
                    0 <= y < self.height,
            ;
            let index: usize = y * self.width + x;
            if depth < self.zbuffer[index] {
                self.buffer.set(index, self.current_color);
                self.zbuffer.set(index, depth);
            }
        }
    }

    /// Writes a fragment in its own colour; a fragment off the grid changes
    /// no pixel.
    pub fn draw(&mut self, fragment: &Fragment)
        requires
            old(self).wf(),
        ensures
            final(self).wf(),
            final(self)@ == old(self)@.with_fragment(*fragment),
    {
        self.current_color = fragment.color.to_hex();
        if fragment.x >= 0 && fragment.y >= 0 {
            self.point(fragment.x as usize, fragment.y as usize, fragment.depth);
        }
    }
}

} // verus!
