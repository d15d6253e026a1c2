//! The monochrome pixel grid: clearing, sprite drawing with collision
//! detection, and conversion to an RGBA frame.

use vstd::prelude::*;
use vstd::arithmetic::div_mod::{lemma_fundamental_div_mod, lemma_fundamental_div_mod_converse};

verus! {

/// The colour of a lit pixel, as red, green, blue, alpha.
pub const FOREGROUND: [u8; 4] = [0xF0, 0x90, 0xF0, 0xFF];

/// The colour of an unlit pixel, as red, green, blue, alpha.
pub const BACKGROUND: [u8; 4] = [0x50, 0x50, 0x50, 0xFF];

/// The four bytes that a pixel contributes to a frame.
pub open spec fn shade(on: bool) -> Seq<u8> {
    if on {
        seq![0xF0u8, 0x90u8, 0xF0u8, 0xFFu8]
    } else {
        seq![0x50u8, 0x50u8, 0x50u8, 0xFFu8]
    }
}

/// Whether a sprite is opaque `dc` columns right of and `dr` rows below its
/// top-left corner. Each sprite byte is one row of eight pixels, most
/// significant bit leftmost.
pub open spec fn sprite_bit(sprite: Seq<u8>, dc: int, dr: int) -> bool {
    &&& 0 <= dr < sprite.len()
    &&& 0 <= dc < 8
    &&& sprite[dr] & (0x80u8 >> (dc as u8)) != 0
}

/// Whether cell (`col`, `row`) comes before cell (`col_end`, `row_end`) in
/// row-major order.
spec fn precedes(col: int, row: int, col_end: int, row_end: int) -> bool {
    row < row_end || (row == row_end && col < col_end)
}

/// The mathematical picture of a display: `height` rows of `width` pixels,
/// the first row at the top and the first pixel of a row at the left.
pub struct Screen {
    pub width: nat,
    pub height: nat,
    pub rows: Seq<Seq<bool>>,
}

impl Screen {
    /// Every row is present and has the full width.
    pub open spec fn wf(self) -> bool {
        &&& self.rows.len() == self.height
        &&& forall|r: int| 0 <= r < self.height ==> (#[trigger] self.rows[r]).len() == self.width
    }

    /// Whether (`col`, `row`) names a pixel of this screen.
    pub open spec fn contains(self, col: int, row: int) -> bool {
        0 <= col < self.width && 0 <= row < self.height
    }

    /// The state of the pixel in column `col` of row `row`.
    pub open spec fn at(self, col: int, row: int) -> bool {
        self.rows[row][col]
    }

    /// A screen of the given size with every pixel off.
    pub open spec fn blank(width: nat, height: nat) -> Screen {
        Screen {
            width,
            height,
            rows: Seq::new(height, |r: int| Seq::new(width, |c: int| false)),
        }
    }

    /// This screen with every pixel turned off.
    pub open spec fn cleared(self) -> Screen {
        Screen::blank(self.width, self.height)
    }

    /// The column in which a sprite drawn at horizontal coordinate `x` starts.
    pub open spec fn start_col(self, x: u8) -> int {
        if self.width == 0 {
            0
        } else {
            x as int % self.width as int
        }
    }

    /// The row in which a sprite drawn at vertical coordinate `y` starts.
    pub open spec fn start_row(self, y: u8) -> int {
        if self.height == 0 {
            0
        } else {
            y as int % self.height as int
        }
    }

    /// Whether `sprite`, drawn at coordinates (`x`, `y`), is opaque over the
    /// cell (`col`, `row`). The start wraps around the screen; the sprite
    /// itself does not, so cells past the right or bottom edge are never hit.
    pub open spec fn inked(self, x: u8, y: u8, sprite: Seq<u8>, col: int, row: int) -> bool {
        sprite_bit(sprite, col - self.start_col(x), row - self.start_row(y))
    }

    /// The screen after `sprite` has been drawn at (`x`, `y`): every pixel
    /// under an opaque sprite bit is flipped, every other pixel is kept.
    pub open spec fn blit(self, x: u8, y: u8, sprite: Seq<u8>) -> Screen {
        Screen {
            width: self.width,
            height: self.height,
            rows: Seq::new(
                self.height,
                |r: int|
                    Seq::new(
                        self.width,
                        |c: int| self.at(c, r) != self.inked(x, y, sprite, c, r),
                    ),
            ),
        }
    }

    /// Whether drawing `sprite` at (`x`, `y`) turns some lit pixel off.
    pub open spec fn collides(self, x: u8, y: u8, sprite: Seq<u8>) -> bool {
        exists|c: int, r: int|
            self.contains(c, r) && self.at(c, r) && #[trigger] self.inked(x, y, sprite, c, r)
    }

    /// Whether the screen has a cell numbered `cell`, counting row by row
    /// from the top-left corner.
    pub open spec fn has_cell(self, cell: int) -> bool {
        0 <= cell && self.width > 0 && cell / (self.width as int) < self.height
    }

    /// The state of the pixel numbered `cell` in row-major order.
    pub open spec fn cell(self, cell: int) -> bool {
        self.at(cell % (self.width as int), cell / (self.width as int))
    }

    /// The frame that results from painting this screen over `before`: the
    /// `i`-th group of four bytes takes the colour of cell `i`, for every
    /// cell that the screen has and that fits in the frame whole; every
    /// other byte is kept.
    pub open spec fn frame(self, before: Seq<u8>) -> Seq<u8> {
        Seq::new(
            before.len(),
            |j: int|
                if self.has_cell(j / 4) && 4 * (j / 4) + 4 <= before.len() {
                    shade(self.cell(j / 4))[j % 4]
                } else {
                    before[j]
                },
        )
    }
}

/// Cell (`c`, `r`) of a `w` by `h` grid has a row-major index inside the
/// grid, from which column and row can be recovered.
proof fn lemma_cell_index(w: int, h: int, c: int, r: int)
    requires
        0 <= c < w,
        0 <= r < h,
    ensures
        0 <= r * w <= r * w + c < h * w,
        (r * w + c) / w == r,
        (r * w + c) % w == c,
{
    assert(0 <= r * w && (r + 1) * w <= h * w && (r + 1) * w == r * w + w) by (nonlinear_arith)
        requires
            0 <= r < h,
            0 < w,
    ;
    lemma_fundamental_div_mod_converse(r * w + c, w, r, c);
}

/// A row-major index splits into a column and a row, and lies inside a `w`
/// by `h` grid exactly if the row does.
proof fn lemma_index_cell(w: int, h: int, i: int)
    requires
        0 < w,
        0 <= h,
        0 <= i,
    ensures
        0 <= i % w < w,
        0 <= i / w,
        (i / w) * w + i % w == i,
        i < h * w <==> i / w < h,
{
    lemma_fundamental_div_mod(i, w);
    let q = i / w;
    assert(q * w == w * q) by (nonlinear_arith);
    assert(0 <= q) by (nonlinear_arith)
        requires
            0 < w,
            0 <= i,
            q * w + i % w == i,
            0 <= i % w < w,
    ;
    if q < h {
        assert((q + 1) * w <= h * w && (q + 1) * w == q * w + w) by (nonlinear_arith)
            requires
                q < h,
                0 < w,
        ;
    } else {
        assert(h * w <= q * w) by (nonlinear_arith)
            requires
                h <= q,
                0 < w,
        ;
    }
}

impl Screen {
    /// The cells that a screen has are those numbered from zero up to, not
    /// including, width times height.
    pub proof fn lemma_has_cell(self, cell: int)
        ensures
            self.has_cell(cell) <==> 0 <= cell < self.width * self.height,
    {
        let w = self.width as int;
        let h = self.height as int;
        if w > 0 && cell >= 0 {
            lemma_index_cell(w, h, cell);
            assert(h * w == w * h) by (nonlinear_arith);
        } else if w == 0 {
            assert(w * h == 0) by (nonlinear_arith)
                requires
                    w == 0,
            ;
        } else {
            assert(0 <= w * h) by (nonlinear_arith)
                requires
                    0 <= w,
                    0 <= h,
            ;
        }
    }
}

/// Whether drawing `sprite` at (`x`, `y`) turns off some lit pixel among the
/// cells that come before (`col_end`, `row_end`).
spec fn collides_before(
    s: Screen,
    x: u8,
    y: u8,
    sprite: Seq<u8>,
    col_end: int,
    row_end: int,
) -> bool {
    exists|c: int, r: int|
        s.contains(c, r) && s.at(c, r) && #[trigger] s.inked(x, y, sprite, c, r) && precedes(
            c,
            r,
            col_end,
            row_end,
        )
}

/// What the pixel at (`c`, `r`) shows once the cells before (`col_end`,
/// `row_end`) have been drawn.
spec fn drawn_before(
    s: Screen,
    x: u8,
    y: u8,
    sprite: Seq<u8>,
    c: int,
    r: int,
    col_end: int,
    row_end: int,
) -> bool {
    s.at(c, r) != (s.inked(x, y, sprite, c, r) && precedes(c, r, col_end, row_end))
}

/// Moving the end past one more cell adds that cell's collision.
proof fn lemma_collides_next(s: Screen, x: u8, y: u8, sprite: Seq<u8>, col: int, row: int)
    requires
        s.contains(col, row),
    ensures
        collides_before(s, x, y, sprite, col + 1, row) == (collides_before(s, x, y, sprite, col, row)
            || (s.at(col, row) && s.inked(x, y, sprite, col, row))),
{
    if collides_before(s, x, y, sprite, col, row) {
        let (c, r) = choose|c: int, r: int|
            s.contains(c, r) && s.at(c, r) && #[trigger] s.inked(x, y, sprite, c, r) && precedes(
                c,
                r,
                col,
                row,
            );
        assert(s.inked(x, y, sprite, c, r) && precedes(c, r, col + 1, row));
    }
    if s.at(col, row) && s.inked(x, y, sprite, col, row) {
        assert(precedes(col, row, col + 1, row));
    }
    if collides_before(s, x, y, sprite, col + 1, row) {
        let (c, r) = choose|c: int, r: int|
            s.contains(c, r) && s.at(c, r) && #[trigger] s.inked(x, y, sprite, c, r) && precedes(
                c,
                r,
                col + 1,
                row,
            );
        if !(c == col && r == row) {
            assert(s.inked(x, y, sprite, c, r) && precedes(c, r, col, row));
        }
    }
}

/// Two ends with the same opaque cells before them see the same collisions.
proof fn lemma_collides_same(
    s: Screen,
    x: u8,
    y: u8,
    sprite: Seq<u8>,
    col_a: int,
    row_a: int,
    col_b: int,
    row_b: int,
)
    requires
        forall|c: int, r: int|
            s.contains(c, r) && #[trigger] s.inked(x, y, sprite, c, r) ==> (precedes(
                c,
                r,
                col_a,
                row_a,
            ) == precedes(c, r, col_b, row_b)),
    ensures
        collides_before(s, x, y, sprite, col_a, row_a) == collides_before(
            s,
            x,
            y,
            sprite,
            col_b,
            row_b,
        ),
{
    if collides_before(s, x, y, sprite, col_a, row_a) {
        let (c, r) = choose|c: int, r: int|
            s.contains(c, r) && s.at(c, r) && #[trigger] s.inked(x, y, sprite, c, r) && precedes(
                c,
                r,
                col_a,
                row_a,
            );
        assert(s.inked(x, y, sprite, c, r) && precedes(c, r, col_b, row_b));
    }
    if collides_before(s, x, y, sprite, col_b, row_b) {
        let (c, r) = choose|c: int, r: int|
            s.contains(c, r) && s.at(c, r) && #[trigger] s.inked(x, y, sprite, c, r) && precedes(
                c,
                r,
                col_b,
                row_b,
            );
        assert(s.inked(x, y, sprite, c, r) && precedes(c, r, col_a, row_a));
    }
}

/// An end that every opaque cell comes before sees all collisions.
proof fn lemma_collides_all(s: Screen, x: u8, y: u8, sprite: Seq<u8>, col_end: int, row_end: int)
    requires
        forall|c: int, r: int|
            s.contains(c, r) && #[trigger] s.inked(x, y, sprite, c, r) ==> precedes(
                c,
                r,
                col_end,
                row_end,
            ),
    ensures
        collides_before(s, x, y, sprite, col_end, row_end) == s.collides(x, y, sprite),
{
    if collides_before(s, x, y, sprite, col_end, row_end) {
        let (c, r) = choose|c: int, r: int|
            s.contains(c, r) && s.at(c, r) && #[trigger] s.inked(x, y, sprite, c, r) && precedes(
                c,
                r,
                col_end,
                row_end,
            );
        assert(s.contains(c, r) && s.at(c, r) && s.inked(x, y, sprite, c, r));
    }
    if s.collides(x, y, sprite) {
        let (c, r) = choose|c: int, r: int|
            s.contains(c, r) && s.at(c, r) && #[trigger] s.inked(x, y, sprite, c, r);
        assert(s.inked(x, y, sprite, c, r) && precedes(c, r, col_end, row_end));
    }
}

/// A rectangular grid of pixels, each on or off.
///
/// Its view is the [`Screen`] it shows.
#[derive(Debug)]
pub struct Display {
    width: usize,
    height: usize,
    pixels: Vec<bool>,
}

impl View for Display {
    type V = Screen;

    closed spec fn view(&self) -> Screen {
        Screen {
            width: self.width as nat,
            height: self.height as nat,
            rows: Seq::new(
                self.height as nat,
                |r: int| Seq::new(self.width as nat, |c: int| self.lamp(c, r)),
            ),
        }
    }
}

impl Display {
    #[verifier::type_invariant]
    spec fn inv(self) -> bool {
        self.pixels.len() == self.height * self.width
    }

    /// The stored state of the pixel in column `c` of row `r`.
    spec fn lamp(self, c: int, r: int) -> bool {
        self.pixels@[r * self.width + c]
    }

    /// The view of a display is always a well-formed screen.
    pub proof fn lemma_view_wf(self)
        ensures
            self@.wf(),
    {
    }

    /// A display of `width` by `height` pixels, all off.
    pub fn new(width: usize, height: usize) -> (d: Self)
        requires
            width * height <= usize::MAX,
        ensures
            d@ == Screen::blank(width as nat, height as nat),
    {
        assert(height * width == width * height) by (nonlinear_arith);
        let d = Display { width, height, pixels: vec![false; width * height] };
        proof {
            assert forall|r: int| 0 <= r < height implies #[trigger] d@.rows[r] == Seq::new(
                width as nat,
                |c: int| false,
            ) by {
                assert forall|c: int| 0 <= c < width implies #[trigger] d.lamp(c, r) == false by {
                    lemma_cell_index(width as int, height as int, c, r);
                }
                assert(d@.rows[r] =~= Seq::new(width as nat, |c: int| false));
            }
            assert(d@.rows =~= Screen::blank(width as nat, height as nat).rows);
        }
        d
    }

    /// The number of pixels in a row.
    pub fn width(&self) -> (w: usize)
        ensures
            w == self@.width,
    {
        self.width
    }

    /// The number of rows.
    pub fn height(&self) -> (h: usize)
        ensures
            h == self@.height,
    {
        self.height
    }

    /// The state of the pixel in column `col` of row `row`, or `None` if the
    /// display has no such pixel.
    pub fn pixel(&self, col: usize, row: usize) -> (p: Option<bool>)
        ensures
            p == if self@.contains(col as int, row as int) {
                Some(self@.at(col as int, row as int))
            } else {
                None
            },
    {
        proof {
            use_type_invariant(self);
        }
        if col < self.width && row < self.height {
            proof {
                lemma_cell_index(self.width as int, self.height as int, col as int, row as int);
            }
            Some(self.pixels[row * self.width + col])
        } else {
            None
        }
    }

    /// Turns every pixel off.
    pub fn clear(&mut self)
        ensures
            final(self)@ == old(self)@.cleared(),
    {
        proof {
            use_type_invariant(&*self);
        }
        let n = self.pixels.len();
        let mut i: usize = 0;
        while i < n
            invariant
                i <= n,
                n == self.pixels@.len(),
                n == self.height * self.width,
                self.width == old(self).width,
                self.height == old(self).height,
                forall|k: int| 0 <= k < i ==> self.pixels@[k] == false,
            decreases n - i,
        {
            self.pixels[i] = false;
            i = i + 1;
        }
        proof {
            let w = self.width as int;
            let h = self.height as int;
            assert forall|r: int| 0 <= r < h implies #[trigger] self@.rows[r] == Seq::new(
                w as nat,
                |c: int| false,
            ) by {
                assert forall|c: int| 0 <= c < w implies #[trigger] self.lamp(c, r) == false by {
                    lemma_cell_index(w, h, c, r);
                }
                assert(self@.rows[r] =~= Seq::new(w as nat, |c: int| false));
            }
            assert(self@.rows =~= old(self)@.cleared().rows);
        }
    }

    /// Draws `sprite` with its top-left corner at column `x` modulo the width
    /// and row `y` modulo the height. Each opaque sprite bit flips the pixel
    /// under it; what would fall beyond the right or bottom edge is dropped.
    /// Returns whether some pixel went from on to off.
    pub fn blit(&mut self, x: u8, y: u8, sprite: &[u8]) -> (hit: bool)
        ensures
            final(self)@ == old(self)@.blit(x, y, sprite@),
            hit == old(self)@.collides(x, y, sprite@),
    {
        proof {
            use_type_invariant(&*self);
        }
        let ghost before = self@;
        let ghost ink = sprite@;
        if self.width == 0 || self.height == 0 {
            proof {
                assert forall|r: int| 0 <= r < before.height implies #[trigger] self@.rows[r]
                    =~= before.blit(x, y, ink).rows[r] by {}
                assert(self@.rows =~= before.blit(x, y, ink).rows);
            }
            return false;
        }
        let width = self.width;
        let height = self.height;
        let col0: usize = (x as usize) % width;
        let row0: usize = (y as usize) % height;
        assert(row0 <= 255) by (nonlinear_arith)
            requires
                row0 == (y as int) % (height as int),
                0 <= y <= 255,
                0 < height,
        ;
        let mut hit = false;
        let mut i: usize = 0;
        while i < sprite.len() && row0 + i < height
            invariant
                self.width == width,
                self.height == height,
                self.pixels.len() == height * width,
                before.width == width,
                before.height == height,
                ink == sprite@,
                col0 == before.start_col(x),
                row0 == before.start_row(y),
                col0 < width,
                row0 <= 255,
                i <= sprite.len(),
                row0 + i <= height,
                forall|c: int, r: int|
                    0 <= c < width && 0 <= r < height ==> #[trigger] self.lamp(c, r)
                        == drawn_before(before, x, y, ink, c, r, 0, row0 + i),
                hit == collides_before(before, x, y, ink, 0, row0 + i),
            decreases sprite.len() - i,
        {
            let row: usize = row0 + i;
            let data: u8 = sprite[i];
            let mut dc: usize = 0;
            while dc < 8 && col0 + dc < width
                invariant
                    self.width == width,
                    self.height == height,
                    self.pixels.len() == height * width,
                    before.width == width,
                    before.height == height,
                    ink == sprite@,
                    col0 == before.start_col(x),
                    row0 == before.start_row(y),
                    row == row0 + i,
                    row < height,
                    i < sprite.len(),
                    data == ink[i as int],
                    dc <= 8,
                    col0 + dc <= width,
                    forall|c: int, r: int|
                        0 <= c < width && 0 <= r < height ==> #[trigger] self.lamp(c, r)
                            == drawn_before(before, x, y, ink, c, r, col0 + dc, row as int),
                    hit == collides_before(before, x, y, ink, col0 + dc, row as int),
                decreases 8 - dc,
            {
                let col: usize = col0 + dc;
                let ghost lamps = *self;
                proof {
                    lemma_cell_index(width as int, height as int, col as int, row as int);
                    lemma_collides_next(before, x, y, ink, col as int, row as int);
                    assert(lamps.lamp(col as int, row as int) == before.at(col as int, row as int));
                }
                let at: usize = row * width + col;
                let opaque = data & (0x80u8 >> dc) != 0;
                assert(opaque == before.inked(x, y, ink, col as int, row as int)) by {
                    assert(dc as u8 == dc);
                }
                if opaque {
                    if self.pixels[at] {
                        self.pixels[at] = false;
                        hit = true;
                    } else {
                        self.pixels[at] = true;
                    }
                }
                dc = dc + 1;
                assert forall|c: int, r: int| 0 <= c < width && 0 <= r < height implies #[trigger] self.lamp(
                    c,
                    r,
                ) == drawn_before(before, x, y, ink, c, r, col0 + dc, row as int) by {
                    // Only the cell just drawn has changed.
                    lemma_cell_index(width as int, height as int, c, r);
                    assert(lamps.lamp(c, r) == drawn_before(
                        before,
                        x,
                        y,
                        ink,
                        c,
                        r,
                        col as int,
                        row as int,
                    ));
                    if !(c == col && r == row) {
                        assert(r * width + c != at);
                        assert(self.lamp(c, r) == lamps.lamp(c, r));
                    }
                }
            }
            proof {
                // Nothing is left of this sprite row: its other bits fall
                // beyond the eighth column or beyond the right edge.
                lemma_collides_same(before, x, y, ink, col0 + dc, row as int, 0, row + 1);
            }
            i = i + 1;
        }
        proof {
            // Every opaque cell of the screen has been visited by now.
            lemma_collides_all(before, x, y, ink, 0, row0 + i);
            assert forall|r: int| 0 <= r < height implies #[trigger] self@.rows[r] =~= before.blit(
                x,
                y,
                ink,
            ).rows[r] by {
                assert forall|c: int| 0 <= c < width implies self@.rows[r][c] == before.blit(
                    x,
                    y,
                    ink,
                ).rows[r][c] by {
                    assert(self@.rows[r][c] == self.lamp(c, r));
                }
            }
            assert(self@.rows =~= before.blit(x, y, ink).rows);
        }
        hit
    }

    /// Paints the display into `frame`, four bytes per pixel, row by row from
    /// the top-left corner: [`FOREGROUND`] for a lit pixel, [`BACKGROUND`]
    /// for an unlit one. Bytes beyond the last whole pixel are left alone.
    pub fn render(&self, frame: &mut [u8])
        ensures
            final(frame)@ == self@.frame(old(frame)@),
    {
        proof {
            use_type_invariant(self);
        }
        let ghost before = frame@;
        if self.width == 0 {
            assert(frame@ =~= self@.frame(before));
            return;
        }
        let cells: usize = frame.len() / 4;
        let total: usize = self.pixels.len();
        let mut i: usize = 0;
        while i < cells && i < total
            invariant
                self.width > 0,
                total == self.pixels.len(),
                total == self.height * self.width,
                frame@.len() == before.len(),
                before.len() <= usize::MAX,
                cells == before.len() / 4,
                i <= cells,
                i <= total,
                forall|j: int| 0 <= j < 4 * i ==> frame@[j] == #[trigger] self@.frame(before)[j],
                forall|j: int| 4 * i <= j < before.len() ==> frame@[j] == #[trigger] before[j],
            decreases cells - i,
        {
            let on = self.pixels[i];
            let rgba = if on {
                FOREGROUND
            } else {
                BACKGROUND
            };
            assert(4 * i + 4 <= before.len());
            let base: usize = 4 * i;
            proof {
                lemma_index_cell(self.width as int, self.height as int, i as int);
                assert(self@.has_cell(i as int));
                assert(self@.cell(i as int) == self.lamp(
                    i as int % self.width as int,
                    i as int / self.width as int,
                ));
                assert(self@.cell(i as int) == on);
                assert(rgba@ =~= shade(on));
            }
            frame[base] = rgba[0];
            frame[base + 1] = rgba[1];
            frame[base + 2] = rgba[2];
            frame[base + 3] = rgba[3];
            i = i + 1;
            proof {
                assert forall|j: int| 0 <= j < 4 * i implies frame@[j] == #[trigger] self@.frame(
                    before,
                )[j] by {
                    if j >= base {
                        assert(j / 4 == base / 4);
                    }
                }
            }
        }
        proof {
            assert forall|j: int| 0 <= j < before.len() implies frame@[j] == self@.frame(before)[j] by {
                if j >= 4 * i {
                    let cell = j / 4;
                    lemma_index_cell(self.width as int, self.height as int, cell);
                    if 4 * cell + 4 <= before.len() {
                        assert(cell < cells);
                        assert(cell >= total);
                    }
                }
            }
            assert(frame@ =~= self@.frame(before));
        }
    }
}

} // verus!
