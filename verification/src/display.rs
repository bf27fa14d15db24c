//! The monochrome framebuffer and its two mutating operations: clearing and
//! XOR sprite drawing.

use vstd::prelude::*;

verus! {

/// Width of the framebuffer in pixels.
pub const DISPLAY_WIDTH: usize = 64;

/// Height of the framebuffer in pixels.
pub const DISPLAY_HEIGHT: usize = 32;

/// Number of pixels.
pub const PIXEL_COUNT: usize = 2048;

/// Position in the framebuffer of the pixel in column `x` of row `y`. Rows
/// follow one another; coordinates past an edge wrap around.
pub open spec fn cell_index(x: int, y: int) -> int {
    (y % 32) * 64 + (x % 64)
}

/// A framebuffer with every pixel off.
pub open spec fn blank_screen() -> Seq<bool> {
    Seq::new(PIXEL_COUNT as nat, |k: int| false)
}

/// Bit `col` of a sprite row, columns counted from the most significant bit.
pub open spec fn sprite_bit(byte: u8, col: u8) -> bool {
    (byte >> ((7 - col) as u8)) & 1 == 1
}

/// Whether `sprite`, drawn with its top left corner at `(x, y)`, has a set
/// bit on pixel `k`. Rows and columns wrap at the edges.
pub open spec fn covered(sprite: Seq<u8>, x: int, y: int, k: int) -> bool {
    let col = (k % 64 - x) % 64;
    let row = (k / 64 - y) % 32;
    col < 8 && row < sprite.len() && sprite_bit(sprite[row], col as u8)
}

/// As `covered`, counting only the bits of the rows before `rows_done`
/// and, in row `rows_done`, of the columns before `cols_done`.
spec fn covered_before(
    sprite: Seq<u8>,
    x: int,
    y: int,
    k: int,
    rows_done: int,
    cols_done: int,
) -> bool {
    let col = (k % 64 - x) % 64;
    let row = (k / 64 - y) % 32;
    covered(sprite, x, y, k) && (row < rows_done || (row == rows_done && col < cols_done))
}

/// Whether pixel `k` of `pixels` is on and under a set bit of the sprite.
pub open spec fn erased_at(pixels: Seq<bool>, sprite: Seq<u8>, x: int, y: int, k: int) -> bool {
    pixels[k] && covered(sprite, x, y, k)
}

/// The framebuffer after `sprite` is drawn at `(x, y)`: each pixel under a
/// set bit is flipped, every other pixel is kept.
pub open spec fn drawn(pixels: Seq<bool>, sprite: Seq<u8>, x: int, y: int) -> Seq<bool> {
    Seq::new(PIXEL_COUNT as nat, |k: int| pixels[k] != covered(sprite, x, y, k))
}

/// Whether drawing `sprite` at `(x, y)` turns some pixel of `pixels` off.
pub open spec fn erases(pixels: Seq<bool>, sprite: Seq<u8>, x: int, y: int) -> bool {
    exists|k: int| 0 <= k < PIXEL_COUNT && #[trigger] erased_at(pixels, sprite, x, y, k)
}

/// Whether `pixels` is `before` with the bits of the sprite drawn that
/// come before column `cols_done` of row `rows_done`.
spec fn drawn_so_far(
    pixels: Seq<bool>,
    before: Seq<bool>,
    sprite: Seq<u8>,
    x: int,
    y: int,
    rows_done: int,
    cols_done: int,
) -> bool {
    &&& pixels.len() == PIXEL_COUNT
    &&& forall|k: int|
        0 <= k < PIXEL_COUNT ==> #[trigger] pixels[k] == (before[k] != covered_before(
            sprite,
            x,
            y,
            k,
            rows_done,
            cols_done,
        ))
}

/// Whether one of those bits has turned a pixel of `before` off.
spec fn erased_so_far(
    before: Seq<bool>,
    sprite: Seq<u8>,
    x: int,
    y: int,
    rows_done: int,
    cols_done: int,
) -> bool {
    exists|k: int|
        0 <= k < PIXEL_COUNT && #[trigger] erased_at(before, sprite, x, y, k) && covered_before(
            sprite,
            x,
            y,
            k,
            rows_done,
            cols_done,
        )
}

/// Every pixel position as `(column, row)`, in the order in which the
/// framebuffer is scanned: row by row from the top, each row from the left.
pub open spec fn scan_order() -> Seq<(u8, u8)> {
    Seq::new(PIXEL_COUNT as nat, |k: int| ((k % 64) as u8, (k / 64) as u8))
}

/// The positions of the lit pixels of `pixels`, in scan order.
pub open spec fn lit_cells_of(pixels: Seq<bool>) -> Seq<(u8, u8)> {
    scan_order().filter(|c: (u8, u8)| pixels[cell_index(c.0 as int, c.1 as int)])
}

/// Among the pixels, the one at `cell_index(x + col, y + row)` is the only
/// one that lies `col` columns right of `x` and `row` rows below `y`.
pub proof fn lemma_target_cell(x: int, y: int, row: int, col: int, k: int)
    requires
        0 <= row < 32,
        0 <= col < 64,
        0 <= k < PIXEL_COUNT,
    ensures
        0 <= cell_index(x + col, y + row) < PIXEL_COUNT,
        k == cell_index(x + col, y + row) <==> (k % 64 - x) % 64 == col && (k / 64 - y) % 32
            == row,
{
}

/// Drawing one more bit, that of column `col` in row `row`, flips the pixel
/// under it if the bit is set, and has turned a pixel off if the bits
/// before it had or if it is set on a pixel that was on.
proof fn lemma_draw_bit(
    pixels: Seq<bool>,
    before: Seq<bool>,
    sprite: Seq<u8>,
    x: int,
    y: int,
    row: int,
    col: int,
)
    requires
        before.len() == PIXEL_COUNT,
        sprite.len() <= DISPLAY_HEIGHT,
        0 <= row < sprite.len(),
        0 <= col < 8,
        drawn_so_far(pixels, before, sprite, x, y, row, col),
    ensures
        ({
            let k = cell_index(x + col, y + row);
            let bit = sprite_bit(sprite[row], col as u8);
            let next = if bit {
                pixels.update(k, !pixels[k])
            } else {
                pixels
            };
            &&& 0 <= k < PIXEL_COUNT
            &&& drawn_so_far(next, before, sprite, x, y, row, col + 1)
            &&& erased_so_far(before, sprite, x, y, row, col + 1) == (erased_so_far(
                before,
                sprite,
                x,
                y,
                row,
                col,
            ) || (bit && pixels[k]))
        }),
{
    let k = cell_index(x + col, y + row);
    let bit = sprite_bit(sprite[row], col as u8);
    let next = if bit {
        pixels.update(k, !pixels[k])
    } else {
        pixels
    };
    lemma_target_cell(x, y, row, col, k);
    assert(!covered_before(sprite, x, y, k, row, col));
    assert(pixels[k] == before[k]);
    assert forall|c: int| 0 <= c < PIXEL_COUNT implies #[trigger] next[c] == (before[c]
        != covered_before(sprite, x, y, c, row, col + 1)) by {
        lemma_target_cell(x, y, row, col, c);
        assert(pixels[c] == (before[c] != covered_before(sprite, x, y, c, row, col)));
    }
    if erased_so_far(before, sprite, x, y, row, col) {
        let w = choose|c: int|
            0 <= c < PIXEL_COUNT && #[trigger] erased_at(before, sprite, x, y, c)
                && covered_before(sprite, x, y, c, row, col);
        assert(erased_at(before, sprite, x, y, w) && covered_before(
            sprite,
            x,
            y,
            w,
            row,
            col + 1,
        ));
    } else if bit && pixels[k] {
        assert(erased_at(before, sprite, x, y, k) && covered_before(
            sprite,
            x,
            y,
            k,
            row,
            col + 1,
        ));
    } else {
        assert forall|c: int|
            0 <= c < PIXEL_COUNT && #[trigger] erased_at(
                before,
                sprite,
                x,
                y,
                c,
            ) implies !covered_before(sprite, x, y, c, row, col + 1) by {
            lemma_target_cell(x, y, row, col, c);
        }
    }
}

/// A row whose eight bits are drawn is done: the next bit is the first of
/// the next row.
proof fn lemma_draw_row_done(
    pixels: Seq<bool>,
    before: Seq<bool>,
    sprite: Seq<u8>,
    x: int,
    y: int,
    row: int,
)
    requires
        drawn_so_far(pixels, before, sprite, x, y, row, 8),
    ensures
        drawn_so_far(pixels, before, sprite, x, y, row + 1, 0),
        erased_so_far(before, sprite, x, y, row + 1, 0) == erased_so_far(
            before,
            sprite,
            x,
            y,
            row,
            8,
        ),
{
    assert forall|k: int| 0 <= k < PIXEL_COUNT implies #[trigger] pixels[k] == (before[k]
        != covered_before(sprite, x, y, k, row + 1, 0)) by {
        assert(covered_before(sprite, x, y, k, row + 1, 0) == covered_before(
            sprite,
            x,
            y,
            k,
            row,
            8,
        ));
    }
    if erased_so_far(before, sprite, x, y, row, 8) {
        let w = choose|c: int|
            0 <= c < PIXEL_COUNT && #[trigger] erased_at(before, sprite, x, y, c)
                && covered_before(sprite, x, y, c, row, 8);
        assert(covered_before(sprite, x, y, w, row + 1, 0));
    }
    if erased_so_far(before, sprite, x, y, row + 1, 0) {
        let w = choose|c: int|
            0 <= c < PIXEL_COUNT && #[trigger] erased_at(before, sprite, x, y, c)
                && covered_before(sprite, x, y, c, row + 1, 0);
        assert(covered_before(sprite, x, y, w, row, 8));
    }
}

/// Drawing flips the pixel `col` columns right of `x` and `row` rows below
/// `y`, counted with wrap-around, exactly when bit `col` of sprite row
/// `row` is set.
pub proof fn lemma_drawn_under_sprite(
    pixels: Seq<bool>,
    sprite: Seq<u8>,
    x: int,
    y: int,
    row: int,
    col: int,
)
    requires
        pixels.len() == PIXEL_COUNT,
        sprite.len() <= DISPLAY_HEIGHT,
        0 <= row < sprite.len(),
        0 <= col < 8,
    ensures
        ({
            let k = cell_index(x + col, y + row);
            &&& 0 <= k < PIXEL_COUNT
            &&& drawn(pixels, sprite, x, y)[k] == (pixels[k] != sprite_bit(sprite[row], col as u8))
            &&& pixels[k] && sprite_bit(sprite[row], col as u8) ==> erases(pixels, sprite, x, y)
        }),
{
    let k = cell_index(x + col, y + row);
    lemma_target_cell(x, y, row, col, k);
    if pixels[k] && sprite_bit(sprite[row], col as u8) {
        assert(erased_at(pixels, sprite, x, y, k));
    }
}

/// Drawing changes a pixel only where it lies under a set bit of the
/// sprite, and it turns a pixel off only where one that was on does.
pub proof fn lemma_drawn_elsewhere(pixels: Seq<bool>, sprite: Seq<u8>, x: int, y: int)
    requires
        pixels.len() == PIXEL_COUNT,
        sprite.len() <= DISPLAY_HEIGHT,
    ensures
        forall|k: int|
            0 <= k < PIXEL_COUNT && #[trigger] drawn(pixels, sprite, x, y)[k] != pixels[k]
                ==> exists|row: int, col: int|
                0 <= row < sprite.len() && 0 <= col < 8 && k == #[trigger] cell_index(
                    x + col,
                    y + row,
                ) && sprite_bit(sprite[row], col as u8),
        erases(pixels, sprite, x, y) ==> exists|row: int, col: int|
            0 <= row < sprite.len() && 0 <= col < 8 && pixels[#[trigger] cell_index(
                x + col,
                y + row,
            )] && sprite_bit(sprite[row], col as u8),
{
    assert forall|k: int|
        0 <= k < PIXEL_COUNT && #[trigger] drawn(pixels, sprite, x, y)[k]
            != pixels[k] implies exists|row: int, col: int|
        0 <= row < sprite.len() && 0 <= col < 8 && k == #[trigger] cell_index(x + col, y + row)
            && sprite_bit(sprite[row], col as u8) by {
        let col = (k % 64 - x) % 64;
        let row = (k / 64 - y) % 32;
        lemma_target_cell(x, y, row, col, k);
        assert(k == cell_index(x + col, y + row));
    }
    if erases(pixels, sprite, x, y) {
        let k = choose|k: int| 0 <= k < PIXEL_COUNT && #[trigger] erased_at(pixels, sprite, x, y, k);
        let col = (k % 64 - x) % 64;
        let row = (k / 64 - y) % 32;
        lemma_target_cell(x, y, row, col, k);
        assert(pixels[cell_index(x + col, y + row)] && sprite_bit(sprite[row], col as u8));
    }
}

/// 64 by 32 pixels, each on or off. Its view holds the rows one after
/// another, so pixel `(x, y)` stands at `cell_index(x, y)`.
#[derive(Clone, Copy, Debug)]
pub struct Display {
    pixels: [bool; PIXEL_COUNT],
}

impl View for Display {
    type V = Seq<bool>;

    closed spec fn view(&self) -> Seq<bool> {
        self.pixels@
    }
}

impl Display {
    /// Every framebuffer has exactly `PIXEL_COUNT` pixels.
    pub proof fn lemma_len(&self)
        ensures
            self@.len() == PIXEL_COUNT,
    {
    }

    /// A framebuffer with every pixel off.
    pub fn new() -> (d: Display)
        ensures
            d@ == blank_screen(),
    {
        let d = Display { pixels: [false; PIXEL_COUNT] };
        assert(d@ =~= blank_screen());
        d
    }

    /// Turns every pixel off.
    pub fn clear(&mut self)
        ensures
            final(self)@ == blank_screen(),
    {
        self.pixels = [false; PIXEL_COUNT];
        assert(self@ =~= blank_screen());
    }

    /// Sets pixel `(x, y)`; coordinates past an edge wrap around.
    pub fn set(&mut self, x: usize, y: usize, on: bool)
        ensures
            final(self)@ == old(self)@.update(cell_index(x as int, y as int), on),
    {
        let k: usize = (y % DISPLAY_HEIGHT) * DISPLAY_WIDTH + (x % DISPLAY_WIDTH);
        self.pixels[k] = on;
    }

    /// Whether pixel `(x, y)` is on; coordinates past an edge wrap around.
    pub fn get(&self, x: usize, y: usize) -> (on: bool)
        ensures
            on == self@[cell_index(x as int, y as int)],
    {
        let k: usize = (y % DISPLAY_HEIGHT) * DISPLAY_WIDTH + (x % DISPLAY_WIDTH);
        self.pixels[k]
    }

    /// All pixels, row after row.
    pub fn snapshot(&self) -> (pixels: &[bool; PIXEL_COUNT])
        ensures
            pixels@ == self@,
    {
        &self.pixels
    }

    /// XORs `sprite` onto the framebuffer with its top left corner at
    /// `(x, y)`, one byte per row and the most significant bit leftmost,
    /// wrapping at the edges. Returns whether some pixel was turned off.
    pub fn draw(&mut self, sprite: &[u8], x: u8, y: u8) -> (erased: bool)
        requires
            sprite@.len() <= DISPLAY_HEIGHT,
        ensures
            final(self)@ == drawn(old(self)@, sprite@, x as int, y as int),
            erased == erases(old(self)@, sprite@, x as int, y as int),
    {
        let rows: usize = sprite.len();
        let ghost before = self@;
        let mut erased: bool = false;
        let mut i: usize = 0;
        while i < rows
            invariant
                i <= rows,
                rows == sprite@.len(),
                rows <= DISPLAY_HEIGHT,
                before.len() == PIXEL_COUNT,
                drawn_so_far(self@, before, sprite@, x as int, y as int, i as int, 0),
                erased == erased_so_far(before, sprite@, x as int, y as int, i as int, 0),
            decreases rows - i,
        {
            let byte: u8 = sprite[i];
            let py: usize = (y as usize + i) % DISPLAY_HEIGHT;
            let mut j: u8 = 0;
            while j < 8
                invariant
                    j <= 8,
                    i < rows,
                    rows == sprite@.len(),
                    rows <= DISPLAY_HEIGHT,
                    byte == sprite@[i as int],
                    py == (y + i) % 32,
                    before.len() == PIXEL_COUNT,
                    drawn_so_far(self@, before, sprite@, x as int, y as int, i as int, j as int),
                    erased == erased_so_far(
                        before,
                        sprite@,
                        x as int,
                        y as int,
                        i as int,
                        j as int,
                    ),
                decreases 8 - j,
            {
                let px: usize = (x as usize + j as usize) % DISPLAY_WIDTH;
                let k: usize = py * DISPLAY_WIDTH + px;
                proof {
                    lemma_draw_bit(self@, before, sprite@, x as int, y as int, i as int, j as int);
                }
                if (byte >> (7 - j)) & 1 == 1 {
                    if self.pixels[k] {
                        erased = true;
                    }
                    self.pixels[k] = !self.pixels[k];
                }
                j += 1;
            }
            proof {
                lemma_draw_row_done(self@, before, sprite@, x as int, y as int, i as int);
            }
            i += 1;
        }
        assert(self@ =~= drawn(before, sprite@, x as int, y as int));
        erased
    }

    /// The lit pixels as `(column, row)`, row by row from the top and
    /// within a row from the left.
    pub fn lit_cells(&self) -> (cells: Vec<(u8, u8)>)
        ensures
            cells@ == lit_cells_of(self@),
    {
        let ghost lit = |c: (u8, u8)| self@[cell_index(c.0 as int, c.1 as int)];
        let mut cells: Vec<(u8, u8)> = Vec::new();
        let mut k: usize = 0;
        proof {
            reveal(Seq::filter);
            assert(scan_order().take(0) =~= Seq::empty());
        }
        while k < PIXEL_COUNT
            invariant
                k <= PIXEL_COUNT,
                lit == |c: (u8, u8)| self@[cell_index(c.0 as int, c.1 as int)],
                cells@ == scan_order().take(k as int).filter(lit),
            decreases PIXEL_COUNT - k,
        {
            proof {
                reveal(Seq::filter);
                let next = scan_order().take(k + 1);
                assert(next.drop_last() =~= scan_order().take(k as int));
                assert(next.last() == ((k % 64) as u8, (k / 64) as u8));
                assert(lit(next.last()) == self@[k as int]);
            }
            if self.pixels[k] {
                cells.push(((k % DISPLAY_WIDTH) as u8, (k / DISPLAY_WIDTH) as u8));
            }
            k += 1;
        }
        assert(scan_order().take(PIXEL_COUNT as int) =~= scan_order());
        cells
    }
}

} // verus!
