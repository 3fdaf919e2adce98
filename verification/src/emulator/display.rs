//! The display surface: a 64 by 32 grid of one-bit pixels, drawn on by
//! XOR-ing sprites into it.
use vstd::prelude::*;
use crate::emulator::fault::Fault;

verus! {

/// Pixels in one row of the display.
pub const PIXELS_ALONG_X: usize = 64;

/// Rows of the display.
pub const PIXELS_ALONG_Y: usize = 32;

/// A rectangle of the host window, in host pixels.
#[derive(Clone, Copy, Debug, PartialEq, Eq, Structural)]
pub struct Rect {
    pub x: i32,
    pub y: i32,
    pub width: u32,
    pub height: u32,
}

/// The colour in which a cell is painted.
#[derive(Clone, Copy, Debug, PartialEq, Eq, Structural)]
pub enum Color {
    Black,
    White,
}

/// The display surface. `pixel_repr[row][column]` is 1 for a lit pixel and 0
/// for a dark one; `epixels[row][column]` is the rectangle of the host
/// window in which that pixel is shown.
#[derive(Clone, Debug, PartialEq, Eq)]
pub struct Display {
    pub epixels: [[Rect; PIXELS_ALONG_X]; PIXELS_ALONG_Y],
    pub pixel_repr: [[u8; PIXELS_ALONG_X]; PIXELS_ALONG_Y],
}

/// The display as mathematics: 32 rows of 64 cells each.
pub struct DisplayView {
    pub cells: Seq<Seq<Rect>>,
    pub pixels: Seq<Seq<bool>>,
}

impl View for Display {
    type V = DisplayView;

    open spec fn view(&self) -> DisplayView {
        DisplayView {
            cells: Seq::new(32, |row: int| Seq::new(64, |column: int| self.epixels[row][column])),
            pixels: Seq::new(
                32,
                |row: int| Seq::new(64, |column: int| self.pixel_repr[row][column] == 1),
            ),
        }
    }
}

/// The value of bit `column` of a sprite row, counted from the left: column
/// 0 is the most significant bit.
pub open spec fn sprite_bit(bits: u8, column: int) -> bool {
    (bits as int / column_weight(column)) % 2 == 1
}

/// The weight of the bit that stands for `column` in a sprite row.
pub open spec fn column_weight(column: int) -> int {
    if column <= 0 {
        128
    } else if column == 1 {
        64
    } else if column == 2 {
        32
    } else if column == 3 {
        16
    } else if column == 4 {
        8
    } else if column == 5 {
        4
    } else if column == 6 {
        2
    } else {
        1
    }
}

/// Whether one sprite row, drawn with its left edge in column `x`, flips
/// the pixel in `column` of the display row it lands on, counting only its
/// first `width` columns. The sprite wraps round the right edge.
pub open spec fn row_flips(bits: u8, x: int, column: int, width: int) -> bool {
    let offset = (column - x) % 64;
    offset < width && sprite_bit(bits, offset)
}

/// Whether the first `rows` rows of `sprite`, drawn with the top left corner
/// at (`x`, `y`), flip the pixel at (`row`, `column`): whether an odd number
/// of set sprite bits land on it. The sprite wraps round both edges.
pub open spec fn flips(sprite: Seq<u8>, x: int, y: int, rows: nat, row: int, column: int) -> bool
    decreases rows,
{
    if rows == 0 {
        false
    } else {
        let k = (rows - 1) as nat;
        flips(sprite, x, y, k, row, column) != ((y + k) % 32 == row && row_flips(
            sprite[k as int],
            x,
            column,
            8,
        ))
    }
}

/// The pixel at (`row`, `column`) after the first `rows` rows of `sprite`
/// have been drawn onto `pixels`.
pub open spec fn pixel_after(
    pixels: Seq<Seq<bool>>,
    sprite: Seq<u8>,
    x: int,
    y: int,
    rows: nat,
    row: int,
    column: int,
) -> bool {
    pixels[row][column] != flips(sprite, x, y, rows, row, column)
}

/// The grid after `sprite` has been drawn onto `pixels` at (`x`, `y`):
/// every pixel is the old one XOR the sprite bits that land on it.
pub open spec fn blit(pixels: Seq<Seq<bool>>, sprite: Seq<u8>, x: int, y: int) -> Seq<Seq<bool>> {
    Seq::new(
        32,
        |row: int|
            Seq::new(64, |column: int| pixel_after(pixels, sprite, x, y, sprite.len(), row, column)),
    )
}

/// Whether bit `j` of sprite row `k` turns a lit pixel off: the bit is set,
/// and the pixel it lands on is lit when that row is drawn.
pub open spec fn erases_at(
    pixels: Seq<Seq<bool>>,
    sprite: Seq<u8>,
    x: int,
    y: int,
    k: int,
    j: int,
) -> bool {
    sprite_bit(sprite[k], j) && pixel_after(
        pixels,
        sprite,
        x,
        y,
        k as nat,
        (y + k) % 32,
        (x + j) % 64,
    )
}

/// Whether some sprite bit that comes before bit `j` of row `k`, rows from
/// the top and bits from the left, turns a lit pixel off.
pub open spec fn erases_before(
    pixels: Seq<Seq<bool>>,
    sprite: Seq<u8>,
    x: int,
    y: int,
    k: int,
    j: int,
) -> bool {
    exists|k0: int, j0: int|
        0 <= k0 && 0 <= j0 < 8 && (k0 < k || (k0 == k && j0 < j)) && #[trigger] erases_at(
            pixels,
            sprite,
            x,
            y,
            k0,
            j0,
        )
}

/// Whether drawing `sprite` onto `pixels` at (`x`, `y`) turns any lit pixel
/// off.
pub open spec fn collides(pixels: Seq<Seq<bool>>, sprite: Seq<u8>, x: int, y: int) -> bool {
    erases_before(pixels, sprite, x, y, sprite.len() as int, 0)
}

/// A grid with every pixel dark.
pub open spec fn blank() -> Seq<Seq<bool>> {
    Seq::new(32, |row: int| Seq::new(64, |column: int| false))
}

/// The rectangle of the cell at (`row`, `column`) in a window of the given
/// size: the window is cut into 64 by 32 equal cells, and what is left over
/// at the right and at the bottom stays empty.
pub open spec fn cell_rect(width: u32, height: u32, row: int, column: int) -> Rect {
    Rect {
        x: (column * (width as int / 64)) as i32,
        y: (row * (height as int / 32)) as i32,
        width: (width as int / 64) as u32,
        height: (height as int / 32) as u32,
    }
}

/// The rectangles of all cells in a window of the given size.
pub open spec fn layout(width: u32, height: u32) -> Seq<Seq<Rect>> {
    Seq::new(32, |row: int| Seq::new(64, |column: int| cell_rect(width, height, row, column)))
}

/// The colour in which a pixel is painted: white if it is lit.
pub open spec fn paint(pixel: u8) -> Color {
    if pixel == 1 {
        Color::White
    } else {
        Color::Black
    }
}

impl Display {
    /// Every pixel is 0 or 1.
    pub open spec fn well_formed(&self) -> bool {
        forall|row: int, column: int|
            0 <= row < 32 && 0 <= column < 64 ==> #[trigger] self.pixel_repr[row][column] <= 1
    }

    /// The pixels of a display have the shape of a grid.
    pub proof fn lemma_pixels_are_grid(&self)
        ensures
            is_grid(self@.pixels),
    {
    }

    /// Tells whether every pixel is 0 or 1.
    pub fn is_well_formed(&self) -> (ok: bool)
        ensures
            ok == self.well_formed(),
    {
        let mut row: usize = 0;
        while row < 32
            invariant
                row <= 32,
                forall|r: int, c: int|
                    0 <= r < row && 0 <= c < 64 ==> #[trigger] self.pixel_repr[r][c] <= 1,
            decreases 32 - row,
        {
            let mut column: usize = 0;
            while column < 64
                invariant
                    row < 32,
                    column <= 64,
                    forall|r: int, c: int|
                        0 <= r < row && 0 <= c < 64 ==> #[trigger] self.pixel_repr[r][c] <= 1,
                    forall|c: int| 0 <= c < column ==> #[trigger] self.pixel_repr[row as int][c] <= 1,
                decreases 64 - column,
            {
                if self.pixel_repr[row][column] > 1 {
                    return false;
                }
                column += 1;
            }
            row += 1;
        }
        true
    }

    /// A dark display laid out for a window of `width` by `height` host
    /// pixels. The host's coordinates are signed 32-bit numbers, so neither
    /// may reach 2^31.
    pub fn new(width: u32, height: u32) -> (display: Display)
        requires
            width < 0x8000_0000,
            height < 0x8000_0000,
        ensures
            display.well_formed(),
            display@ == (DisplayView { cells: layout(width, height), pixels: blank() }),
    {
        let unit_width: u32 = width / 64;
        let unit_height: u32 = height / 32;
        let origin = Rect { x: 0, y: 0, width: unit_width, height: unit_height };
        let mut epixels = [[origin; PIXELS_ALONG_X]; PIXELS_ALONG_Y];
        let pixel_repr = [[0u8; PIXELS_ALONG_X]; PIXELS_ALONG_Y];
        let mut y_idx: usize = 0;
        while y_idx < 32
            invariant
                y_idx <= 32,
                unit_width == width / 64,
                unit_height == height / 32,
                width < 0x8000_0000,
                height < 0x8000_0000,
                forall|row: int, column: int|
                    0 <= row < y_idx && 0 <= column < 64 ==> #[trigger] epixels[row][column]
                        == cell_rect(width, height, row, column),
            decreases 32 - y_idx,
        {
            assert(0 <= y_idx * unit_height <= 31 * 0x3ff_ffff) by (nonlinear_arith)
                requires
                    y_idx <= 31,
                    unit_height <= 0x3ff_ffff,
            ;
            let y: i32 = (y_idx as i32) * (unit_height as i32);
            let mut line = [origin; PIXELS_ALONG_X];
            let mut x_idx: usize = 0;
            while x_idx < 64
                invariant
                    x_idx <= 64,
                    y_idx < 32,
                    y == y_idx * (height as int / 32),
                    unit_width == width / 64,
                    unit_height == height / 32,
                    width < 0x8000_0000,
                    height < 0x8000_0000,
                    forall|column: int|
                        0 <= column < x_idx ==> #[trigger] line[column] == cell_rect(
                            width,
                            height,
                            y_idx as int,
                            column,
                        ),
                decreases 64 - x_idx,
            {
                assert(0 <= x_idx * unit_width <= 63 * 0x1ff_ffff) by (nonlinear_arith)
                    requires
                        x_idx <= 63,
                        unit_width <= 0x1ff_ffff,
                ;
                let x: i32 = (x_idx as i32) * (unit_width as i32);
                line[x_idx] = Rect { x, y, width: unit_width, height: unit_height };
                x_idx += 1;
            }
            epixels[y_idx] = line;
            y_idx += 1;
        }
        let display = Display { epixels, pixel_repr };
        assert(display@.pixels =~~= blank());
        assert(display@.cells =~~= layout(width, height));
        display
    }

    /// Turns every pixel off.
    pub fn clear(&mut self)
        ensures
            final(self).well_formed(),
            final(self)@.pixels == blank(),
            final(self).epixels == old(self).epixels,
    {
        self.pixel_repr = [[0u8; PIXELS_ALONG_X]; PIXELS_ALONG_Y];
        assert(self@.pixels =~~= blank());
    }

    /// Draws a sprite by XOR: the `sprite_height` bytes of `memory` from
    /// `start_addr` on are its rows, eight pixels each, leftmost pixel in
    /// the most significant bit, and `pos` is the column and the row of its
    /// top left corner. Columns wrap modulo 64 and rows modulo 32. Returns 1
    /// if a lit pixel was turned off and 0 if none was. A sprite that does
    /// not lie within `memory` is refused and nothing is drawn.
    pub fn xor_sprite(
        &mut self,
        memory: &[u8],
        start_addr: usize,
        pos: (u8, u8),
        sprite_height: u8,
    ) -> (result: Result<u8, Fault>)
        requires
            old(self).well_formed(),
        ensures
            final(self).well_formed(),
            final(self).epixels == old(self).epixels,
            match result {
                Ok(collision) => {
                    let sprite = memory@.subrange(start_addr as int, start_addr + sprite_height);
                    &&& start_addr + sprite_height <= memory@.len()
                    &&& final(self)@.pixels == blit(
                        old(self)@.pixels,
                        sprite,
                        pos.0 as int,
                        pos.1 as int,
                    )
                    &&& collision == if collides(
                        old(self)@.pixels,
                        sprite,
                        pos.0 as int,
                        pos.1 as int,
                    ) {
                        1u8
                    } else {
                        0u8
                    }
                },
                Err(fault) => {
                    &&& start_addr + sprite_height > memory@.len()
                    &&& fault == Fault::AddressOutOfRange
                    &&& *final(self) == *old(self)
                },
            },
    {
        if start_addr > memory.len() || sprite_height as usize > memory.len() - start_addr {
            return Err(Fault::AddressOutOfRange);
        }
        let (start_x, start_y) = pos;
        let ghost before = self@.pixels;
        let ghost sprite = memory@.subrange(start_addr as int, start_addr + sprite_height);
        let ghost x = start_x as int;
        let ghost y = start_y as int;
        let mut collision: u8 = 0;
        let mut k: usize = 0;
        while k < sprite_height as usize
            invariant
                k <= sprite_height,
                start_addr + sprite_height <= memory@.len() <= usize::MAX,
                sprite == memory@.subrange(start_addr as int, start_addr + sprite_height),
                x == start_x,
                y == start_y,
                before == old(self)@.pixels,
                self.well_formed(),
                self.epixels == old(self).epixels,
                collision <= 1,
                (collision == 1) == erases_before(before, sprite, x, y, k as int, 0),
                forall|row: int, column: int|
                    0 <= row < 32 && 0 <= column < 64 ==> (#[trigger] self.pixel_repr[row][column]
                        == 1) == pixel_after(before, sprite, x, y, k as nat, row, column),
            decreases sprite_height - k,
        {
            let target: usize = (start_y as usize + k) % 32;
            let bits: u8 = memory[start_addr + k];
            let mut weight: u8 = 128;
            let mut j: usize = 0;
            while j < 8
                invariant
                    j <= 8,
                    j < 8 ==> weight == column_weight(j as int),
                    k < sprite_height,
                    sprite.len() == sprite_height,
                    target == (y + k) % 32,
                    bits == sprite[k as int],
                    x == start_x,
                    y == start_y,
                    self.well_formed(),
                    self.epixels == old(self).epixels,
                    collision <= 1,
                    (collision == 1) == erases_before(before, sprite, x, y, k as int, j as int),
                    forall|row: int, column: int|
                        0 <= row < 32 && 0 <= column < 64 ==> (
                        #[trigger] self.pixel_repr[row][column] == 1) == (pixel_after(
                            before,
                            sprite,
                            x,
                            y,
                            k as nat,
                            row,
                            column,
                        ) != (row == target && row_flips(bits, x, column, j as int))),
                decreases 8 - j,
            {
                let column: usize = (start_x as usize + j) % 64;
                let lit: bool = self.pixel_repr[target][column] == 1;
                let set: bool = (bits / weight) % 2 == 1;
                assert((set && lit) == erases_at(before, sprite, x, y, k as int, j as int));
                if set {
                    if lit {
                        collision = 1;
                        self.pixel_repr[target][column] = 0;
                    } else {
                        self.pixel_repr[target][column] = 1;
                    }
                }
                weight = weight / 2;
                j += 1;
            }
            k += 1;
        }
        assert(self@.pixels =~~= blit(before, sprite, x, y));
        Ok(collision)
    }

    /// What to paint: the rectangle and the colour of every cell, row by
    /// row from the top and from left to right within a row. A lit pixel
    /// is white and any other is black.
    pub fn render(&self) -> (frame: Vec<(Rect, Color)>)
        ensures
            frame@.len() == 32 * 64,
            forall|i: int|
                0 <= i < 32 * 64 ==> #[trigger] frame@[i] == (
                    self.epixels[i / 64][i % 64],
                    paint(self.pixel_repr[i / 64][i % 64]),
                ),
    {
        let mut frame: Vec<(Rect, Color)> = Vec::with_capacity(32 * 64);
        let mut row: usize = 0;
        while row < 32
            invariant
                row <= 32,
                frame@.len() == row * 64,
                forall|i: int|
                    0 <= i < row * 64 ==> #[trigger] frame@[i] == (
                        self.epixels[i / 64][i % 64],
                        paint(self.pixel_repr[i / 64][i % 64]),
                    ),
            decreases 32 - row,
        {
            let mut column: usize = 0;
            while column < 64
                invariant
                    row < 32,
                    column <= 64,
                    frame@.len() == row * 64 + column,
                    forall|i: int|
                        0 <= i < row * 64 + column ==> #[trigger] frame@[i] == (
                            self.epixels[i / 64][i % 64],
                            paint(self.pixel_repr[i / 64][i % 64]),
                        ),
                decreases 64 - column,
            {
                let color = if self.pixel_repr[row][column] == 1 {
                    Color::White
                } else {
                    Color::Black
                };
                frame.push((self.epixels[row][column], color));
                column += 1;
            }
            row += 1;
        }
        frame
    }
}

/// Whether `pixels` has the shape of the display: 32 rows of 64 pixels.
pub open spec fn is_grid(pixels: Seq<Seq<bool>>) -> bool {
    &&& pixels.len() == 32
    &&& forall|row: int| 0 <= row < 32 ==> (#[trigger] pixels[row]).len() == 64
}

/// The display row on which row `k` of a sprite drawn at row `y` lands.
pub open spec fn target_row(y: int, k: int) -> int {
    (y + k) % 32
}

/// The display column on which column `j` of a sprite drawn at column `x`
/// lands.
pub open spec fn target_column(x: int, j: int) -> int {
    (x + j) % 64
}

/// Whether some pixel of a sprite of `rows` rows, set or not, drawn with
/// the top left corner at (`x`, `y`), lands on (`row`, `column`).
pub open spec fn covers(x: int, y: int, rows: nat, row: int, column: int) -> bool {
    exists|k: int, j: int|
        0 <= k < rows && 0 <= j < 8 && #[trigger] target_row(y, k) == row && #[trigger] target_column(
            x,
            j,
        ) == column
}

/// Drawing yields a grid of the display's shape, whatever the position:
/// coordinates wrap and never leave the grid.
pub proof fn lemma_blit_is_grid(pixels: Seq<Seq<bool>>, sprite: Seq<u8>, x: int, y: int)
    ensures
        is_grid(blit(pixels, sprite, x, y)),
{
}

/// Drawing changes no pixel but those that the sprite, wrapped round the
/// edges, covers.
pub proof fn lemma_blit_within_cover(
    pixels: Seq<Seq<bool>>,
    sprite: Seq<u8>,
    x: int,
    y: int,
    row: int,
    column: int,
)
    requires
        0 <= row < 32,
        0 <= column < 64,
        !covers(x, y, sprite.len(), row, column),
    ensures
        blit(pixels, sprite, x, y)[row][column] == pixels[row][column],
{
    lemma_flips_within_cover(sprite, x, y, sprite.len(), row, column);
}

/// The first `rows` rows of a sprite flip no pixel that they do not cover.
pub proof fn lemma_flips_within_cover(
    sprite: Seq<u8>,
    x: int,
    y: int,
    rows: nat,
    row: int,
    column: int,
)
    requires
        0 <= column < 64,
        !covers(x, y, rows, row, column),
    ensures
        !flips(sprite, x, y, rows, row, column),
    decreases rows,
{
    if rows > 0 {
        let k = (rows - 1) as int;
        let j = (column - x) % 64;
        if target_row(y, k) == row && j < 8 {
            assert(target_column(x, j) == column);
            assert(covers(x, y, rows, row, column));
        }
        assert(!covers(x, y, k as nat, row, column)) by {
            if covers(x, y, k as nat, row, column) {
                let (k0, j0) = choose|k0: int, j0: int|
                    0 <= k0 < k && 0 <= j0 < 8 && #[trigger] target_row(y, k0) == row
                        && #[trigger] target_column(x, j0) == column;
                assert(target_row(y, k0) == row && target_column(x, j0) == column);
            }
        }
        lemma_flips_within_cover(sprite, x, y, k as nat, row, column);
    }
}

/// Drawing is its own inverse: the same sprite drawn twice at the same
/// place leaves the grid as it was.
pub proof fn lemma_blit_twice(pixels: Seq<Seq<bool>>, sprite: Seq<u8>, x: int, y: int)
    requires
        is_grid(pixels),
    ensures
        blit(blit(pixels, sprite, x, y), sprite, x, y) == pixels,
{
    let once = blit(pixels, sprite, x, y);
    let twice = blit(once, sprite, x, y);
    assert forall|row: int| 0 <= row < 32 implies #[trigger] twice[row] == pixels[row] by {
        assert(once[row].len() == 64);
        assert(twice[row] =~= pixels[row]);
    }
    assert(twice =~= pixels);
}

/// A collision is an erasure: drawing collides exactly if some set bit of
/// the sprite lands on a pixel that is lit when the bit's row is drawn.
pub proof fn lemma_collision_is_erasure(pixels: Seq<Seq<bool>>, sprite: Seq<u8>, x: int, y: int)
    ensures
        collides(pixels, sprite, x, y) <==> exists|k: int, j: int|
            0 <= k < sprite.len() && 0 <= j < 8 && #[trigger] erases_at(pixels, sprite, x, y, k, j),
{
    if collides(pixels, sprite, x, y) {
        let (k, j) = choose|k: int, j: int|
            0 <= k && 0 <= j < 8 && (k < sprite.len() || (k == sprite.len() && j < 0))
                && #[trigger] erases_at(pixels, sprite, x, y, k, j);
        assert(0 <= k < sprite.len() && 0 <= j < 8 && erases_at(pixels, sprite, x, y, k, j));
    }
}

/// No two of the first 32 rows of a sprite land on the same display row:
/// before row `k` is drawn, no pixel of its display row has been flipped.
pub proof fn lemma_row_untouched_before(
    sprite: Seq<u8>,
    x: int,
    y: int,
    rows: nat,
    k: int,
    column: int,
)
    requires
        rows <= k < 32,
    ensures
        !flips(sprite, x, y, rows, target_row(y, k), column),
    decreases rows,
{
    if rows > 0 {
        lemma_row_untouched_before(sprite, x, y, (rows - 1) as nat, k, column);
    }
}

/// Of a sprite of 32 rows at most, the first `rows` rows flip a pixel
/// exactly if one of them has a set bit that lands on it.
pub proof fn lemma_flips_once(
    sprite: Seq<u8>,
    x: int,
    y: int,
    rows: nat,
    row: int,
    column: int,
)
    requires
        rows <= 32,
    ensures
        flips(sprite, x, y, rows, row, column) <==> exists|k: int|
            0 <= k < rows && #[trigger] target_row(y, k) == row && row_flips(
                sprite[k],
                x,
                column,
                8,
            ),
    decreases rows,
{
    if rows > 0 {
        let last = (rows - 1) as int;
        lemma_flips_once(sprite, x, y, last as nat, row, column);
        if target_row(y, last) == row {
            lemma_row_untouched_before(sprite, x, y, last as nat, last, column);
        }
        if flips(sprite, x, y, rows, row, column) {
            if flips(sprite, x, y, last as nat, row, column) {
                let k = choose|k: int|
                    0 <= k < last && #[trigger] target_row(y, k) == row && row_flips(
                        sprite[k],
                        x,
                        column,
                        8,
                    );
                assert(0 <= k < rows && target_row(y, k) == row);
            } else {
                assert(target_row(y, last) == row);
            }
        }
    }
}

/// Whether the pixel at (`row`, `column`) is lit in `before` and dark in
/// `after`.
pub open spec fn turned_off(
    before: Seq<Seq<bool>>,
    after: Seq<Seq<bool>>,
    row: int,
    column: int,
) -> bool {
    0 <= row < 32 && 0 <= column < 64 && before[row][column] && !after[row][column]
}

/// Of a sprite of 32 rows at most, a bit that erases turns its pixel off
/// for good.
pub proof fn lemma_erasure_turns_off(
    pixels: Seq<Seq<bool>>,
    sprite: Seq<u8>,
    x: int,
    y: int,
    k: int,
    j: int,
)
    requires
        sprite.len() <= 32,
        0 <= k < sprite.len(),
        0 <= j < 8,
        erases_at(pixels, sprite, x, y, k, j),
    ensures
        turned_off(
            pixels,
            blit(pixels, sprite, x, y),
            target_row(y, k),
            target_column(x, j),
        ),
{
    let row = target_row(y, k);
    let column = target_column(x, j);
    lemma_row_untouched_before(sprite, x, y, k as nat, k, column);
    lemma_flips_once(sprite, x, y, sprite.len(), row, column);
    assert((column - x) % 64 == j);
    assert(row_flips(sprite[k], x, column, 8));
    assert(flips(sprite, x, y, sprite.len(), row, column));
}

/// Of a sprite of 32 rows at most, a pixel that is lit before and dark
/// after was erased by some bit.
pub proof fn lemma_turned_off_was_erased(
    pixels: Seq<Seq<bool>>,
    sprite: Seq<u8>,
    x: int,
    y: int,
    row: int,
    column: int,
) -> (bit: (int, int))
    requires
        sprite.len() <= 32,
        turned_off(pixels, blit(pixels, sprite, x, y), row, column),
    ensures
        0 <= bit.0 < sprite.len(),
        0 <= bit.1 < 8,
        erases_at(pixels, sprite, x, y, bit.0, bit.1),
{
    assert(flips(sprite, x, y, sprite.len(), row, column));
    lemma_flips_once(sprite, x, y, sprite.len(), row, column);
    let k = choose|k: int|
        0 <= k < sprite.len() && #[trigger] target_row(y, k) == row && row_flips(
            sprite[k],
            x,
            column,
            8,
        );
    let j = (column - x) % 64;
    lemma_row_untouched_before(sprite, x, y, k as nat, k, column);
    assert((x + j) % 64 == column);
    (k, j)
}

/// For a sprite of 32 rows at most, a collision shows in the grid: drawing
/// collides exactly if some pixel is lit before and dark after.
pub proof fn lemma_collision_turns_a_pixel_off(
    pixels: Seq<Seq<bool>>,
    sprite: Seq<u8>,
    x: int,
    y: int,
)
    requires
        sprite.len() <= 32,
    ensures
        collides(pixels, sprite, x, y) <==> exists|row: int, column: int| #[trigger]
            turned_off(pixels, blit(pixels, sprite, x, y), row, column),
{
    let after = blit(pixels, sprite, x, y);
    lemma_collision_is_erasure(pixels, sprite, x, y);
    if collides(pixels, sprite, x, y) {
        let (k, j) = choose|k: int, j: int|
            0 <= k < sprite.len() && 0 <= j < 8 && #[trigger] erases_at(
                pixels,
                sprite,
                x,
                y,
                k,
                j,
            );
        lemma_erasure_turns_off(pixels, sprite, x, y, k, j);
    }
    if exists|row: int, column: int| #[trigger] turned_off(pixels, after, row, column) {
        let (row, column) = choose|row: int, column: int| #[trigger]
            turned_off(pixels, after, row, column);
        let bit = lemma_turned_off_was_erased(pixels, sprite, x, y, row, column);
        assert(erases_at(pixels, sprite, x, y, bit.0, bit.1));
    }
}

} // verus!
