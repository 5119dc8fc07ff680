use vstd::prelude::*;
use crate::fault::Fault;
use vstd::arithmetic::div_mod::{
    lemma_add_mod_noop, lemma_fundamental_div_mod, lemma_mod_multiples_vanish, lemma_small_mod,
};

verus! {

/// Pixels per row.
pub const WIDTH: usize = 64;

/// Number of rows.
pub const HEIGHT: usize = 32;

/// Bytes per font glyph, one byte per row.
pub const GLYPH_HEIGHT: usize = 5;

/// Glyphs for the hexadecimal digits 0 to F, five rows each.
pub const FONT_DATA: [u8; 80] = [
    0xF0, 0x90, 0x90, 0x90, 0xF0,
    0x20, 0x60, 0x20, 0x20, 0x70,
    0xF0, 0x10, 0xF0, 0x80, 0xF0,
    0xF0, 0x10, 0xF0, 0x10, 0xF0,
    0x90, 0x90, 0xF0, 0x10, 0x10,
    0xF0, 0x80, 0xF0, 0x10, 0xF0,
    0xF0, 0x80, 0xF0, 0x90, 0xF0,
    0xF0, 0x10, 0x20, 0x40, 0x40,
    0xF0, 0x90, 0xF0, 0x90, 0xF0,
    0xF0, 0x90, 0xF0, 0x10, 0xF0,
    0xF0, 0x90, 0xF0, 0x90, 0x90,
    0xE0, 0x90, 0xE0, 0x90, 0xE0,
    0xF0, 0x80, 0x80, 0x80, 0xF0,
    0xE0, 0x90, 0x90, 0x90, 0xE0,
    0xF0, 0x80, 0xF0, 0x80, 0xF0,
    0xF0, 0x80, 0xF0, 0x80, 0x80,
];

/// Where the top-left pixel of a sprite goes. Coordinates past the edge wrap.
#[derive(Clone, Copy, Debug)]
pub struct Position {
    pub x: usize,
    pub y: usize,
}

impl Position {
    pub fn new(x: usize, y: usize) -> (position: Position)
        ensures
            position.x == x,
            position.y == y,
    {
        Position { x, y }
    }
}

/// A filled rectangle on the host's output surface, in surface pixels.
#[derive(Clone, Copy, Debug)]
pub struct Rectangle {
    pub x: u32,
    pub y: u32,
    pub width: u32,
    pub height: u32,
}

/// A grid has `HEIGHT` rows of `WIDTH` pixels.
pub open spec fn grid_wf(grid: Seq<Seq<bool>>) -> bool {
    &&& grid.len() == HEIGHT
    &&& forall|row: int| 0 <= row < HEIGHT ==> (#[trigger] grid[row]).len() == WIDTH
}

/// The grid with every pixel off.
pub open spec fn blank_grid() -> Seq<Seq<bool>> {
    Seq::new(HEIGHT as nat, |row: int| Seq::new(WIDTH as nat, |col: int| false))
}

/// Bit `i` of a sprite row, counted from the most significant bit.
pub open spec fn sprite_bit(byte: u8, i: int) -> bool {
    0 <= i < 8 && (byte >> ((7 - i) as u8)) & 1u8 == 1u8
}

/// How far column `col` lies to the right of column `x`, going round the edge.
pub open spec fn column_offset(x: int, col: int) -> int {
    (col - x) % (WIDTH as int)
}

/// Whether sprite row number `k`, holding `byte`, has a set bit that falls on
/// pixel (`row`, `col`) when the sprite is placed at `position`.
pub open spec fn lands(byte: u8, k: int, position: Position, row: int, col: int) -> bool {
    &&& (position.y + k) % (HEIGHT as int) == row
    &&& sprite_bit(byte, column_offset(position.x as int, col))
}

/// Whether an odd number of set sprite bits fall on pixel (`row`, `col`).
pub open spec fn sprite_mask(sprite: Seq<u8>, position: Position, row: int, col: int) -> bool
    decreases sprite.len(),
{
    if sprite.len() == 0 {
        false
    } else {
        sprite_mask(sprite.drop_last(), position, row, col) != lands(
            sprite.last(),
            sprite.len() - 1,
            position,
            row,
            col,
        )
    }
}

/// The grid after the sprite has been XORed onto it at `position`.
pub open spec fn drawn(grid: Seq<Seq<bool>>, sprite: Seq<u8>, position: Position) -> Seq<
    Seq<bool>,
> {
    Seq::new(
        HEIGHT as nat,
        |row: int|
            Seq::new(
                WIDTH as nat,
                |col: int| grid[row][col] != sprite_mask(sprite, position, row, col),
            ),
    )
}

/// Whether one of the first `limit` bits of sprite row number `k` falls on a
/// pixel of `grid` that is on.
pub open spec fn row_collides_before(
    grid: Seq<Seq<bool>>,
    byte: u8,
    k: int,
    position: Position,
    limit: int,
) -> bool
    decreases limit,
{
    if limit <= 0 {
        false
    } else {
        ||| row_collides_before(grid, byte, k, position, limit - 1)
        ||| (sprite_bit(byte, limit - 1) && grid[(position.y + k) % (HEIGHT as int)][(position.x
            + limit - 1) % (WIDTH as int)])
    }
}

/// Whether drawing the sprite row by row turns some pixel from on to off.
pub open spec fn collides(grid: Seq<Seq<bool>>, sprite: Seq<u8>, position: Position) -> bool
    decreases sprite.len(),
{
    if sprite.len() == 0 {
        false
    } else {
        ||| collides(grid, sprite.drop_last(), position)
        ||| row_collides_before(
            drawn(grid, sprite.drop_last(), position),
            sprite.last(),
            sprite.len() - 1,
            position,
            8,
        )
    }
}

/// The five rows of font glyph `glyph`.
pub open spec fn glyph_rows(glyph: int) -> Seq<u8> {
    FONT_DATA@.subrange(glyph * GLYPH_HEIGHT, glyph * GLYPH_HEIGHT + GLYPH_HEIGHT)
}

/// The rectangle that covers cell number `cell` (counted row by row) on a
/// surface of the given size.
pub open spec fn cell_rectangle(cell: int, surface_width: u32, surface_height: u32) -> Rectangle {
    Rectangle {
        x: ((cell % (WIDTH as int)) * (surface_width / 64)) as u32,
        y: ((cell / (WIDTH as int)) * (surface_height / 32)) as u32,
        width: surface_width / 64,
        height: surface_height / 32,
    }
}

/// The rectangles of the lit pixels among the first `cells` cells, row by row.
pub open spec fn lit_rectangles(
    grid: Seq<Seq<bool>>,
    cells: int,
    surface_width: u32,
    surface_height: u32,
) -> Seq<Rectangle>
    decreases cells,
{
    if cells <= 0 {
        Seq::empty()
    } else {
        let before = lit_rectangles(grid, cells - 1, surface_width, surface_height);
        if grid[(cells - 1) / (WIDTH as int)][(cells - 1) % (WIDTH as int)] {
            before.push(cell_rectangle(cells - 1, surface_width, surface_height))
        } else {
            before
        }
    }
}

/// Column `(x + i) mod 64` lies `i` to the right of `x`.
proof fn lemma_column_offset(x: int, i: int)
    requires
        0 <= x,
        0 <= i < WIDTH,
    ensures
        (x % (WIDTH as int) + i) % (WIDTH as int) == (x + i) % (WIDTH as int),
        column_offset(x, (x + i) % (WIDTH as int)) == i,
{
    let c = (x + i) % 64;
    let q = (x + i) / 64;
    lemma_fundamental_div_mod(x + i, 64);
    lemma_add_mod_noop(x, i, 64);
    lemma_small_mod(i as nat, 64);
    assert(c - x == 64 * (-q) + i);
    lemma_mod_multiples_vanish(-q, i, 64);
}

/// No other column lies `i` to the right of `x`.
proof fn lemma_column_unique(x: int, i: int, c: int)
    requires
        0 <= x,
        0 <= i < WIDTH,
        0 <= c < WIDTH,
        column_offset(x, c) == i,
    ensures
        c == (x + i) % (WIDTH as int),
{
    let m = (c - x) / 64;
    lemma_fundamental_div_mod(c - x, 64);
    assert(c == 64 * m + (x + i));
    lemma_mod_multiples_vanish(m, x + i, 64);
    lemma_small_mod(c as nat, 64);
}

/// Reducing both terms first does not change the wrapped row.
proof fn lemma_row_index(y: int, k: int)
    requires
        0 <= y,
        0 <= k,
    ensures
        (y % (HEIGHT as int) + k % (HEIGHT as int)) % (HEIGHT as int) == (y + k) % (
        HEIGHT as int),
{
    lemma_add_mod_noop(y, k, 32);
}

/// A set bit that falls on a lit pixel within the first `limit` bits is a
/// collision of that row.
proof fn lemma_row_collision_witness(
    grid: Seq<Seq<bool>>,
    byte: u8,
    k: int,
    position: Position,
    j: int,
    limit: int,
)
    requires
        0 <= j < limit,
        sprite_bit(byte, j),
        grid[(position.y + k) % (HEIGHT as int)][(position.x + j) % (WIDTH as int)],
    ensures
        row_collides_before(grid, byte, k, position, limit),
    decreases limit,
{
    if j < limit - 1 {
        lemma_row_collision_witness(grid, byte, k, position, j, limit - 1);
    }
}

/// Drawing over a lit pixel on which an odd number of set bits fall reports
/// a collision.
proof fn lemma_masked_lit_pixel_collides(
    grid: Seq<Seq<bool>>,
    sprite: Seq<u8>,
    position: Position,
    row: int,
    col: int,
)
    requires
        0 <= row < HEIGHT,
        0 <= col < WIDTH,
        grid[row][col],
        sprite_mask(sprite, position, row, col),
    ensures
        collides(grid, sprite, position),
    decreases sprite.len(),
{
    let rest = sprite.drop_last();
    if sprite_mask(rest, position, row, col) {
        lemma_masked_lit_pixel_collides(grid, rest, position, row, col);
    } else {
        let k = sprite.len() - 1;
        let j = column_offset(position.x as int, col);
        assert(lands(sprite.last(), k, position, row, col));
        lemma_column_unique(position.x as int, j, col);
        assert(drawn(grid, rest, position)[row][col]);
        lemma_row_collision_witness(
            drawn(grid, rest, position),
            sprite.last(),
            k,
            position,
            j,
            8,
        );
    }
}

/// Drawing is self-inverse: the same sprite drawn twice at the same position
/// leaves the grid as it was.
pub proof fn lemma_draw_twice_restores(grid: Seq<Seq<bool>>, sprite: Seq<u8>, position: Position)
    requires
        grid_wf(grid),
    ensures
        drawn(drawn(grid, sprite, position), sprite, position) == grid,
{
    assert(drawn(drawn(grid, sprite, position), sprite, position) =~~= grid);
}

/// If the first draw turned the pixel at (`row`, `col`) on, drawing the same
/// sprite again at the same position reports a collision.
pub proof fn lemma_redraw_collides(
    grid: Seq<Seq<bool>>,
    sprite: Seq<u8>,
    position: Position,
    row: int,
    col: int,
)
    requires
        grid_wf(grid),
        0 <= row < HEIGHT,
        0 <= col < WIDTH,
        !grid[row][col],
        drawn(grid, sprite, position)[row][col],
    ensures
        collides(drawn(grid, sprite, position), sprite, position),
{
    lemma_masked_lit_pixel_collides(drawn(grid, sprite, position), sprite, position, row, col);
}

/// Drawing gives a grid of the full shape.
pub broadcast proof fn lemma_drawn_shape(grid: Seq<Seq<bool>>, sprite: Seq<u8>, position: Position)
    ensures
        grid_wf(#[trigger] drawn(grid, sprite, position)),
{
}

/// The monochrome framebuffer.
pub struct Display {
    pixels: [[bool; 64]; 32],
    present_due: bool,
}

impl View for Display {
    type V = Seq<Seq<bool>>;

    closed spec fn view(&self) -> Seq<Seq<bool>> {
        Seq::new(HEIGHT as nat, |row: int| self.pixels@[row]@)
    }
}

impl Display {
    /// Whether the grid was cleared since it was last handed to the host.
    pub closed spec fn present_due(&self) -> bool {
        self.present_due
    }

    /// The view always has the full grid's shape.
    pub broadcast proof fn lemma_shape(&self)
        ensures
            #[trigger] grid_wf(self@),
    {
    }

    /// A blank framebuffer.
    pub fn new() -> (display: Display)
        ensures
            display@ == blank_grid(),
            !display.present_due(),
    {
        let display = Display { pixels: [[false; 64]; 32], present_due: false };
        proof {
            assert(display@ =~~= blank_grid());
        }
        display
    }

    /// Turns every pixel off and notes that the host should present.
    pub fn clear(&mut self)
        ensures
            final(self)@ == blank_grid(),
            final(self).present_due(),
    {
        self.pixels = [[false; 64]; 32];
        self.present_due = true;
        proof {
            assert(self@ =~~= blank_grid());
        }
    }

    /// Whether the pixel at (`row`, `col`) is on.
    pub fn pixel(&self, row: usize, col: usize) -> (on: bool)
        requires
            row < HEIGHT,
            col < WIDTH,
        ensures
            on == self@[row as int][col as int],
    {
        self.pixels[row][col]
    }

    /// XORs the sprite onto the grid, one byte per row from `position`
    /// downward, most significant bit leftmost, wrapping at both edges.
    /// Returns whether some pixel went from on to off.
    pub fn draw_sprite(&mut self, sprite: &[u8], position: Position) -> (result: Result<
        bool,
        Fault,
    >)
        ensures
            final(self)@ == drawn(old(self)@, sprite@, position),
            result == Ok::<bool, Fault>(collides(old(self)@, sprite@, position)),
            final(self).present_due() == old(self).present_due(),
    {
        let mut collided = false;
        let mut k: usize = 0;
        proof {
            assert(sprite@.take(0) =~= Seq::<u8>::empty());
            assert(self@ =~~= drawn(old(self)@, sprite@.take(0), position));
        }
        while k < sprite.len()
            invariant
                k <= sprite@.len(),
                self@ == drawn(old(self)@, sprite@.take(k as int), position),
                collided == collides(old(self)@, sprite@.take(k as int), position),
                self.present_due() == old(self).present_due(),
            decreases sprite@.len() - k,
        {
            let line = sprite[k];
            let row = (position.y % HEIGHT + k % HEIGHT) % HEIGHT;
            let ghost base = self@;
            let ghost before = collided;
            let mut i: usize = 0;
            while i < 8
                invariant
                    i <= 8,
                    k < sprite@.len(),
                    line == sprite@[k as int],
                    row == (position.y + k) % (HEIGHT as int),
                    grid_wf(base),
                    grid_wf(self@),
                    forall|r: int, c: int|
                        0 <= r < HEIGHT && 0 <= c < WIDTH ==> #[trigger] self@[r][c] == (base[r][c]
                            != (lands(line, k as int, position, r, c) && column_offset(
                            position.x as int,
                            c,
                        ) < i)),
                    collided == (before || row_collides_before(
                        base,
                        line,
                        k as int,
                        position,
                        i as int,
                    )),
                    self.present_due() == old(self).present_due(),
                decreases 8 - i,
            {
                let col = (position.x % WIDTH + i) % WIDTH;
                let current_pixel = self.pixels[row][col];
                let new_pixel = (line >> (7u8 - i as u8)) & 1u8 == 1u8;
                let updated_pixel = current_pixel != new_pixel;
                if current_pixel && !updated_pixel {
                    collided = true;
                }
                let ghost prior = self@;
                let mut cells = self.pixels[row];
                cells[col] = updated_pixel;
                self.pixels[row] = cells;
                proof {
                    lemma_column_offset(position.x as int, i as int);
                    lemma_row_index(position.y as int, k as int);
                    assert(self@[row as int][col as int] == updated_pixel);
                    assert(prior[row as int][col as int] == current_pixel);
                    assert(current_pixel == base[row as int][col as int]);
                    assert(new_pixel == sprite_bit(line, i as int));
                    assert(lands(line, k as int, position, row as int, col as int) == new_pixel);
                    assert forall|r: int, c: int| 0 <= r < HEIGHT && 0 <= c < WIDTH implies #[trigger] self@[r][c]
                        == (base[r][c] != (lands(line, k as int, position, r, c) && column_offset(
                        position.x as int,
                        c,
                    ) < i + 1)) by {
                        if r == row && c == col {
                        } else {
                            assert(self@[r][c] == prior[r][c]);
                            if r == row && column_offset(position.x as int, c) == i {
                                lemma_column_unique(position.x as int, i as int, c);
                            }
                        }
                    }
                }
                i += 1;
            }
            proof {
                let next = sprite@.take(k + 1);
                assert(next.drop_last() =~= sprite@.take(k as int));
                assert(next.last() == line);
                assert(self@ =~~= drawn(old(self)@, next, position));
            }
            k += 1;
        }
        proof {
            assert(sprite@.take(k as int) =~= sprite@);
        }
        Ok(collided)
    }

    /// Draws the font glyph for the hexadecimal digit `character` at
    /// `position`. Digits above 0xF have no glyph and leave the grid as it is.
    pub fn draw_character_from_font(&mut self, character: u8, position: Position) -> (result:
        Result<(), Fault>)
        ensures
            character < 16 ==> result.is_ok() && final(self)@ == drawn(
                old(self)@,
                glyph_rows(character as int),
                position,
            ),
            character >= 16 ==> result == Err::<(), Fault>(
                (Fault::UnknownGlyph { glyph: character }),
            ) && final(self)@ == old(self)@,
            final(self).present_due() == old(self).present_due(),
    {
        if character >= 16 {
            return Err(Fault::UnknownGlyph { glyph: character });
        }
        let start: usize = character as usize * GLYPH_HEIGHT;
        let sprite: [u8; 5] = [
            FONT_DATA[start],
            FONT_DATA[start + 1],
            FONT_DATA[start + 2],
            FONT_DATA[start + 3],
            FONT_DATA[start + 4],
        ];
        proof {
            assert(sprite@ =~= glyph_rows(character as int));
        }
        let _ = self.draw_sprite(sprite.as_slice(), position);
        Ok(())
    }

    /// The rectangles that paint the lit pixels on a host surface of the
    /// given size, row by row, each cell a `surface_width / 64` by
    /// `surface_height / 32` rectangle. Marks the grid as presented.
    pub fn refresh(&mut self, surface_width: u32, surface_height: u32) -> (rectangles: Vec<
        Rectangle,
    >)
        ensures
            rectangles@ == lit_rectangles(
                old(self)@,
                (WIDTH * HEIGHT) as int,
                surface_width,
                surface_height,
            ),
            final(self)@ == old(self)@,
            !final(self).present_due(),
    {
        let rect_width = surface_width / 64;
        let rect_height = surface_height / 32;
        let mut rectangles: Vec<Rectangle> = Vec::new();
        let mut row_index: usize = 0;
        while row_index < HEIGHT
            invariant
                row_index <= HEIGHT,
                rect_width == surface_width / 64,
                rect_height == surface_height / 32,
                self@ == old(self)@,
                rectangles@ == lit_rectangles(
                    self@,
                    row_index * WIDTH,
                    surface_width,
                    surface_height,
                ),
            decreases HEIGHT - row_index,
        {
            assert(row_index * rect_height <= u32::MAX) by (nonlinear_arith)
                requires
                    row_index < 32,
                    rect_height <= 0x7FF_FFFF,
            ;
            let y = (row_index as u32) * rect_height;
            let mut col_index: usize = 0;
            while col_index < WIDTH
                invariant
                    col_index <= WIDTH,
                    row_index < HEIGHT,
                    rect_width == surface_width / 64,
                    rect_height == surface_height / 32,
                    y == row_index * rect_height,
                    self@ == old(self)@,
                    rectangles@ == lit_rectangles(
                        self@,
                        row_index * WIDTH + col_index,
                        surface_width,
                        surface_height,
                    ),
                decreases WIDTH - col_index,
            {
                if self.pixels[row_index][col_index] {
                    assert(col_index * rect_width <= u32::MAX) by (nonlinear_arith)
                        requires
                            col_index < 64,
                            rect_width <= 0x3FF_FFFF,
                    ;
                    let x = (col_index as u32) * rect_width;
                    rectangles.push(Rectangle { x, y, width: rect_width, height: rect_height });
                }
                col_index += 1;
            }
            row_index += 1;
        }
        self.present_due = false;
        rectangles
    }

    /// Whether a present has been due since the last `refresh`.
    pub fn is_present_due(&self) -> (due: bool)
        ensures
            due == self.present_due(),
    {
        self.present_due
    }
}

} // verus!
