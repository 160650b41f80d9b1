//! The framebuffer: a grid of on/off cells onto which sprites are XOR-blitted.

use vstd::prelude::*;

verus! {

/// Number of columns the grid can hold.
pub const WIDTH: usize = 64;

/// Number of rows the grid can hold.
pub const HEIGHT: usize = 32;

/// Whether column `col` (0 is leftmost) of a sprite row is set.
pub open spec fn sprite_bit(row: u8, col: int) -> bool {
    0 <= col < 8 && row & (0x80u8 >> (col as u8)) != 0
}

/// Mathematical model of a framebuffer: `grid[x][y]` is the cell in column `x`, row `y`.
pub struct Screen {
    pub grid: Seq<Seq<u8>>,
    pub width: u8,
    pub height: u8,
    pub redraw: bool,
}

impl Screen {
    /// The grid has its full storage, every cell is 0 or 1, and the configured
    /// dimensions are non-empty and fit the storage.
    pub open spec fn wf(self) -> bool {
        &&& self.grid.len() == WIDTH
        &&& forall|x: int| 0 <= x < WIDTH ==> (#[trigger] self.grid[x]).len() == HEIGHT
        &&& forall|x: int, y: int|
            0 <= x < WIDTH && 0 <= y < HEIGHT ==> #[trigger] self.grid[x][y] <= 1
        &&& 1 <= self.width <= WIDTH
        &&& 1 <= self.height <= HEIGHT
    }

    /// The grid with every cell off.
    pub open spec fn blank_grid() -> Seq<Seq<u8>> {
        Seq::new(WIDTH as nat, |x: int| Seq::new(HEIGHT as nat, |y: int| 0u8))
    }

    /// Column at which a sprite drawn at `vx` starts.
    pub open spec fn origin_x(self, vx: u8) -> int {
        vx as int % self.width as int
    }

    /// Row at which a sprite drawn at `vy` starts.
    pub open spec fn origin_y(self, vy: u8) -> int {
        vy as int % self.height as int
    }

    /// Whether drawing `sprite` at `(vx, vy)` flips cell `(x, y)`: the cell lies
    /// under a set sprite bit and inside the configured grid. Only the origin
    /// wraps; what extends past the right or bottom edge is clipped.
    pub open spec fn touched(self, sprite: Seq<u8>, vx: u8, vy: u8, x: int, y: int) -> bool {
        &&& self.origin_x(vx) <= x < self.width
        &&& self.origin_y(vy) <= y < self.height
        &&& y - self.origin_y(vy) < sprite.len()
        &&& sprite_bit(sprite[y - self.origin_y(vy)], x - self.origin_x(vx))
    }

    /// Whether the draw flips at least one cell.
    pub open spec fn flips(self, sprite: Seq<u8>, vx: u8, vy: u8) -> bool {
        exists|x: int, y: int| #[trigger] self.touched(sprite, vx, vy, x, y)
    }

    /// Whether the draw flips at least one cell that was on.
    pub open spec fn collides(self, sprite: Seq<u8>, vx: u8, vy: u8) -> bool {
        exists|x: int, y: int| #[trigger]
            self.touched(sprite, vx, vy, x, y) && self.grid[x][y] == 1
    }

    /// Whether the draw turns at least one cell on.
    pub open spec fn sets(self, sprite: Seq<u8>, vx: u8, vy: u8) -> bool {
        exists|x: int, y: int| #[trigger]
            self.touched(sprite, vx, vy, x, y) && self.grid[x][y] == 0
    }

    /// Value of cell `(x, y)` after the draw.
    pub open spec fn drawn_cell(self, sprite: Seq<u8>, vx: u8, vy: u8, x: int, y: int) -> u8 {
        if self.touched(sprite, vx, vy, x, y) {
            (1 - self.grid[x][y]) as u8
        } else {
            self.grid[x][y]
        }
    }

    /// The screen after drawing `sprite` at `(vx, vy)`.
    pub open spec fn drawn(self, sprite: Seq<u8>, vx: u8, vy: u8) -> Screen {
        Screen {
            grid: Seq::new(
                WIDTH as nat,
                |x: int| Seq::new(HEIGHT as nat, |y: int| self.drawn_cell(sprite, vx, vy, x, y)),
            ),
            width: self.width,
            height: self.height,
            redraw: self.redraw || self.flips(sprite, vx, vy),
        }
    }

    /// The screen after a clear.
    pub open spec fn cleared(self) -> Screen {
        Screen { grid: Self::blank_grid(), width: self.width, height: self.height, redraw: true }
    }

    /// Byte `j` of the RGBA frame: pixels row by row, four bytes each, white
    /// for a cell that is on and black for one that is off, always opaque.
    pub open spec fn frame_byte(self, j: int) -> u8 {
        let pixel = j / 4;
        if j % 4 == 3 || self.grid[pixel % (self.width as int)][pixel / (self.width as int)] != 0 {
            0xffu8
        } else {
            0x00u8
        }
    }

    /// The screen as an RGBA frame of `width` by `height` pixels.
    pub open spec fn frame(self) -> Seq<u8> {
        Seq::new((4 * self.width * self.height) as nat, |j: int| self.frame_byte(j))
    }

    /// The part of `touched` that a blit has reached once it has finished
    /// `rows` sprite rows and `cols` columns of the next one.
    pub open spec fn reached(
        self,
        sprite: Seq<u8>,
        vx: u8,
        vy: u8,
        x: int,
        y: int,
        rows: int,
        cols: int,
    ) -> bool {
        &&& self.touched(sprite, vx, vy, x, y)
        &&& (y - self.origin_y(vy) < rows || (y - self.origin_y(vy) == rows && x - self.origin_x(
            vx,
        ) < cols))
    }
}

/// The cells of a grid array as nested sequences.
pub open spec fn grid_view(g: [[u8; HEIGHT]; WIDTH]) -> Seq<Seq<u8>> {
    Seq::new(WIDTH as nat, |x: int| g[x]@)
}

pub struct Display {
    display: [[u8; HEIGHT]; WIDTH],
    width: u8,
    height: u8,
    redraw: bool,
}

impl View for Display {
    type V = Screen;

    closed spec fn view(&self) -> Screen {
        Screen {
            grid: grid_view(self.display),
            width: self.width,
            height: self.height,
            redraw: self.redraw,
        }
    }
}

proof fn lemma_flip(c: u8)
    requires
        c <= 1,
    ensures
        c ^ 1 == 1 - c,
{
    assert(c <= 1 ==> (c ^ 1) == 1 - c) by (bit_vector);
}

impl Display {
    /// A blank 64 by 32 screen, flagged for a first repaint.
    pub fn new() -> (d: Display)
        ensures
            d@.wf(),
            d@ == (Screen {
                grid: Screen::blank_grid(),
                width: 64,
                height: 32,
                redraw: true,
            }),
    {
        let d = Display { display: [[0u8; HEIGHT]; WIDTH], width: 64, height: 32, redraw: true };
        assert(d@.grid =~~= Screen::blank_grid());
        d
    }

    /// A copy of the cells, indexed by column and then by row.
    pub fn display(&self) -> (g: [[u8; HEIGHT]; WIDTH])
        ensures
            grid_view(g) == self@.grid,
    {
        self.display
    }

    pub fn width(&self) -> (w: u8)
        ensures
            w == self@.width,
    {
        self.width
    }

    /// Sets the number of columns in use; the storage holds at most 64.
    pub fn set_width(&mut self, new_width: u8)
        requires
            1 <= new_width <= WIDTH,
        ensures
            final(self)@ == (Screen { width: new_width, ..old(self)@ }),
    {
        self.width = new_width;
    }

    pub fn height(&self) -> (h: u8)
        ensures
            h == self@.height,
    {
        self.height
    }

    /// Sets the number of rows in use; the storage holds at most 32.
    pub fn set_height(&mut self, new_height: u8)
        requires
            1 <= new_height <= HEIGHT,
        ensures
            final(self)@ == (Screen { height: new_height, ..old(self)@ }),
    {
        self.height = new_height;
    }

    /// Whether the cells changed since the flag was last reset.
    pub fn redraw(&self) -> (r: bool)
        ensures
            r == self@.redraw,
    {
        self.redraw
    }

    /// Acknowledges the change flag.
    pub fn reset_redraw(&mut self)
        ensures
            final(self)@ == (Screen { redraw: false, ..old(self)@ }),
    {
        self.redraw = false;
    }

    /// Returns the change flag and resets it.
    pub fn consume_redraw(&mut self) -> (r: bool)
        ensures
            r == old(self)@.redraw,
            final(self)@ == (Screen { redraw: false, ..old(self)@ }),
    {
        let r = self.redraw;
        self.redraw = false;
        r
    }

    /// The screen as an RGBA frame, four bytes for each pixel, row by row.
    pub fn frame(&self) -> (frame: Vec<u8>)
        requires
            self@.wf(),
        ensures
            frame@ == self@.frame(),
    {
        let width = self.width as usize;
        let height = self.height as usize;
        assert(width * height <= 2048) by (nonlinear_arith)
            requires
                width <= 64,
                height <= 32,
        ;
        let pixels = width * height;
        let mut frame: Vec<u8> = Vec::new();
        let mut i: usize = 0;
        while i < pixels
            invariant
                self@.wf(),
                width == self.width,
                height == self.height,
                pixels == width * height,
                pixels <= 2048,
                i <= pixels,
                frame@.len() == 4 * i,
                forall|j: int| 0 <= j < 4 * i ==> #[trigger] frame@[j] == self@.frame_byte(j),
            decreases pixels - i,
        {
            proof {
                vstd::arithmetic::div_mod::lemma_multiply_divide_lt(
                    i as int,
                    width as int,
                    height as int,
                );
            }
            let x = i % width;
            let y = i / width;
            let shade: u8 = if self.display[x][y] == 0 {
                0x00
            } else {
                0xff
            };
            frame.push(shade);
            frame.push(shade);
            frame.push(shade);
            frame.push(0xff);
            i += 1;
        }
        assert(4 * self.width * self.height == 4 * pixels) by (nonlinear_arith)
            requires
                pixels == self.width * self.height,
        ;
        assert(frame@ =~= self@.frame());
        frame
    }

    /// Turns every cell off and flags the change.
    pub fn clear_screen(&mut self)
        ensures
            final(self)@ == old(self)@.cleared(),
            old(self)@.wf() ==> final(self)@.wf(),
    {
        self.display = [[0u8; HEIGHT]; WIDTH];
        self.redraw = true;
        assert(self@.grid =~~= Screen::blank_grid());
    }

    /// XOR-blits `sprite`, one byte per row and the most significant bit
    /// leftmost, with its top left corner at `(vx, vy)` wrapped into the grid.
    /// Returns 1 if a cell that was on has been turned off, else 0; flags the
    /// change if any cell was flipped.
    pub fn draw(&mut self, sprite: &[u8], vx: u8, vy: u8) -> (collision: u8)
        requires
            old(self)@.wf(),
        ensures
            final(self)@.wf(),
            final(self)@ == old(self)@.drawn(sprite@, vx, vy),
            collision == (if old(self)@.collides(sprite@, vx, vy) {
                1u8
            } else {
                0u8
            }),
    {
        let ghost s0 = self@;
        let x = vx % self.width;
        let y = vy % self.height;
        let columns = self.width - x;
        let rows = (self.height - y) as usize;
        let mut collision: u8 = 0;
        let mut row: usize = 0;
        while row < sprite.len() && row < rows
            invariant
                s0.wf(),
                x == s0.origin_x(vx),
                y == s0.origin_y(vy),
                columns == s0.width - x,
                rows == s0.height - y,
                row <= sprite.len(),
                row <= rows,
                self.width == s0.width,
                self.height == s0.height,
                collision <= 1,
                collision == 1 <==> exists|cx: int, cy: int|
                    #[trigger] s0.reached(sprite@, vx, vy, cx, cy, row as int, 0)
                        && s0.grid[cx][cy] == 1,
                self.redraw == (s0.redraw || exists|cx: int, cy: int|
                    #[trigger] s0.reached(sprite@, vx, vy, cx, cy, row as int, 0)),
                forall|cx: int, cy: int|
                    0 <= cx < WIDTH && 0 <= cy < HEIGHT ==> #[trigger] self.display[cx][cy] == (
                    if s0.reached(sprite@, vx, vy, cx, cy, row as int, 0) {
                        (1 - s0.grid[cx][cy]) as u8
                    } else {
                        s0.grid[cx][cy]
                    }),
            decreases sprite.len() - row,
        {
            let sprite_row = sprite[row];
            let cy = y as usize + row;
            let mut pixel: u8 = 0;
            while pixel < 8 && pixel < columns
                invariant
                    s0.wf(),
                    x == s0.origin_x(vx),
                    y == s0.origin_y(vy),
                    columns == s0.width - x,
                    rows == s0.height - y,
                    row < sprite.len(),
                    row < rows,
                    sprite_row == sprite@[row as int],
                    cy == y + row,
                    pixel <= 8,
                    pixel <= columns,
                    self.width == s0.width,
                    self.height == s0.height,
                    collision <= 1,
                    collision == 1 <==> exists|cx: int, cy: int|
                        #[trigger] s0.reached(sprite@, vx, vy, cx, cy, row as int, pixel as int)
                            && s0.grid[cx][cy] == 1,
                    self.redraw == (s0.redraw || exists|cx: int, cy: int|
                        #[trigger] s0.reached(sprite@, vx, vy, cx, cy, row as int, pixel as int)),
                    forall|cx: int, cy: int|
                        0 <= cx < WIDTH && 0 <= cy < HEIGHT ==> #[trigger] self.display[cx][cy]
                            == (if s0.reached(sprite@, vx, vy, cx, cy, row as int, pixel as int) {
                            (1 - s0.grid[cx][cy]) as u8
                        } else {
                            s0.grid[cx][cy]
                        }),
                decreases 8 - pixel,
            {
                let cx = (x + pixel) as usize;
                let ghost hit = sprite_bit(sprite_row, pixel as int);
                assert(s0.touched(sprite@, vx, vy, cx as int, cy as int) == hit);
                assert(!s0.reached(sprite@, vx, vy, cx as int, cy as int, row as int, pixel as int));
                assert(forall|ax: int, ay: int|
                    #![trigger s0.reached(sprite@, vx, vy, ax, ay, row as int, pixel + 1)]
                    #![trigger s0.reached(sprite@, vx, vy, ax, ay, row as int, pixel as int)]
                    s0.reached(sprite@, vx, vy, ax, ay, row as int, pixel + 1) == (s0.reached(
                        sprite@,
                        vx,
                        vy,
                        ax,
                        ay,
                        row as int,
                        pixel as int,
                    ) || (hit && ax == cx && ay == cy)));
                if sprite_row & (0x80u8 >> pixel) != 0 {
                    let mut column = self.display[cx];
                    let cell = column[cy];
                    assert(cell == s0.grid[cx as int][cy as int]);
                    if cell == 1 {
                        collision = 1;
                    }
                    proof {
                        lemma_flip(cell);
                    }
                    column[cy] = cell ^ 1;
                    self.display[cx] = column;
                    self.redraw = true;
                    assert(s0.reached(sprite@, vx, vy, cx as int, cy as int, row as int, pixel + 1));
                }
                pixel += 1;
            }
            proof {
                assert(forall|ax: int, ay: int|
                    #![trigger s0.reached(sprite@, vx, vy, ax, ay, row as int, pixel as int)]
                    #![trigger s0.reached(sprite@, vx, vy, ax, ay, row + 1, 0)]
                    s0.reached(sprite@, vx, vy, ax, ay, row as int, pixel as int) == s0.reached(
                        sprite@,
                        vx,
                        vy,
                        ax,
                        ay,
                        row + 1,
                        0,
                    ));
            }
            row += 1;
        }
        proof {
            assert(forall|ax: int, ay: int|
                #![trigger s0.reached(sprite@, vx, vy, ax, ay, row as int, 0)]
                #![trigger s0.touched(sprite@, vx, vy, ax, ay)]
                s0.reached(sprite@, vx, vy, ax, ay, row as int, 0) == s0.touched(
                    sprite@,
                    vx,
                    vy,
                    ax,
                    ay,
                ));
            assert(self@.grid =~~= s0.drawn(sprite@, vx, vy).grid);
        }
        collision
    }
}

/// Drawing keeps a valid screen valid.
pub proof fn lemma_drawn_wf(s: Screen, sprite: Seq<u8>, vx: u8, vy: u8)
    requires
        s.wf(),
    ensures
        s.drawn(sprite, vx, vy).wf(),
{
}

/// XOR is its own inverse: drawing a sprite twice at the same place gives
/// back the cells as they were, and the second draw reports a collision
/// exactly when the first one turned a cell on.
pub proof fn lemma_draw_twice_restores(s: Screen, sprite: Seq<u8>, vx: u8, vy: u8)
    requires
        s.wf(),
    ensures
        s.drawn(sprite, vx, vy).drawn(sprite, vx, vy).grid == s.grid,
        s.drawn(sprite, vx, vy).collides(sprite, vx, vy) == s.sets(sprite, vx, vy),
{
    let once = s.drawn(sprite, vx, vy);
    let twice = once.drawn(sprite, vx, vy);
    assert forall|x: int, y: int|
        once.touched(sprite, vx, vy, x, y) == #[trigger] s.touched(sprite, vx, vy, x, y) by {}
    assert forall|x: int, y: int|
        s.touched(sprite, vx, vy, x, y) == #[trigger] once.touched(sprite, vx, vy, x, y) by {}
    assert(twice.grid =~~= s.grid);
    if s.sets(sprite, vx, vy) {
        let (x, y) = choose|x: int, y: int| #[trigger]
            s.touched(sprite, vx, vy, x, y) && s.grid[x][y] == 0;
        assert(once.touched(sprite, vx, vy, x, y) && once.grid[x][y] == 1);
    }
    if once.collides(sprite, vx, vy) {
        let (x, y) = choose|x: int, y: int| #[trigger]
            once.touched(sprite, vx, vy, x, y) && once.grid[x][y] == 1;
        assert(s.touched(sprite, vx, vy, x, y) && s.grid[x][y] == 0);
    }
}

/// After a clear every cell is off and the dimensions are as configured.
pub proof fn lemma_cleared_is_blank(s: Screen)
    ensures
        s.cleared().grid.len() == WIDTH,
        forall|x: int| 0 <= x < WIDTH ==> (#[trigger] s.cleared().grid[x]).len() == HEIGHT,
        forall|x: int, y: int|
            0 <= x < WIDTH && 0 <= y < HEIGHT ==> #[trigger] s.cleared().grid[x][y] == 0,
        s.cleared().width == s.width,
        s.cleared().height == s.height,
        s.wf() ==> s.cleared().wf(),
{
}

} // verus!
