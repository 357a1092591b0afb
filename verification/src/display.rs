//! The bitplaned display buffer.

use vstd::prelude::*;

verus! {

/// A CHIP-8 display: 64 rows of 128 cells, of which the current mode uses
/// the upper left `height` by `width`.
pub struct Display {
    /// The cells. Bit `k` of a cell is the pixel of plane `k + 1`.
    pub display: [[u8; 128]; 64],
    /// Set by every change; the host resets it once it has read the buffer.
    pub dirty: bool,
    /// Set only while every cell is zero.
    pub clear: bool,
    /// Whether the display is in high-resolution mode.
    pub hires: bool,
    /// The width of the current mode in pixels.
    pub width: u8,
    /// The height of the current mode in pixels.
    pub height: u8,
    /// The planes that drawing, scrolling and clearing act on, as a mask.
    pub active_plane: u8,
}

/// A display as a mathematical value: `cells[r][c]` is the cell in row `r`,
/// column `c` of the buffer.
#[verifier::ext_equal]
pub struct DisplayView {
    pub cells: Seq<Seq<u8>>,
    pub dirty: bool,
    pub clear: bool,
    pub hires: bool,
    pub width: nat,
    pub height: nat,
    pub active_plane: u8,
}

impl View for Display {
    type V = DisplayView;

    open spec fn view(&self) -> DisplayView {
        DisplayView {
            cells: Seq::new(64, |r: int| self.display@[r]@),
            dirty: self.dirty,
            clear: self.clear,
            hires: self.hires,
            width: self.width as nat,
            height: self.height as nat,
            active_plane: self.active_plane,
        }
    }
}

impl DisplayView {
    /// The display of a machine that was just switched on.
    pub open spec fn initial() -> DisplayView {
        DisplayView {
            cells: Seq::new(64, |r: int| Seq::new(128, |c: int| 0u8)),
            dirty: false,
            clear: true,
            hires: false,
            width: 64,
            height: 32,
            active_plane: 1,
        }
    }

    /// The buffer has its 64 rows of 128 cells.
    pub open spec fn full_size(self) -> bool {
        &&& self.cells.len() == 64
        &&& forall|r: int| 0 <= r < 64 ==> (#[trigger] self.cells[r]).len() == 128
    }

    /// Every cell of the buffer is zero.
    pub open spec fn blank(self) -> bool {
        forall|r: int, c: int| 0 <= r < 64 && 0 <= c < 128 ==> #[trigger] self.cells[r][c] == 0
    }

    /// Whether row `r`, column `c` lies in the region of the current mode.
    pub open spec fn defined(self, r: int, c: int) -> bool {
        0 <= r < self.height && 0 <= c < self.width
    }

    /// The invariant of a display: the size goes with the mode, and `clear`
    /// is set only on a blank buffer.
    pub open spec fn wf(self) -> bool {
        &&& self.full_size()
        &&& self.hires ==> self.width == 128 && self.height == 64
        &&& !self.hires ==> self.width == 64 && self.height == 32
        &&& self.clear ==> self.blank()
    }

    /// Whether `clear` says exactly whether the buffer is blank. Every
    /// operation but a draw or a scroll that empties the buffer keeps it so.
    pub open spec fn flag_exact(self) -> bool {
        self.clear <==> self.blank()
    }

    /// What `self` says of `dirty` once `before` has become `self`: the flag
    /// is never taken back, and it is set when a cell or the mode changed.
    pub open spec fn keeps_dirty(self, before: DisplayView) -> bool {
        &&& before.dirty ==> self.dirty
        &&& (self.cells != before.cells || self.hires != before.hires) ==> self.dirty
    }

    /// Whether `self` and `before` agree on every cell outside the region of
    /// the current mode of `before`.
    pub open spec fn same_outside(self, before: DisplayView) -> bool {
        forall|r: int, c: int|
            0 <= r < 64 && 0 <= c < 128 && !before.defined(r, c) ==> #[trigger] self.cells[r][c]
                == before.cells[r][c]
    }

    /// A cell after `clear`: zero, or without the bits of the active planes.
    pub open spec fn cleared_cell(self, all_planes: bool, r: int, c: int) -> u8 {
        if all_planes {
            0u8
        } else {
            self.cells[r][c] & !self.active_plane
        }
    }

    /// The display after `clear(all_planes)`.
    pub open spec fn cleared(self, all_planes: bool) -> DisplayView {
        let cells = Seq::new(
            64,
            |r: int| Seq::new(128, |c: int| self.cleared_cell(all_planes, r, c)),
        );
        DisplayView { cells, dirty: true, clear: (DisplayView { cells, ..self }).blank(), ..self }
    }

    /// Whether a sprite drawn at `(x, y)` has a set pixel on row `r`, column
    /// `c`. The position is taken modulo the size of the mode; what reaches
    /// over the right or the lower edge is cut off.
    pub open spec fn lit(self, sprite: Seq<Seq<u8>>, x: u8, y: u8, r: int, c: int) -> bool {
        let x0 = x as int % self.width as int;
        let y0 = y as int % self.height as int;
        &&& y0 <= r < self.height
        &&& r - y0 < sprite.len()
        &&& x0 <= c < self.width
        &&& c - x0 < sprite[r - y0].len()
        &&& sprite[r - y0][c - x0] == 1
    }

    /// Whether the sprite has a set pixel where an active plane is already
    /// lit.
    pub open spec fn hit(self, sprite: Seq<Seq<u8>>, x: u8, y: u8, r: int, c: int) -> bool {
        self.lit(sprite, x, y, r, c) && self.cells[r][c] & self.active_plane != 0
    }

    /// A cell after `draw`: under a set pixel of the sprite the bits of the
    /// active planes are flipped.
    pub open spec fn drawn_cell(self, sprite: Seq<Seq<u8>>, x: u8, y: u8, r: int, c: int) -> u8 {
        if self.lit(sprite, x, y, r, c) {
            self.cells[r][c] ^ self.active_plane
        } else {
            self.cells[r][c]
        }
    }

    /// The display after `draw(sprite, x, y)`.
    pub open spec fn drawn(self, sprite: Seq<Seq<u8>>, x: u8, y: u8) -> DisplayView {
        DisplayView {
            cells: Seq::new(
                64,
                |r: int| Seq::new(128, |c: int| self.drawn_cell(sprite, x, y, r, c)),
            ),
            dirty: true,
            clear: false,
            ..self
        }
    }

    /// What `draw(sprite, x, y)` returns: 1 if it switched a lit pixel off,
    /// else 0.
    pub open spec fn collision(self, sprite: Seq<Seq<u8>>, x: u8, y: u8) -> u8 {
        if exists|r: int, c: int| #[trigger] self.hit(sprite, x, y, r, c) {
            1
        } else {
            0
        }
    }

    /// A cell after the active planes moved up by `dy` rows and left by `dx`
    /// columns: inside the region a cell keeps its other bits and takes the
    /// active bits of the cell `dy` rows below and `dx` columns to the right,
    /// or none where that cell lies outside the region.
    pub open spec fn shifted_cell(self, dy: int, dx: int, r: int, c: int) -> u8 {
        if self.defined(r, c) {
            if self.defined(r + dy, c + dx) {
                (self.cells[r][c] & !self.active_plane) | (self.cells[r + dy][c + dx]
                    & self.active_plane)
            } else {
                self.cells[r][c] & !self.active_plane
            }
        } else {
            self.cells[r][c]
        }
    }

    /// The display after the active planes moved up by `dy` rows and left by
    /// `dx` columns. A clear display, and a move by nothing, stay as they are.
    pub open spec fn shifted(self, dy: int, dx: int) -> DisplayView {
        if self.clear || (dy == 0 && dx == 0) {
            self
        } else {
            DisplayView {
                cells: Seq::new(
                    64,
                    |r: int| Seq::new(128, |c: int| self.shifted_cell(dy, dx, r, c)),
                ),
                dirty: true,
                ..self
            }
        }
    }

    /// The display after `scroll_up(pixels)`.
    pub open spec fn scrolled_up(self, pixels: u8) -> DisplayView {
        self.shifted(pixels as int, 0)
    }

    /// The display after `scroll_down(pixels)`.
    pub open spec fn scrolled_down(self, pixels: u8) -> DisplayView {
        self.shifted(-(pixels as int), 0)
    }

    /// The display after `scroll_left(pixels)`.
    pub open spec fn scrolled_left(self, pixels: u8) -> DisplayView {
        self.shifted(0, pixels as int)
    }

    /// The display after `scroll_right(pixels)`.
    pub open spec fn scrolled_right(self, pixels: u8) -> DisplayView {
        self.shifted(0, -(pixels as int))
    }

    /// The display after `plane(mask)`.
    pub open spec fn with_plane(self, mask: u8) -> DisplayView {
        DisplayView { active_plane: mask, ..self }
    }

    /// The display after `hires(clear)` or `lores(clear)`: the size of the
    /// mode, `dirty` where the mode changed, and all planes cleared where
    /// that is asked for and the display is not clear already.
    pub open spec fn switched(self, hires: bool, clear: bool) -> DisplayView {
        let sized = DisplayView {
            hires,
            width: if hires { 128 } else { 64 },
            height: if hires { 64 } else { 32 },
            dirty: self.dirty || self.hires != hires,
            ..self
        };
        if clear && !self.clear {
            sized.cleared(true)
        } else {
            sized
        }
    }
}

/// Whether a buffer is blank lies in its cells alone.
proof fn lemma_blank_of_cells(one: DisplayView, other: DisplayView)
    requires
        one.cells == other.cells,
    ensures
        one.blank() == other.blank(),
{
}

/// The cells of a sprite as `draw` takes it: one vector of pixels per row.
pub open spec fn pixels(sprite: &Vec<Vec<u8>>) -> Seq<Seq<u8>> {
    Seq::new(sprite@.len(), |r: int| sprite@[r]@)
}

impl Display {
    /// The invariant of a display, see [`DisplayView::wf`].
    pub open spec fn wf(&self) -> bool {
        self@.wf()
    }

    /// Everything but the cells is as in `before`.
    spec fn settings_of(&self, before: DisplayView) -> bool {
        &&& self.dirty == before.dirty
        &&& self.clear == before.clear
        &&& self.hires == before.hires
        &&& self.width == before.width
        &&& self.height == before.height
        &&& self.active_plane == before.active_plane
    }

    /// Create a new CHIP-8 display: low resolution, blank, plane 1 active.
    pub fn new() -> (d: Display)
        ensures
            d@ == DisplayView::initial(),
            d.wf(),
            d@.flag_exact(),
    {
        let d = Display {
            display: [[0; 128]; 64],
            dirty: false,
            clear: true,
            hires: false,
            width: 64,
            height: 32,
            active_plane: 1,
        };
        assert forall|r: int| 0 <= r < 64 implies #[trigger] d@.cells[r]
            =~= DisplayView::initial().cells[r] by {}
        d
    }

    /// Draw a sprite at the given coordinates in the currently active display
    /// planes. A pixel of the sprite is set where its value is 1. Returns 1 if
    /// a lit pixel was switched off, else 0.
    pub fn draw(&mut self, sprite: Vec<Vec<u8>>, x: u8, y: u8) -> (collision: u8)
        requires
            old(self).wf(),
        ensures
            final(self)@ == old(self)@.drawn(pixels(&sprite), x, y),
            collision == old(self)@.collision(pixels(&sprite), x, y),
            final(self).wf(),
            final(self)@.keeps_dirty(old(self)@),
            final(self)@.same_outside(old(self)@),
            final(self)@.flag_exact() <==> !final(self)@.blank(),
    {
        let x0 = (x % self.width) as usize;
        let y0 = (y % self.height) as usize;
        let width = self.width as usize;
        let height = self.height as usize;
        let plane = self.active_plane;
        let ghost before = self@;
        let ghost shape = pixels(&sprite);
        let mut collision: u8 = 0;
        let mut row: usize = 0;
        while row < sprite.len() && row + y0 < height
            invariant
                before == old(self)@,
                before.wf(),
                self.settings_of(before),
                shape == pixels(&sprite),
                x0 == x as int % before.width as int,
                y0 == y as int % before.height as int,
                width == before.width,
                height == before.height,
                plane == before.active_plane,
                row <= sprite.len(),
                row + y0 <= height <= 64,
                x0 < width <= 128,
                forall|r: int, c: int|
                    0 <= r < 64 && 0 <= c < 128 ==> #[trigger] self.display@[r]@[c] == (if r < y0
                        + row {
                        before.drawn_cell(shape, x, y, r, c)
                    } else {
                        before.cells[r][c]
                    }),
                collision <= 1,
                collision == 1 <==> exists|r: int, c: int|
                    r < y0 + row && #[trigger] before.hit(shape, x, y, r, c),
            decreases sprite.len() - row,
        {
            let line = &sprite[row];
            let mut col: usize = 0;
            while col < line.len() && col + x0 < width
                invariant
                    before == old(self)@,
                    before.wf(),
                    self.settings_of(before),
                    shape == pixels(&sprite),
                    line@ == shape[row as int],
                    x0 == x as int % before.width as int,
                    y0 == y as int % before.height as int,
                    width == before.width,
                    height == before.height,
                    plane == before.active_plane,
                    row < sprite.len(),
                    row + y0 < height <= 64,
                    col <= line.len(),
                    col + x0 <= width <= 128,
                    forall|r: int, c: int|
                        0 <= r < 64 && 0 <= c < 128 ==> #[trigger] self.display@[r]@[c] == (if r
                            < y0 + row || (r == y0 + row && c < x0 + col) {
                            before.drawn_cell(shape, x, y, r, c)
                        } else {
                            before.cells[r][c]
                        }),
                    collision <= 1,
                    collision == 1 <==> exists|r: int, c: int|
                        (r < y0 + row || (r == y0 + row && c < x0 + col)) && #[trigger] before.hit(
                            shape,
                            x,
                            y,
                            r,
                            c,
                        ),
                decreases line.len() - col,
            {
                let ghost r0 = (y0 + row) as int;
                let ghost c0 = (x0 + col) as int;
                let ghost found = collision;
                if line[col] == 1 {
                    let cell = self.display[y0 + row][x0 + col];
                    if cell & plane != 0 {
                        collision = 1;
                    }
                    self.display[y0 + row][x0 + col] = cell ^ plane;
                }
                assert(collision == 1 <==> found == 1 || before.hit(shape, x, y, r0, c0));
                col += 1;
            }
            row += 1;
        }
        self.clear = false;
        self.dirty = true;
        proof {
            let after = before.drawn(shape, x, y);
            assert forall|r: int| 0 <= r < 64 implies #[trigger] self@.cells[r]
                =~= after.cells[r] by {}
        }
        collision
    }

    /// Clear the display: every cell if `all_planes`, else the bits of the
    /// active planes. `clear` is set if and only if the buffer is blank
    /// afterwards.
    pub fn clear(&mut self, all_planes: bool)
        ensures
            final(self)@ == old(self)@.cleared(all_planes),
            old(self).wf() ==> final(self).wf(),
            final(self)@.keeps_dirty(old(self)@),
            final(self)@.flag_exact(),
            all_planes ==> final(self)@.clear,
    {
        let ghost before = self@;
        let plane = self.active_plane;
        let mut blank = true;
        let mut row: usize = 0;
        while row < 64
            invariant
                before == old(self)@,
                self.settings_of(before),
                plane == before.active_plane,
                row <= 64,
                forall|r: int, c: int|
                    0 <= r < 64 && 0 <= c < 128 ==> #[trigger] self.display@[r]@[c] == (if r
                        < row {
                        before.cleared_cell(all_planes, r, c)
                    } else {
                        before.cells[r][c]
                    }),
                blank <==> forall|r: int, c: int|
                    0 <= r < row && 0 <= c < 128 ==> #[trigger] before.cleared_cell(
                        all_planes,
                        r,
                        c,
                    ) == 0,
            decreases 64 - row,
        {
            let mut col: usize = 0;
            while col < 128
                invariant
                    before == old(self)@,
                    self.settings_of(before),
                    plane == before.active_plane,
                    row < 64,
                    col <= 128,
                    forall|r: int, c: int|
                        0 <= r < 64 && 0 <= c < 128 ==> #[trigger] self.display@[r]@[c] == (if r
                            < row || (r == row && c < col) {
                            before.cleared_cell(all_planes, r, c)
                        } else {
                            before.cells[r][c]
                        }),
                    blank <==> forall|r: int, c: int|
                        0 <= r < 64 && 0 <= c < 128 && (r < row || (r == row && c < col))
                            ==> #[trigger] before.cleared_cell(all_planes, r, c) == 0,
                decreases 128 - col,
            {
                let cell = if all_planes {
                    0
                } else {
                    self.display[row][col] & !plane
                };
                assert(cell == before.cleared_cell(all_planes, row as int, col as int));
                if cell != 0 {
                    blank = false;
                }
                self.display[row][col] = cell;
                col += 1;
            }
            row += 1;
        }
        self.dirty = true;
        self.clear = blank;
        proof {
            let after = before.cleared(all_planes);
            assert forall|r: int| 0 <= r < 64 implies #[trigger] self@.cells[r]
                =~= after.cells[r] by {}
            assert(self@.cells =~= after.cells);
            let wiped = DisplayView { cells: after.cells, ..before };
            assert(wiped.blank() <==> blank) by {
                if wiped.blank() {
                    assert forall|r: int, c: int| 0 <= r < 64 && 0 <= c < 128 implies (
                    #[trigger] before.cleared_cell(all_planes, r, c)) == 0 by {
                        assert(wiped.cells[r][c] == 0);
                    }
                }
            }
        }
    }

    /// Move the bits of the active planes up by `dy` rows and left by `dx`
    /// columns, inside the region of the current mode.
    fn shift(&mut self, dy: i16, dx: i16)
        requires
            old(self).wf(),
            -255 <= dy <= 255,
            -255 <= dx <= 255,
        ensures
            final(self)@ == old(self)@.shifted(dy as int, dx as int),
            final(self).wf(),
            final(self)@.keeps_dirty(old(self)@),
            final(self)@.same_outside(old(self)@),
            old(self)@.flag_exact() ==> final(self)@.flag_exact() || final(self)@.blank(),
    {
        if self.clear || (dy == 0 && dx == 0) {
            return ;
        }
        let ghost before = self@;
        let source = self.display;
        let plane = self.active_plane;
        let width = self.width as i16;
        let height = self.height as i16;
        let mut row: i16 = 0;
        while row < height
            invariant
                before == old(self)@,
                before.wf(),
                self.settings_of(before),
                plane == before.active_plane,
                width == before.width,
                height == before.height,
                -255 <= dy <= 255,
                -255 <= dx <= 255,
                0 <= row <= height,
                forall|r: int, c: int|
                    0 <= r < 64 && 0 <= c < 128 ==> #[trigger] source@[r]@[c] == before.cells[r][c],
                forall|r: int, c: int|
                    0 <= r < 64 && 0 <= c < 128 ==> #[trigger] self.display@[r]@[c] == (if r
                        < row {
                        before.shifted_cell(dy as int, dx as int, r, c)
                    } else {
                        before.cells[r][c]
                    }),
            decreases height - row,
        {
            let mut col: i16 = 0;
            while col < width
                invariant
                    before == old(self)@,
                    before.wf(),
                    self.settings_of(before),
                    plane == before.active_plane,
                    width == before.width,
                    height == before.height,
                    -255 <= dy <= 255,
                    -255 <= dx <= 255,
                    0 <= row < height,
                    0 <= col <= width,
                    forall|r: int, c: int|
                        0 <= r < 64 && 0 <= c < 128 ==> #[trigger] source@[r]@[c]
                            == before.cells[r][c],
                    forall|r: int, c: int|
                        0 <= r < 64 && 0 <= c < 128 ==> #[trigger] self.display@[r]@[c] == (if r
                            < row || (r == row && c < col) {
                            before.shifted_cell(dy as int, dx as int, r, c)
                        } else {
                            before.cells[r][c]
                        }),
                decreases width - col,
            {
                let from_row = row + dy;
                let from_col = col + dx;
                let kept = source[row as usize][col as usize] & !plane;
                let cell = if 0 <= from_row && from_row < height && 0 <= from_col && from_col
                    < width {
                    kept | (source[from_row as usize][from_col as usize] & plane)
                } else {
                    kept
                };
                self.display[row as usize][col as usize] = cell;
                col += 1;
            }
            row += 1;
        }
        self.dirty = true;
        proof {
            let after = before.shifted(dy as int, dx as int);
            assert forall|r: int| 0 <= r < 64 implies #[trigger] self@.cells[r]
                =~= after.cells[r] by {}
        }
    }

    /// Scroll the currently active display planes up. Rows that come in at
    /// the bottom are empty. Does nothing if `pixels` is 0 or the display is
    /// clear.
    pub fn scroll_up(&mut self, pixels: u8)
        requires
            old(self).wf(),
        ensures
            final(self)@ == old(self)@.scrolled_up(pixels),
            final(self).wf(),
            final(self)@.keeps_dirty(old(self)@),
            final(self)@.same_outside(old(self)@),
            old(self)@.flag_exact() ==> final(self)@.flag_exact() || final(self)@.blank(),
            pixels == 0 ==> final(self)@ == old(self)@,
    {
        self.shift(pixels as i16, 0);
    }

    /// Scroll the currently active display planes down. Rows that come in at
    /// the top are empty. Does nothing if `pixels` is 0 or the display is
    /// clear.
    pub fn scroll_down(&mut self, pixels: u8)
        requires
            old(self).wf(),
        ensures
            final(self)@ == old(self)@.scrolled_down(pixels),
            final(self).wf(),
            final(self)@.keeps_dirty(old(self)@),
            final(self)@.same_outside(old(self)@),
            old(self)@.flag_exact() ==> final(self)@.flag_exact() || final(self)@.blank(),
            pixels == 0 ==> final(self)@ == old(self)@,
    {
        self.shift(-(pixels as i16), 0);
    }

    /// Scroll the currently active display planes left. Columns that come in
    /// at the right are empty. Does nothing if `pixels` is 0 or the display
    /// is clear.
    pub fn scroll_left(&mut self, pixels: u8)
        requires
            old(self).wf(),
        ensures
            final(self)@ == old(self)@.scrolled_left(pixels),
            final(self).wf(),
            final(self)@.keeps_dirty(old(self)@),
            final(self)@.same_outside(old(self)@),
            old(self)@.flag_exact() ==> final(self)@.flag_exact() || final(self)@.blank(),
            pixels == 0 ==> final(self)@ == old(self)@,
    {
        self.shift(0, pixels as i16);
    }

    /// Scroll the currently active display planes right. Columns that come
    /// in at the left are empty. Does nothing if `pixels` is 0 or the display
    /// is clear.
    pub fn scroll_right(&mut self, pixels: u8)
        requires
            old(self).wf(),
        ensures
            final(self)@ == old(self)@.scrolled_right(pixels),
            final(self).wf(),
            final(self)@.keeps_dirty(old(self)@),
            final(self)@.same_outside(old(self)@),
            old(self)@.flag_exact() ==> final(self)@.flag_exact() || final(self)@.blank(),
            pixels == 0 ==> final(self)@ == old(self)@,
    {
        self.shift(0, -(pixels as i16));
    }

    /// Change the currently active planes.
    pub fn plane(&mut self, plane: u8)
        ensures
            final(self)@ == old(self)@.with_plane(plane),
            old(self).wf() ==> final(self).wf(),
            final(self)@.keeps_dirty(old(self)@),
            old(self)@.flag_exact() ==> final(self)@.flag_exact(),
    {
        self.active_plane = plane;
        proof {
            lemma_blank_of_cells(self@, old(self)@);
        }
    }

    /// Switch to high-resolution mode, 128 by 64. With `clear`, a display
    /// that is not clear has all its planes cleared.
    pub fn hires(&mut self, clear: bool)
        ensures
            final(self)@ == old(self)@.switched(true, clear),
            (old(self)@.clear ==> old(self)@.blank()) ==> final(self).wf(),
            final(self)@.keeps_dirty(old(self)@),
            old(self)@.flag_exact() ==> final(self)@.flag_exact(),
    {
        self.resize(true, clear);
    }

    /// Switch to low-resolution mode, 64 by 32. With `clear`, a display that
    /// is not clear has all its planes cleared.
    pub fn lores(&mut self, clear: bool)
        ensures
            final(self)@ == old(self)@.switched(false, clear),
            (old(self)@.clear ==> old(self)@.blank()) ==> final(self).wf(),
            final(self)@.keeps_dirty(old(self)@),
            old(self)@.flag_exact() ==> final(self)@.flag_exact(),
    {
        self.resize(false, clear);
    }

    /// Switch to the mode that `hires` names.
    fn resize(&mut self, hires: bool, clear: bool)
        ensures
            final(self)@ == old(self)@.switched(hires, clear),
            (old(self)@.clear ==> old(self)@.blank()) ==> final(self).wf(),
            final(self)@.keeps_dirty(old(self)@),
            old(self)@.flag_exact() ==> final(self)@.flag_exact(),
    {
        if self.hires != hires {
            self.dirty = true;
        }
        self.hires = hires;
        if hires {
            self.width = 128;
            self.height = 64;
        } else {
            self.width = 64;
            self.height = 32;
        }
        proof {
            lemma_blank_of_cells(self@, old(self)@);
        }
        if clear && !self.clear {
            self.clear(true);
        }
    }
}

impl Display {
    /// Hand the cells to the host, and take the change as seen: `dirty` is
    /// reset.
    pub fn read(&mut self) -> (cells: [[u8; 128]; 64])
        ensures
            cells == old(self).display,
            final(self)@ == (DisplayView { dirty: false, ..old(self)@ }),
            old(self).wf() ==> final(self).wf(),
            old(self)@.flag_exact() ==> final(self)@.flag_exact(),
    {
        self.dirty = false;
        proof {
            lemma_blank_of_cells(self@, old(self)@);
        }
        self.display
    }
}

impl Default for Display {
    fn default() -> (d: Display)
        ensures
            d@ == DisplayView::initial(),
            d.wf(),
            d@.flag_exact(),
    {
        Display::new()
    }
}

} // verus!
