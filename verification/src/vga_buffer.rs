//! Text-mode display driver.
//!
//! The display is a fixed grid of `HEIGHT` rows by `WIDTH` columns of
//! cells, each a character byte paired with a color attribute byte. The
//! driver writes only to the bottom row; a line feed (or running past the
//! last column) scrolls the whole grid up by one row. [`TextConsole`]
//! holds the grid contents together with the cursor column and the active
//! color, so every store the surrounding binary forwards to the display
//! memory is pinned down here.

use vstd::prelude::*;

verus! {

use crate::HEIGHT;
use crate::WIDTH;

/// The line feed byte: the only control byte with meaning to the driver.
pub const LINE_FEED: u8 = 0x0a;

/// First byte of the printable range (space).
pub const PRINTABLE_LO: u8 = 0x20;

/// Last byte of the printable range (tilde).
pub const PRINTABLE_HI: u8 = 0x7e;

/// Glyph stored in place of a byte outside the printable range.
pub const PLACEHOLDER: u8 = 0xfe;

/// One cell of the display grid: a character byte and a color attribute
/// byte (foreground nibble and background nibble).
#[derive(Clone, Copy, Debug, PartialEq, Eq, Structural)]
pub struct ScreenCell {
    pub ascii_character: u8,
    pub color_code: u8,
}

/// A blank cell: a space drawn in the given color.
pub open spec fn blank_cell(color: u8) -> ScreenCell {
    ScreenCell { ascii_character: 0x20, color_code: color }
}

/// Whether `b` is in the printable range (space through tilde).
pub open spec fn is_printable(b: u8) -> bool {
    PRINTABLE_LO <= b <= PRINTABLE_HI
}

/// The byte actually handed to the cell store: printable bytes and line
/// feeds pass through, anything else becomes the placeholder glyph.
pub open spec fn rendered(b: u8) -> u8 {
    if is_printable(b) || b == LINE_FEED {
        b
    } else {
        PLACEHOLDER
    }
}

/// Flat index of column `c` on the bottom row.
pub open spec fn bottom_index(c: int) -> int {
    (HEIGHT - 1) * WIDTH + c
}

/// The grid after one scroll: every row moves up one place, the top row
/// is discarded, and the bottom row becomes blank in the given color.
pub open spec fn scrolled(grid: Seq<ScreenCell>, color: u8) -> Seq<ScreenCell> {
    Seq::new(
        grid.len(),
        |i: int|
            if i < (HEIGHT - 1) * WIDTH {
                grid[i + WIDTH]
            } else {
                blank_cell(color)
            },
    )
}

/// Grid and cursor column after one byte is written: a line feed scrolls
/// and rests the cursor at column zero; any other byte first scrolls if
/// the row is full, then lands at the cursor and advances it.
pub open spec fn write_byte_model(grid: Seq<ScreenCell>, col: int, color: u8, b: u8) -> (
    Seq<ScreenCell>,
    int,
) {
    if b == LINE_FEED {
        (scrolled(grid, color), 0)
    } else {
        let g = if col == WIDTH {
            scrolled(grid, color)
        } else {
            grid
        };
        let c = if col == WIDTH {
            0int
        } else {
            col
        };
        (g.update(bottom_index(c), ScreenCell { ascii_character: b, color_code: color }), c + 1)
    }
}

/// How many scrolls one byte causes: one for a line feed, one for a
/// printable byte arriving on a full row, none otherwise.
pub open spec fn write_byte_scrolls(col: int, b: u8) -> int {
    if b == LINE_FEED || col == WIDTH {
        1int
    } else {
        0int
    }
}

/// Cursor column after one byte, independent of the grid contents.
pub open spec fn col_after(col: int, b: u8) -> int {
    if b == LINE_FEED {
        0int
    } else if col == WIDTH {
        1int
    } else {
        col + 1
    }
}

/// Grid and cursor column after a whole byte sequence, first byte first.
pub open spec fn write_seq_model(grid: Seq<ScreenCell>, col: int, color: u8, s: Seq<u8>) -> (
    Seq<ScreenCell>,
    int,
)
    decreases s.len(),
{
    if s.len() == 0 {
        (grid, col)
    } else {
        let step = write_byte_model(grid, col, color, s[0]);
        write_seq_model(step.0, step.1, color, s.drop_first())
    }
}

/// Total number of scrolls a byte sequence causes from a given column.
pub open spec fn write_seq_scrolls(col: int, s: Seq<u8>) -> int
    decreases s.len(),
{
    if s.len() == 0 {
        0int
    } else {
        write_byte_scrolls(col, s[0]) + write_seq_scrolls(col_after(col, s[0]), s.drop_first())
    }
}

/// Stateful writer over the display grid. The grid is kept flat, row
/// major: the cell at row `r`, column `c` is entry `r * WIDTH + c`.
pub struct TextConsole {
    /// Grid contents, row major, `HEIGHT * WIDTH` cells.
    pub buffer: Vec<ScreenCell>,
    /// Cursor column on the bottom row; the next printable byte lands
    /// here (after a scroll if the row is already full).
    pub column_position: usize,
    /// Color attribute applied to every byte written from now on.
    pub color_code: u8,
    /// How many times the grid has scrolled up since construction.
    pub scrolls: Ghost<nat>,
}

impl TextConsole {
    /// The grid holds exactly one cell per grid position and the cursor
    /// never passes the row end.
    pub open spec fn wf(self) -> bool {
        &&& self.buffer@.len() == HEIGHT * WIDTH
        &&& self.column_position <= WIDTH
    }

    /// The cell at row `r`, column `c`.
    pub open spec fn cell(self, r: int, c: int) -> ScreenCell {
        self.buffer@[r * WIDTH + c]
    }

    /// A console showing a blank screen in the given color.
    pub fn new(color: u8) -> (console: TextConsole)
        ensures
            console.wf(),
            console.column_position == 0,
            console.color_code == color,
            console.scrolls@ == 0,
            forall|i: int| 0 <= i < HEIGHT * WIDTH ==> console.buffer@[i] == blank_cell(color),
    {
        let mut buffer: Vec<ScreenCell> = Vec::new();
        let mut i: usize = 0;
        while i < HEIGHT * WIDTH
            invariant
                i <= HEIGHT * WIDTH,
                buffer@.len() == i,
                forall|j: int| 0 <= j < i ==> buffer@[j] == blank_cell(color),
            decreases HEIGHT * WIDTH - i,
        {
            buffer.push(ScreenCell { ascii_character: 0x20, color_code: color });
            i = i + 1;
        }
        TextConsole { buffer, column_position: 0, color_code: color, scrolls: Ghost(0) }
    }

    /// Read one cell, for mirroring the grid out to display memory.
    pub fn cell_at(&self, r: usize, c: usize) -> (cell: ScreenCell)
        requires
            self.wf(),
            r < HEIGHT,
            c < WIDTH,
        ensures
            cell == self.cell(r as int, c as int),
    {
        self.buffer[r * WIDTH + c]
    }

    /// Overwrite every cell of row `r` with a blank in the active color.
    pub fn clear_row(&mut self, r: usize)
        requires
            old(self).wf(),
            r < HEIGHT,
        ensures
            final(self).wf(),
            final(self).column_position == old(self).column_position,
            final(self).color_code == old(self).color_code,
            final(self).scrolls == old(self).scrolls,
            final(self).buffer@.len() == old(self).buffer@.len(),
            forall|i: int|
                0 <= i < HEIGHT * WIDTH ==> final(self).buffer@[i] == (if r * WIDTH <= i < (r + 1) * WIDTH {
                    blank_cell(old(self).color_code)
                } else {
                    old(self).buffer@[i]
                }),
    {
        let mut c: usize = 0;
        while c < WIDTH
            invariant
                old(self).wf(),
                r < HEIGHT,
                c <= WIDTH,
                self.wf(),
                self.column_position == old(self).column_position,
                self.color_code == old(self).color_code,
                self.scrolls == old(self).scrolls,
                forall|i: int|
                    0 <= i < HEIGHT * WIDTH ==> self.buffer@[i] == (if r * WIDTH <= i < r * WIDTH
                        + c {
                        blank_cell(old(self).color_code)
                    } else {
                        old(self).buffer@[i]
                    }),
            decreases WIDTH - c,
        {
            let cell = ScreenCell { ascii_character: 0x20, color_code: self.color_code };
            self.buffer.set(r * WIDTH + c, cell);
            c = c + 1;
        }
    }

    /// Scroll the grid up one row, blank the bottom row, and rest the
    /// cursor at column zero. Exactly one shift per call.
    pub fn new_line(&mut self)
        requires
            old(self).wf(),
        ensures
            final(self).wf(),
            final(self).column_position == 0,
            final(self).color_code == old(self).color_code,
            final(self).scrolls@ == old(self).scrolls@ + 1,
            final(self).buffer@ == scrolled(old(self).buffer@, old(self).color_code),
    {
        let mut row: usize = 1;
        while row < HEIGHT
            invariant
                old(self).wf(),
                1 <= row <= HEIGHT,
                self.wf(),
                self.column_position == old(self).column_position,
                self.color_code == old(self).color_code,
                self.scrolls == old(self).scrolls,
                forall|i: int|
                    0 <= i < (row - 1) * WIDTH ==> self.buffer@[i] == old(self).buffer@[i + WIDTH],
                forall|i: int|
                    (row - 1) * WIDTH <= i < HEIGHT * WIDTH ==> self.buffer@[i] == old(
                        self,
                    ).buffer@[i],
            decreases HEIGHT - row,
        {
            let mut c: usize = 0;
            while c < WIDTH
                invariant
                    old(self).wf(),
                    1 <= row < HEIGHT,
                    c <= WIDTH,
                    self.wf(),
                    self.column_position == old(self).column_position,
                    self.color_code == old(self).color_code,
                    self.scrolls == old(self).scrolls,
                    forall|i: int|
                        0 <= i < (row - 1) * WIDTH + c ==> self.buffer@[i] == old(self).buffer@[i
                            + WIDTH],
                    forall|i: int|
                        (row - 1) * WIDTH + c <= i < HEIGHT * WIDTH ==> self.buffer@[i] == old(
                            self,
                        ).buffer@[i],
                decreases WIDTH - c,
            {
                let cell = self.buffer[row * WIDTH + c];
                self.buffer.set((row - 1) * WIDTH + c, cell);
                c = c + 1;
            }
            row = row + 1;
        }
        self.clear_row(HEIGHT - 1);
        self.column_position = 0;
        proof {
            self.scrolls@ = old(self).scrolls@ + 1;
        }
        assert(self.buffer@ =~= scrolled(old(self).buffer@, old(self).color_code));
    }

    /// Write one byte: a line feed scrolls; any other byte lands at the
    /// cursor on the bottom row (after a scroll if the row is full) in
    /// the active color, and the cursor advances.
    pub fn write_byte(&mut self, b: u8)
        requires
            old(self).wf(),
        ensures
            final(self).wf(),
            final(self).color_code == old(self).color_code,
            final(self).buffer@ == write_byte_model(
                old(self).buffer@,
                old(self).column_position as int,
                old(self).color_code,
                b,
            ).0,
            final(self).column_position as int == write_byte_model(
                old(self).buffer@,
                old(self).column_position as int,
                old(self).color_code,
                b,
            ).1,
            final(self).scrolls@ == old(self).scrolls@ + write_byte_scrolls(
                old(self).column_position as int,
                b,
            ),
    {
        if b == LINE_FEED {
            self.new_line();
        } else {
            if self.column_position == WIDTH {
                self.new_line();
            }
            let col = self.column_position;
            let cell = ScreenCell { ascii_character: b, color_code: self.color_code };
            self.buffer.set((HEIGHT - 1) * WIDTH + col, cell);
            self.column_position = col + 1;
        }
    }

    /// Write a byte sequence: printable bytes and line feeds are written
    /// as they are, every other byte as the placeholder glyph.
    pub fn write_string(&mut self, s: &[u8])
        requires
            old(self).wf(),
        ensures
            final(self).wf(),
            final(self).color_code == old(self).color_code,
            final(self).buffer@ == write_seq_model(
                old(self).buffer@,
                old(self).column_position as int,
                old(self).color_code,
                s@.map_values(|b: u8| rendered(b)),
            ).0,
            final(self).column_position as int == write_seq_model(
                old(self).buffer@,
                old(self).column_position as int,
                old(self).color_code,
                s@.map_values(|b: u8| rendered(b)),
            ).1,
            final(self).scrolls@ == old(self).scrolls@ + write_seq_scrolls(
                old(self).column_position as int,
                s@.map_values(|b: u8| rendered(b)),
            ),
    {
        let ghost g0 = old(self).buffer@;
        let ghost c0 = old(self).column_position as int;
        let ghost color = old(self).color_code;
        let mut i: usize = 0;
        while i < s.len()
            invariant
                old(self).wf(),
                i <= s@.len(),
                g0 == old(self).buffer@,
                c0 == old(self).column_position as int,
                color == old(self).color_code,
                self.wf(),
                self.color_code == color,
                self.buffer@ == write_seq_model(
                    g0,
                    c0,
                    color,
                    s@.subrange(0, i as int).map_values(|b: u8| rendered(b)),
                ).0,
                self.column_position as int == write_seq_model(
                    g0,
                    c0,
                    color,
                    s@.subrange(0, i as int).map_values(|b: u8| rendered(b)),
                ).1,
                self.scrolls@ == old(self).scrolls@ + write_seq_scrolls(
                    c0,
                    s@.subrange(0, i as int).map_values(|b: u8| rendered(b)),
                ),
            decreases s@.len() - i,
        {
            let b = s[i];
            let out = if (0x20 <= b && b <= 0x7e) || b == 0x0a {
                b
            } else {
                PLACEHOLDER
            };
            proof {
                assert(out == rendered(b));
                let done = s@.subrange(0, i as int).map_values(|x: u8| rendered(x));
                let next = s@.subrange(0, i + 1).map_values(|x: u8| rendered(x));
                assert(next =~= done.push(rendered(b)));
                lemma_write_seq_snoc(g0, c0, color, done, rendered(b));
            }
            self.write_byte(out);
            i = i + 1;
        }
        proof {
            assert(s@.subrange(0, s@.len() as int) =~= s@);
        }
    }

    /// Write a byte sequence followed by a line feed.
    pub fn write_line(&mut self, s: &[u8])
        requires
            old(self).wf(),
        ensures
            final(self).wf(),
            final(self).color_code == old(self).color_code,
            final(self).buffer@ == write_seq_model(
                old(self).buffer@,
                old(self).column_position as int,
                old(self).color_code,
                s@.map_values(|b: u8| rendered(b)).push(LINE_FEED),
            ).0,
            final(self).column_position as int == write_seq_model(
                old(self).buffer@,
                old(self).column_position as int,
                old(self).color_code,
                s@.map_values(|b: u8| rendered(b)).push(LINE_FEED),
            ).1,
            final(self).scrolls@ == old(self).scrolls@ + write_seq_scrolls(
                old(self).column_position as int,
                s@.map_values(|b: u8| rendered(b)).push(LINE_FEED),
            ),
    {
        self.write_string(s);
        self.write_byte(LINE_FEED);
        proof {
            lemma_write_seq_snoc(
                old(self).buffer@,
                old(self).column_position as int,
                old(self).color_code,
                s@.map_values(|b: u8| rendered(b)),
                LINE_FEED,
            );
        }
    }
}

/// Writing one more byte at the end of a sequence is one more step of
/// the byte model after the whole sequence.
pub proof fn lemma_write_seq_snoc(g: Seq<ScreenCell>, c: int, color: u8, t: Seq<u8>, b: u8)
    ensures
        write_seq_model(g, c, color, t.push(b)).0 == write_byte_model(
            write_seq_model(g, c, color, t).0,
            write_seq_model(g, c, color, t).1,
            color,
            b,
        ).0,
        write_seq_model(g, c, color, t.push(b)).1 == write_byte_model(
            write_seq_model(g, c, color, t).0,
            write_seq_model(g, c, color, t).1,
            color,
            b,
        ).1,
        write_seq_scrolls(c, t.push(b)) == write_seq_scrolls(c, t) + write_byte_scrolls(
            write_seq_model(g, c, color, t).1,
            b,
        ),
    decreases t.len(),
{
    if t.len() == 0 {
        assert(t.push(b)[0] == b);
        assert(t.push(b).drop_first() =~= Seq::<u8>::empty());
        let step = write_byte_model(g, c, color, b);
        assert(write_seq_model(step.0, step.1, color, Seq::<u8>::empty()) == (step.0, step.1));
        assert(write_seq_scrolls(col_after(c, b), Seq::<u8>::empty()) == 0);
        assert(write_seq_model(g, c, color, t) == (g, c));
    } else {
        assert(t.push(b)[0] == t[0]);
        assert(t.push(b).drop_first() =~= t.drop_first().push(b));
        let step = write_byte_model(g, c, color, t[0]);
        assert(step.1 == col_after(c, t[0]));
        lemma_write_seq_snoc(step.0, step.1, color, t.drop_first(), b);
        assert(write_seq_model(g, c, color, t.push(b)) == write_seq_model(
            step.0,
            step.1,
            color,
            t.drop_first().push(b),
        ));
        assert(write_seq_model(g, c, color, t) == write_seq_model(
            step.0,
            step.1,
            color,
            t.drop_first(),
        ));
        assert(write_seq_scrolls(c, t.push(b)) == write_byte_scrolls(c, t[0])
            + write_seq_scrolls(col_after(c, t[0]), t.drop_first().push(b)));
    }
}

/// On printable bytes the placeholder substitution is the identity.
pub proof fn lemma_rendered_printable(s: Seq<u8>)
    requires
        forall|i: int| 0 <= i < s.len() ==> is_printable(s[i]),
    ensures
        s.map_values(|b: u8| rendered(b)) == s,
{
    assert(s.map_values(|b: u8| rendered(b)) =~= s);
}

/// Law: a printable byte sequence that fits in the rest of the bottom
/// row lands there in order, cell `col + j` taking byte `j` with the
/// active color; every other cell keeps its contents, the cursor ends
/// just past the sequence, and nothing scrolls.
pub proof fn lemma_printable_fill(grid: Seq<ScreenCell>, col: int, color: u8, s: Seq<u8>)
    requires
        grid.len() == HEIGHT * WIDTH,
        0 <= col,
        col + s.len() <= WIDTH,
        forall|i: int| 0 <= i < s.len() ==> is_printable(s[i]),
    ensures
        write_seq_model(grid, col, color, s).0.len() == grid.len(),
        write_seq_model(grid, col, color, s).1 == col + s.len(),
        forall|j: int|
            0 <= j < s.len() ==> write_seq_model(grid, col, color, s).0[bottom_index(col + j)]
                == (ScreenCell { ascii_character: s[j], color_code: color }),
        forall|i: int|
            0 <= i < grid.len() && !(bottom_index(col) <= i < bottom_index(col + s.len()))
                ==> write_seq_model(grid, col, color, s).0[i] == grid[i],
        write_seq_scrolls(col, s) == 0,
    decreases s.len(),
{
    if s.len() == 0 {
    } else {
        assert(!(s[0] == LINE_FEED));
        let step = write_byte_model(grid, col, color, s[0]);
        assert(step.0 == grid.update(
            bottom_index(col),
            ScreenCell { ascii_character: s[0], color_code: color },
        ));
        lemma_printable_fill(step.0, col + 1, color, s.drop_first());
        let rest = write_seq_model(step.0, col + 1, color, s.drop_first());
        assert(write_seq_model(grid, col, color, s) == rest);
        assert forall|i: int|
            0 <= i < grid.len() && !(bottom_index(col) <= i < bottom_index(col + s.len()))
                implies (rest.0[i] == grid[i]) by {
            assert(rest.0[i] == step.0[i]);
            assert(step.0[i] == grid[i]);
        }
        assert forall|j: int|
            0 <= j < s.len() implies (rest.0[bottom_index(col + j)] == (ScreenCell {
            ascii_character: s[j],
            color_code: color,
        })) by {
            if j == 0 {
                assert(rest.0[bottom_index(col)] == step.0[bottom_index(col)]);
            } else {
                assert(rest.0[bottom_index((col + 1) + (j - 1))] == (ScreenCell {
                    ascii_character: s.drop_first()[j - 1],
                    color_code: color,
                }));
                assert(s.drop_first()[j - 1] == s[j]);
            }
        }
    }
}

/// Law: a printable sequence one byte longer than a row, written from
/// column zero, scrolls exactly once, and the last byte lands at column
/// zero of the fresh bottom row with the cursor just past it.
pub proof fn lemma_wrap_once(grid: Seq<ScreenCell>, color: u8, s: Seq<u8>)
    requires
        grid.len() == HEIGHT * WIDTH,
        s.len() == WIDTH + 1,
        forall|i: int| 0 <= i < s.len() ==> is_printable(s[i]),
    ensures
        write_seq_scrolls(0, s) == 1,
        write_seq_model(grid, 0, color, s).1 == 1,
        write_seq_model(grid, 0, color, s).0[bottom_index(0)] == (ScreenCell {
            ascii_character: s[WIDTH as int],
            color_code: color,
        }),
{
    let head = s.take(WIDTH as int);
    let last = s[WIDTH as int];
    assert(s =~= head.push(last));
    lemma_write_seq_snoc(grid, 0, color, head, last);
    lemma_printable_fill(grid, 0, color, head);
    let full = write_seq_model(grid, 0, color, head);
    assert(full.1 == WIDTH);
    assert(!(last == LINE_FEED));
    let step = write_byte_model(full.0, WIDTH as int, color, last);
    assert(step.0[bottom_index(0)] == ScreenCell { ascii_character: last, color_code: color });
}

/// Law: a byte outside the printable range that is not a line feed is
/// stored as the placeholder glyph, in the active color, at the cursor.
pub proof fn lemma_placeholder_cell(grid: Seq<ScreenCell>, col: int, color: u8, b: u8)
    requires
        grid.len() == HEIGHT * WIDTH,
        0 <= col < WIDTH,
        !is_printable(b),
        b != LINE_FEED,
    ensures
        rendered(b) == PLACEHOLDER,
        write_byte_model(grid, col, color, rendered(b)).0[bottom_index(col)] == (ScreenCell {
            ascii_character: PLACEHOLDER,
            color_code: color,
        }),
{
}

/// Law: scrolling an all-blank screen leaves every cell blank.
pub proof fn lemma_scroll_blank(grid: Seq<ScreenCell>, color: u8)
    requires
        grid.len() == HEIGHT * WIDTH,
        forall|i: int| 0 <= i < grid.len() ==> grid[i] == blank_cell(color),
    ensures
        forall|i: int|
            0 <= i < grid.len() ==> scrolled(grid, color)[i] == blank_cell(color),
{
}

/// Law: the row scrolled out of the top is discarded outright — the
/// scrolled grid does not depend on what the top row held.
pub proof fn lemma_scroll_discards_top(g1: Seq<ScreenCell>, g2: Seq<ScreenCell>, color: u8)
    requires
        g1.len() == HEIGHT * WIDTH,
        g2.len() == HEIGHT * WIDTH,
        forall|i: int| WIDTH <= i < g1.len() ==> g1[i] == g2[i],
    ensures
        scrolled(g1, color) == scrolled(g2, color),
{
    assert(scrolled(g1, color) =~= scrolled(g2, color));
}

/// Write a byte sequence straight into a raw cell buffer, two bytes per
/// cell: the character byte at the even offset, the color attribute at
/// the odd offset right after it. This is the earliest boot output path,
/// used before any driver state exists.
pub fn write_direct(buffer: &mut Vec<u8>, msg: &[u8], color: u8)
    requires
        old(buffer)@.len() >= 2 * msg@.len(),
    ensures
        final(buffer)@.len() == old(buffer)@.len(),
        forall|k: int|
            0 <= k < 2 * msg@.len() ==> final(buffer)@[k] == (if k % 2 == 0 {
                msg@[k / 2]
            } else {
                color
            }),
        forall|k: int|
            2 * msg@.len() <= k < old(buffer)@.len() ==> final(buffer)@[k] == old(buffer)@[k],
{
    let n = buffer.len();
    let mut i: usize = 0;
    while i < msg.len()
        invariant
            old(buffer)@.len() >= 2 * msg@.len(),
            i <= msg@.len(),
            n == old(buffer)@.len(),
            buffer@.len() == old(buffer)@.len(),
            forall|k: int|
                0 <= k < 2 * i ==> buffer@[k] == (if k % 2 == 0 {
                    msg@[k / 2]
                } else {
                    color
                }),
            forall|k: int| 2 * i <= k < old(buffer)@.len() ==> buffer@[k] == old(buffer)@[k],
        decreases msg@.len() - i,
    {
        buffer.set(2 * i, msg[i]);
        buffer.set(2 * i + 1, color);
        proof {
            assert(buffer@[2 * (i as int)] == msg@[i as int]);
            assert(buffer@[2 * (i as int) + 1] == color);
            assert forall|k: int|
                0 <= k < 2 * (i as int) + 2 implies (buffer@[k] == (if k % 2 == 0 {
                msg@[k / 2]
            } else {
                color
            })) by {
                if k == 2 * (i as int) {
                    assert(k % 2 == 0 && k / 2 == i as int);
                } else if k == 2 * (i as int) + 1 {
                    assert(k % 2 == 1);
                }
            }
        }
        i = i + 1;
    }
}

/// The canonical greeting payload, "Hello World!".
pub open spec fn greeting() -> Seq<u8> {
    seq![72u8, 101u8, 108u8, 108u8, 111u8, 32u8, 87u8, 111u8, 114u8, 108u8, 100u8, 33u8]
}

/// Color attribute of the canonical greeting: light cyan on black.
pub const GREETING_COLOR: u8 = 0x0b;

/// Put the canonical greeting at the start of a raw cell buffer, in
/// light cyan on black: the twelve character bytes land at the even
/// offsets 0 through 22, the attribute at the odd offsets 1 through 23.
pub fn write_greeting(buffer: &mut Vec<u8>)
    requires
        old(buffer)@.len() >= 24,
    ensures
        final(buffer)@.len() == old(buffer)@.len(),
        forall|k: int|
            0 <= k < 24 ==> final(buffer)@[k] == (if k % 2 == 0 {
                greeting()[k / 2]
            } else {
                GREETING_COLOR
            }),
        forall|k: int| 24 <= k < old(buffer)@.len() ==> final(buffer)@[k] == old(buffer)@[k],
{
    let msg: [u8; 12] = [72u8, 101u8, 108u8, 108u8, 111u8, 32u8, 87u8, 111u8, 114u8, 108u8, 100u8, 33u8];
    proof {
        assert(msg@ =~= greeting());
    }
    write_direct(buffer, msg.as_slice(), GREETING_COLOR);
}

} // verus!
