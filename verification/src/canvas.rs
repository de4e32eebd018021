//! A mutable row-major pixel grid and its serialization to the textual
//! P3 image format.
//!
//! Pixels are stored `[row][column]`, that is `[y][x]`, to match the
//! format's row-by-row layout; the coordinate API is `(x, y)` and flips
//! the indices internally.  Two writers are offered: `write_pixel`
//! demands on-canvas coordinates, `safe_write_pixel` silently ignores
//! off-canvas ones.

use crate::color::{spec_triple, Color};
use crate::decimal::{dec_string, spec_dec};
use crate::lines::{
    end_col, lemma_end_col_concat, lemma_lines_within_concat, lemma_newline_piece,
    lemma_no_newline_no_trailing_space, lemma_no_newline_piece, lemma_no_trailing_space_concat,
    lines_within, no_trailing_space,
};
use crate::fixed::{Scalar, SCALE};
use vstd::prelude::*;
use vstd::string::StringExecFns;

verus! {

/// Number of pixel triples the serializer places on one output line
/// before wrapping, keeping lines within the format's length limit.
pub const TRIPLES_PER_LINE: usize = 6;

/// A width-by-height grid of colors.
#[derive(Debug)]
pub struct Canvas {
    width: usize,
    height: usize,
    pixels: Vec<Vec<Color>>,
}

/// The pixel grid as a nested sequence, row-major: the outer index is
/// `y`, the inner index is `x`.
pub closed spec fn spec_pixels(c: Canvas) -> Seq<Seq<Color>> {
    c.pixels@.map_values(|row: Vec<Color>| row@)
}

/// The canvas width.
pub closed spec fn spec_width(c: Canvas) -> int {
    c.width as int
}

/// The canvas height.
pub closed spec fn spec_height(c: Canvas) -> int {
    c.height as int
}

/// The grid holds exactly `height` rows of exactly `width` cells.
pub open spec fn spec_wf(c: Canvas) -> bool {
    &&& spec_pixels(c).len() == spec_height(c)
    &&& forall|y: int|
        0 <= y < spec_height(c) ==> (#[trigger] spec_pixels(c)[y]).len() == spec_width(c)
}

/// The all-black color every fresh canvas cell starts from.
pub open spec fn spec_black() -> Color {
    Color {
        red: Scalar { units: 0 },
        green: Scalar { units: 0 },
        blue: Scalar { units: 0 },
    }
}

/// What the serializer emits immediately before the pixel at column
/// `k`: nothing at the start of a row, a newline at each wrap point,
/// otherwise a single space.
pub open spec fn spec_sep(k: int) -> Seq<char> {
    if k <= 0 {
        Seq::<char>::empty()
    } else if k % (TRIPLES_PER_LINE as int) == 0 {
        seq!['\n']
    } else {
        seq![' ']
    }
}

/// The text of the first `n` pixels of one row, separators included.
pub open spec fn spec_row_prefix(row: Seq<Color>, n: int) -> Seq<char>
    decreases n,
{
    if n <= 0 {
        Seq::<char>::empty()
    } else {
        spec_row_prefix(row, n - 1) + spec_sep(n - 1) + spec_triple(row[n - 1])
    }
}

/// The full text of one pixel row: its triples, wrapped, with a final
/// newline; an empty row contributes nothing.
pub open spec fn spec_row_line(row: Seq<Color>) -> Seq<char> {
    if row.len() == 0 {
        Seq::<char>::empty()
    } else {
        spec_row_prefix(row, row.len() as int) + seq!['\n']
    }
}

/// The concatenated text of the first `k` pixel rows.
pub open spec fn spec_rows_text(rows: Seq<Seq<Color>>, k: int) -> Seq<char>
    decreases k,
{
    if k <= 0 {
        Seq::<char>::empty()
    } else {
        spec_rows_text(rows, k - 1) + spec_row_line(rows[k - 1])
    }
}

/// The three header lines: the magic token, the dimensions, and the
/// maximum channel value.
pub open spec fn spec_header(w: nat, h: nat) -> Seq<char> {
    seq!['P', '3', '\n'] + spec_dec(w) + seq![' '] + spec_dec(h) + seq!['\n'] + seq![
        '2',
        '5',
        '5',
        '\n',
    ]
}

/// The complete serialized image: header, then every pixel row.
pub open spec fn spec_ppm(c: Canvas) -> Seq<char> {
    spec_header(spec_width(c) as nat, spec_height(c) as nat) + spec_rows_text(
        spec_pixels(c),
        spec_height(c),
    )
}

/// The text of the first `n` black triples of a row, separators
/// included: `0 0 0` repeated, space-separated, wrapped every
/// [`TRIPLES_PER_LINE`] triples.
pub open spec fn spec_black_cells(n: int) -> Seq<char>
    decreases n,
{
    if n <= 0 {
        Seq::<char>::empty()
    } else {
        spec_black_cells(n - 1) + spec_sep(n - 1) + seq!['0', ' ', '0', ' ', '0']
    }
}

/// The pixel text of a fresh canvas: `h` rows of `w` black triples,
/// each non-empty row ending in a newline.
pub open spec fn spec_black_rows(w: int, h: int) -> Seq<char>
    decreases h,
{
    if h <= 0 {
        Seq::<char>::empty()
    } else if w <= 0 {
        spec_black_rows(w, h - 1)
    } else {
        spec_black_rows(w, h - 1) + spec_black_cells(w) + seq!['\n']
    }
}

/// The text of one black pixel is `0 0 0`.
pub proof fn lemma_black_triple()
    ensures
        spec_triple(spec_black()) == seq!['0', ' ', '0', ' ', '0'],
{
    let zero = Scalar { units: 0 };
    assert(crate::color::round_half_div(0int, SCALE as int) == 0) by {
        vstd::arithmetic::div_mod::lemma_basic_div(SCALE as int, 2 * (SCALE as int));
    }
    assert(crate::color::spec_channel(zero) == 0);
    assert(spec_dec(0nat) == seq!['0']);
    assert(spec_triple(spec_black()) =~= seq!['0', ' ', '0', ' ', '0']);
}

/// An all-black row serializes to wrapped `0 0 0` triples.
proof fn lemma_black_row_prefix(row: Seq<Color>, n: int)
    requires
        n <= row.len(),
        forall|x: int| 0 <= x < row.len() ==> #[trigger] row[x] == spec_black(),
    ensures
        spec_row_prefix(row, n) == spec_black_cells(n),
    decreases n,
{
    if n <= 0 {
    } else {
        lemma_black_row_prefix(row, n - 1);
        lemma_black_triple();
    }
}

/// The first `k` rows of an all-black grid serialize to `k` black row
/// lines.
proof fn lemma_black_rows_text(rows: Seq<Seq<Color>>, w: int, k: int)
    requires
        k <= rows.len(),
        forall|y: int| 0 <= y < rows.len() ==> (#[trigger] rows[y]).len() == w,
        forall|y: int, x: int|
            0 <= y < rows.len() && 0 <= x < w ==> #[trigger] rows[y][x] == spec_black(),
    ensures
        spec_rows_text(rows, k) == spec_black_rows(w, k),
    decreases k,
{
    if k <= 0 {
    } else {
        lemma_black_rows_text(rows, w, k - 1);
        if w <= 0 {
            assert(spec_rows_text(rows, k) =~= spec_black_rows(w, k));
        } else {
            lemma_black_row_prefix(rows[k - 1], w);
            assert(spec_rows_text(rows, k) =~= spec_black_rows(w, k));
        }
    }
}

/// A freshly constructed canvas serializes to exactly the three header
/// lines followed by `height` rows of `width` black triples, wrapped
/// every [`TRIPLES_PER_LINE`] triples.
pub proof fn lemma_fresh_canvas_text(c: Canvas)
    requires
        spec_wf(c),
        forall|y: int, x: int|
            0 <= y < spec_height(c) && 0 <= x < spec_width(c) ==> (#[trigger] spec_pixels(
                c,
            )[y][x]) == spec_black(),
    ensures
        spec_ppm(c) == spec_header(spec_width(c) as nat, spec_height(c) as nat) + spec_black_rows(
            spec_width(c),
            spec_height(c),
        ),
{
    lemma_black_rows_text(spec_pixels(c), spec_width(c), spec_height(c));
}

/// The wrapped text of `n` black triples keeps every line within the
/// 70-character limit, never puts a space before a newline, and starts
/// and ends with a digit.
proof fn lemma_black_cells_discipline(n: int)
    requires
        n >= 0,
    ensures
        lines_within(spec_black_cells(n), 0, 70),
        end_col(spec_black_cells(n), 0) == (if n == 0 {
            0int
        } else {
            6 * ((n - 1) % 6) + 5
        }),
        no_trailing_space(spec_black_cells(n)),
        n > 0 ==> spec_black_cells(n).len() > 0 && spec_black_cells(n).last() == '0'
            && spec_black_cells(n)[0] == '0',
    decreases n,
{
    let t = seq!['0', ' ', '0', ' ', '0'];
    assert(forall|i: int| 0 <= i < t.len() ==> t[i] != '\n');
    if n <= 0 {
    } else if n == 1 {
        assert(spec_black_cells(0) =~= Seq::<char>::empty());
        assert(spec_sep(0) =~= Seq::<char>::empty());
        assert(spec_black_cells(1) =~= t);
        lemma_no_newline_piece(t, 0, 70);
        lemma_no_newline_no_trailing_space(t);
    } else {
        lemma_black_cells_discipline(n - 1);
        let head = spec_black_cells(n - 1);
        let sep = spec_sep(n - 1);
        let e = end_col(head, 0);
        assert(e == 6 * ((n - 2) % 6) + 5);
        assert(0 <= (n - 2) % 6 < 6);
        if (n - 1) % 6 == 0 {
            assert(sep =~= seq!['\n']);
            lemma_newline_piece(e, 70);
            lemma_lines_within_concat(head, sep, 0, 70);
            lemma_end_col_concat(head, sep, 0);
            assert(end_col(head + sep, 0) == 0);
            lemma_no_newline_piece(t, 0, 70);
            lemma_lines_within_concat(head + sep, t, 0, 70);
            lemma_end_col_concat(head + sep, t, 0);
            assert((n - 1) % 6 == 0);
            assert(end_col(spec_black_cells(n), 0) == 5);
            lemma_no_trailing_space_concat(head, sep);
            lemma_no_newline_no_trailing_space(t);
            lemma_no_trailing_space_concat(head + sep, t);
        } else {
            assert(sep =~= seq![' ']);
            assert((n - 1) % 6 == (n - 2) % 6 + 1);
            lemma_no_newline_piece(sep, e, 70);
            lemma_lines_within_concat(head, sep, 0, 70);
            lemma_end_col_concat(head, sep, 0);
            assert(end_col(head + sep, 0) == e + 1);
            lemma_no_newline_piece(t, e + 1, 70);
            lemma_lines_within_concat(head + sep, t, 0, 70);
            lemma_end_col_concat(head + sep, t, 0);
            assert(end_col(spec_black_cells(n), 0) == e + 6);
            lemma_no_newline_no_trailing_space(sep);
            lemma_no_trailing_space_concat(head, sep);
            lemma_no_newline_no_trailing_space(t);
            lemma_no_trailing_space_concat(head + sep, t);
        }
        assert(spec_black_cells(n)[0] == head[0]);
        assert(spec_black_cells(n).last() == t[4]);
    }
}

/// The whole pixel text of a fresh canvas obeys the line discipline and
/// leaves the column at zero.
proof fn lemma_black_rows_discipline(w: int, h: int)
    requires
        h >= 0,
    ensures
        lines_within(spec_black_rows(w, h), 0, 70),
        end_col(spec_black_rows(w, h), 0) == 0,
        no_trailing_space(spec_black_rows(w, h)),
        spec_black_rows(w, h).len() > 0 ==> spec_black_rows(w, h)[0] == '0',
    decreases h,
{
    if h <= 0 {
    } else if w <= 0 {
        lemma_black_rows_discipline(w, h - 1);
    } else {
        lemma_black_rows_discipline(w, h - 1);
        lemma_black_cells_discipline(w);
        let head = spec_black_rows(w, h - 1);
        let cells = spec_black_cells(w);
        let e = end_col(cells, 0);
        assert(0 <= (w - 1) % 6 < 6);
        lemma_lines_within_concat(head, cells, 0, 70);
        lemma_end_col_concat(head, cells, 0);
        lemma_newline_piece(e, 70);
        lemma_lines_within_concat(head + cells, seq!['\n'], 0, 70);
        lemma_end_col_concat(head + cells, seq!['\n'], 0);
        lemma_no_trailing_space_concat(head, cells);
        assert(no_trailing_space(seq!['\n']));
        assert((head + cells).last() == cells.last());
        lemma_no_trailing_space_concat(head + cells, seq!['\n']);
        assert(spec_black_rows(w, h)[0] == (head + cells)[0]);
    }
}

/// The three header lines obey the line discipline for any dimensions
/// the machine can hold, and close at column zero with a newline.
proof fn lemma_header_discipline(w: nat, h: nat)
    requires
        w <= u64::MAX,
        h <= u64::MAX,
    ensures
        lines_within(spec_header(w, h), 0, 70),
        end_col(spec_header(w, h), 0) == 0,
        no_trailing_space(spec_header(w, h)),
        spec_header(w, h).len() > 0 && spec_header(w, h).last() == '\n',
{
    crate::decimal::lemma_dec_chars(w);
    crate::decimal::lemma_dec_chars(h);
    crate::decimal::lemma_dec_len_u64(w);
    crate::decimal::lemma_dec_len_u64(h);
    let magic = seq!['P', '3', '\n'];
    let dw = spec_dec(w);
    let dh = spec_dec(h);
    let space = seq![' '];
    let nl = seq!['\n'];
    let maxv = seq!['2', '5', '5', '\n'];
    assert(magic =~= seq!['P', '3'] + nl);
    lemma_no_newline_piece(seq!['P', '3'], 0, 70);
    lemma_newline_piece(2, 70);
    lemma_lines_within_concat(seq!['P', '3'], nl, 0, 70);
    lemma_end_col_concat(seq!['P', '3'], nl, 0);
    lemma_no_newline_no_trailing_space(seq!['P', '3']);
    assert(no_trailing_space(nl));
    lemma_no_trailing_space_concat(seq!['P', '3'], nl);
    // magic + dw
    lemma_no_newline_piece(dw, 0, 70);
    lemma_lines_within_concat(magic, dw, 0, 70);
    lemma_end_col_concat(magic, dw, 0);
    lemma_no_newline_no_trailing_space(dw);
    lemma_no_trailing_space_concat(magic, dw);
    let p1 = magic + dw;
    assert(end_col(p1, 0) == dw.len());
    // p1 + space
    lemma_no_newline_piece(space, dw.len() as int, 70);
    lemma_lines_within_concat(p1, space, 0, 70);
    lemma_end_col_concat(p1, space, 0);
    lemma_no_newline_no_trailing_space(space);
    lemma_no_trailing_space_concat(p1, space);
    let p2 = p1 + space;
    // p2 + dh
    lemma_no_newline_piece(dh, dw.len() + 1int, 70);
    lemma_lines_within_concat(p2, dh, 0, 70);
    lemma_end_col_concat(p2, dh, 0);
    lemma_no_newline_no_trailing_space(dh);
    lemma_no_trailing_space_concat(p2, dh);
    let p3 = p2 + dh;
    assert(end_col(p3, 0) == dw.len() + 1 + dh.len());
    // p3 + nl
    lemma_newline_piece(dw.len() + 1int + dh.len(), 70);
    lemma_lines_within_concat(p3, nl, 0, 70);
    lemma_end_col_concat(p3, nl, 0);
    assert(p3.last() == dh.last());
    lemma_no_trailing_space_concat(p3, nl);
    let p4 = p3 + nl;
    // p4 + maxv
    assert(maxv =~= seq!['2', '5', '5'] + nl);
    lemma_no_newline_piece(seq!['2', '5', '5'], 0, 70);
    lemma_newline_piece(3, 70);
    lemma_lines_within_concat(seq!['2', '5', '5'], nl, 0, 70);
    lemma_end_col_concat(seq!['2', '5', '5'], nl, 0);
    lemma_no_newline_no_trailing_space(seq!['2', '5', '5']);
    lemma_no_trailing_space_concat(seq!['2', '5', '5'], nl);
    lemma_lines_within_concat(p4, maxv, 0, 70);
    lemma_end_col_concat(p4, maxv, 0);
    lemma_no_trailing_space_concat(p4, maxv);
    assert(spec_header(w, h) =~= p4 + maxv);
    assert((p4 + maxv).last() == maxv[3]);
}

/// A fresh canvas's serialization keeps every output line within 70
/// characters and never ends a line in whitespace.
pub proof fn lemma_fresh_canvas_line_discipline(c: Canvas)
    requires
        spec_wf(c),
        forall|y: int, x: int|
            0 <= y < spec_height(c) && 0 <= x < spec_width(c) ==> (#[trigger] spec_pixels(
                c,
            )[y][x]) == spec_black(),
    ensures
        lines_within(spec_ppm(c), 0, 70),
        no_trailing_space(spec_ppm(c)),
{
    let w = spec_width(c);
    let h = spec_height(c);
    lemma_fresh_canvas_text(c);
    lemma_header_discipline(w as nat, h as nat);
    lemma_black_rows_discipline(w, h);
    let header = spec_header(w as nat, h as nat);
    let rows = spec_black_rows(w, h);
    lemma_lines_within_concat(header, rows, 0, 70);
    lemma_no_trailing_space_concat(header, rows);
}

impl Canvas {
    /// A canvas of the given dimensions with every pixel black.
    pub fn new(width: usize, height: usize) -> (r: Canvas)
        ensures
            spec_wf(r),
            spec_width(r) == width,
            spec_height(r) == height,
            forall|y: int, x: int|
                0 <= y < height && 0 <= x < width ==> (#[trigger] spec_pixels(r)[y][x])
                    == spec_black(),
    {
        let mut pixels: Vec<Vec<Color>> = Vec::new();
        let mut y: usize = 0;
        while y < height
            invariant
                y <= height,
                pixels@.len() == y,
                forall|a: int| 0 <= a < y ==> (#[trigger] pixels@[a])@.len() == width,
                forall|a: int, b: int|
                    0 <= a < y && 0 <= b < width ==> (#[trigger] pixels@[a]@[b]) == spec_black(),
            decreases height - y,
        {
            let mut row: Vec<Color> = Vec::new();
            let mut x: usize = 0;
            while x < width
                invariant
                    x <= width,
                    row@.len() == x,
                    forall|b: int| 0 <= b < x ==> (#[trigger] row@[b]) == spec_black(),
                decreases width - x,
            {
                row.push(Color::new(Scalar::zero(), Scalar::zero(), Scalar::zero()));
                x = x + 1;
            }
            pixels.push(row);
            y = y + 1;
        }
        Canvas { width, height, pixels }
    }

    /// The canvas width.
    pub fn width(&self) -> (r: usize)
        ensures
            r == spec_width(*self),
    {
        self.width
    }

    /// The canvas height.
    pub fn height(&self) -> (r: usize)
        ensures
            r == spec_height(*self),
    {
        self.height
    }

    /// Writes one pixel; the coordinates must be on the canvas, a
    /// violation being a programmer error rather than a recoverable
    /// condition.
    pub fn write_pixel(&mut self, x: usize, y: usize, color: Color)
        requires
            spec_wf(*old(self)),
            x < spec_width(*old(self)),
            y < spec_height(*old(self)),
        ensures
            spec_wf(*final(self)),
            spec_width(*final(self)) == spec_width(*old(self)),
            spec_height(*final(self)) == spec_height(*old(self)),
            spec_pixels(*final(self)) == spec_pixels(*old(self)).update(
                y as int,
                spec_pixels(*old(self))[y as int].update(x as int, color),
            ),
    {
        proof {
            assert(self.pixels@.len() == spec_pixels(*self).len());
            assert(self.pixels@[y as int]@.len() == spec_pixels(*self)[y as int].len());
        }
        self.pixels[y][x] = color;
        proof {
            assert(spec_pixels(*self) =~~= spec_pixels(*old(self)).update(
                y as int,
                spec_pixels(*old(self))[y as int].update(x as int, color),
            ));
        }
    }

    /// Writes one pixel if the coordinates are on the canvas and
    /// otherwise changes nothing, for callers whose coordinates come
    /// from unbounded arithmetic.
    pub fn safe_write_pixel(&mut self, x: usize, y: usize, color: Color)
        requires
            spec_wf(*old(self)),
        ensures
            spec_wf(*final(self)),
            spec_width(*final(self)) == spec_width(*old(self)),
            spec_height(*final(self)) == spec_height(*old(self)),
            x < spec_width(*old(self)) && y < spec_height(*old(self)) ==> spec_pixels(
                *final(self),
            ) == spec_pixels(*old(self)).update(
                y as int,
                spec_pixels(*old(self))[y as int].update(x as int, color),
            ),
            !(x < spec_width(*old(self)) && y < spec_height(*old(self))) ==> *final(self) == *old(
                self,
            ),
    {
        if x >= self.width {
            return ;
        }
        if y >= self.height {
            return ;
        }
        self.write_pixel(x, y, color)
    }

    /// The pixel at `(x, y)`; the coordinates must be on the canvas.
    pub fn pixel_at(&self, x: usize, y: usize) -> (r: Color)
        requires
            spec_wf(*self),
            x < spec_width(*self),
            y < spec_height(*self),
        ensures
            r == spec_pixels(*self)[y as int][x as int],
    {
        proof {
            assert(spec_pixels(*self)[y as int] == self.pixels@[y as int]@);
        }
        self.pixels[y][x]
    }

    /// The serialized image: the three header lines, then each pixel
    /// row's triples separated by single spaces and wrapped every
    /// [`TRIPLES_PER_LINE`] triples, each non-empty row ending in a
    /// newline and never in a space.
    pub fn to_ppm(&self) -> (s: String)
        requires
            spec_wf(*self),
        ensures
            s@ == spec_ppm(*self),
    {
        proof {
            reveal_strlit("P3\n");
            reveal_strlit(" ");
            reveal_strlit("\n255\n");
            reveal_strlit("\n");
        }
        let mut out: String = "P3\n".to_owned();
        let ws: String = dec_string(self.width as u64);
        out.append(ws.as_str());
        out.append(" ");
        let hs: String = dec_string(self.height as u64);
        out.append(hs.as_str());
        out.append("\n255\n");
        proof {
            assert(out@ =~= spec_header(spec_width(*self) as nat, spec_height(*self) as nat));
        }
        let ghost header = spec_header(spec_width(*self) as nat, spec_height(*self) as nat);
        let mut y: usize = 0;
        while y < self.height
            invariant
                spec_wf(*self),
                y <= spec_height(*self),
                out@ == header + spec_rows_text(spec_pixels(*self), y as int),
            decreases self.height - y,
        {
            proof {
                assert(spec_pixels(*self)[y as int] == self.pixels@[y as int]@);
            }
            let ghost row = spec_pixels(*self)[y as int];
            let mut x: usize = 0;
            while x < self.width
                invariant
                    spec_wf(*self),
                    y < spec_height(*self),
                    x <= spec_width(*self),
                    row == spec_pixels(*self)[y as int],
                    out@ == header + spec_rows_text(spec_pixels(*self), y as int)
                        + spec_row_prefix(row, x as int),
                decreases self.width - x,
            {
                proof {
                    reveal_strlit(" ");
                    reveal_strlit("\n");
                }
                if x > 0 {
                    if x % TRIPLES_PER_LINE == 0 {
                        out.append("\n");
                    } else {
                        out.append(" ");
                    }
                }
                let triple: String = self.pixels[y][x].to_ppm();
                out.append(triple.as_str());
                proof {
                    assert(out@ =~= header + spec_rows_text(spec_pixels(*self), y as int)
                        + spec_row_prefix(row, x as int + 1));
                }
                x = x + 1;
            }
            if self.width > 0 {
                out.append("\n");
            }
            proof {
                reveal_strlit("\n");
                assert(spec_row_prefix(row, 0int) =~= Seq::<char>::empty());
                assert(out@ =~= header + spec_rows_text(spec_pixels(*self), y as int + 1));
            }
            y = y + 1;
        }
        out
    }
}

} // verus!
