//! The image as one block of text for a terminal: every pixel is its glyph
//! in the pixel's colour, every row of pixels a line.
use vstd::prelude::*;
use crate::buffer::{PixelBuffer, Raster};
use crate::error::AsciiError;
use crate::glyph::GlyphMapper;
use crate::grid::{glyph_grid, glyph_row};

verus! {

/// How many bytes the capacity estimate allows for one pixel.
pub const UNIT_CAPACITY: usize = 25;

/// The ten digits, in order.
pub open spec fn digits() -> Seq<char> {
    seq!['0', '1', '2', '3', '4', '5', '6', '7', '8', '9']
}

/// A number in decimal, without leading zeros.
pub open spec fn decimal(value: nat) -> Seq<char>
    decreases value,
{
    if value < 10 {
        seq![digits()[value as int]]
    } else {
        decimal(value / 10).push(digits()[(value % 10) as int])
    }
}

/// The sequence that sets the foreground colour, up to the first channel.
pub open spec fn colour_prefix() -> Seq<char> {
    seq!['\x1b', '[', '3', '8', ';', '2', ';']
}

/// The sequence that puts the colours back.
pub open spec fn colour_reset() -> Seq<char> {
    seq!['\x1b', '[', '0', 'm']
}

/// The text of one pixel: its colour is set, its glyph and a filling period
/// are written, and the colours are put back.
pub open spec fn unit_text(cell: (Seq<char>, (u8, u8, u8))) -> Seq<char> {
    colour_prefix() + decimal(cell.1.0 as nat) + seq![';'] + decimal(cell.1.1 as nat) + seq![';']
        + decimal(cell.1.2 as nat) + seq!['m'] + cell.0 + seq!['.'] + colour_reset()
}

/// The text of some cells, one after the other with nothing between them.
pub open spec fn cells_text(cells: Seq<(Seq<char>, (u8, u8, u8))>) -> Seq<char>
    decreases cells.len(),
{
    if cells.len() == 0 {
        Seq::empty()
    } else {
        cells_text(cells.drop_last()) + unit_text(cells.last())
    }
}

/// The line of a row: the text of its cells and a line feed.
pub open spec fn row_text(cells: Seq<(Seq<char>, (u8, u8, u8))>) -> Seq<char> {
    cells_text(cells) + seq!['\n']
}

/// The text of a table: the lines of its rows from top to bottom.
pub open spec fn grid_text(rows: Seq<Seq<(Seq<char>, (u8, u8, u8))>>) -> Seq<char>
    decreases rows.len(),
{
    if rows.len() == 0 {
        Seq::empty()
    } else {
        grid_text(rows.drop_last()) + row_text(rows.last())
    }
}

/// The text of an image under a palette: the text of its table of glyphs,
/// and nothing at all for an image without columns.
pub open spec fn frame_text(raster: Raster, palette: Seq<Seq<char>>) -> Seq<char> {
    if raster.cols == 0 {
        Seq::empty()
    } else {
        grid_text(glyph_grid(raster, palette))
    }
}

/// The bytes to set aside for the text of `rows` by `cols` pixels.
pub open spec fn capacity_estimate(rows: nat, cols: nat) -> nat {
    rows * cols * UNIT_CAPACITY as nat + rows
}

/// `String::with_capacity` of the standard library: the string it makes is
/// empty, whatever room was asked for. It panics when asked for more than
/// `isize::MAX` bytes, so no caller may ask for that.
pub assume_specification[ String::with_capacity ](capacity: usize) -> (text: String)
    requires
        capacity <= isize::MAX,
    ensures
        text@ == Seq::<char>::empty(),
;

/// The capacity to reserve for a frame: the estimate, or nothing where the
/// estimate is more than a string can hold.
pub fn frame_capacity(rows: usize, cols: usize) -> (capacity: usize)
    ensures
        capacity_estimate(rows as nat, cols as nat) <= isize::MAX ==> capacity
            == capacity_estimate(rows as nat, cols as nat),
        capacity_estimate(rows as nat, cols as nat) > isize::MAX ==> capacity == 0,
{
    let limit: usize = isize::MAX as usize;
    let pixels: usize = match rows.checked_mul(cols) {
        Some(pixels) => pixels,
        None => {
            assert(rows * cols * 25 >= rows * cols) by (nonlinear_arith)
                requires
                    rows * cols >= 0,
            ;
            return 0;
        },
    };
    let bytes: usize = match pixels.checked_mul(UNIT_CAPACITY) {
        Some(bytes) => bytes,
        None => {
            return 0;
        },
    };
    match bytes.checked_add(rows) {
        Some(total) => if total <= limit {
            total
        } else {
            0
        },
        None => 0,
    }
}

/// One digit as text.
fn digit_text(digit: u8) -> (text: &'static str)
    requires
        digit < 10,
    ensures
        text@ == seq![digits()[digit as int]],
{
    proof {
        reveal_strlit("0");
        reveal_strlit("1");
        reveal_strlit("2");
        reveal_strlit("3");
        reveal_strlit("4");
        reveal_strlit("5");
        reveal_strlit("6");
        reveal_strlit("7");
        reveal_strlit("8");
        reveal_strlit("9");
    }
    let text: &'static str = match digit {
        0 => "0",
        1 => "1",
        2 => "2",
        3 => "3",
        4 => "4",
        5 => "5",
        6 => "6",
        7 => "7",
        8 => "8",
        _ => "9",
    };
    text
}

/// Appends a channel value in decimal.
fn push_decimal(out: &mut String, value: u8)
    ensures
        final(out)@ == old(out)@ + decimal(value as nat),
{
    if value >= 100 {
        out.append(digit_text(value / 100));
    }
    if value >= 10 {
        out.append(digit_text((value / 10) % 10));
    }
    out.append(digit_text(value % 10));
    proof {
        reveal_with_fuel(decimal, 3);
    }
}

/// Appends the text of one pixel.
fn push_unit(out: &mut String, glyph: &str, colour: (u8, u8, u8))
    ensures
        final(out)@ == old(out)@ + unit_text((glyph@, colour)),
{
    proof {
        reveal_strlit("\x1b[38;2;");
        reveal_strlit(";");
        reveal_strlit("m");
        reveal_strlit(".");
        reveal_strlit("\x1b[0m");
    }
    out.append("\x1b[38;2;");
    push_decimal(out, colour.0);
    out.append(";");
    push_decimal(out, colour.1);
    out.append(";");
    push_decimal(out, colour.2);
    out.append("m");
    out.append(glyph);
    out.append(".");
    out.append("\x1b[0m");
}

/// The text of a table grows by one line with each row.
pub proof fn lemma_grid_text_step(rows: Seq<Seq<(Seq<char>, (u8, u8, u8))>>, count: int)
    requires
        0 <= count < rows.len(),
    ensures
        grid_text(rows.take(count + 1)) == grid_text(rows.take(count)) + row_text(rows[count]),
{
    assert(rows.take(count + 1).drop_last() =~= rows.take(count));
}

/// The text of a row grows by one unit with each cell.
pub proof fn lemma_cells_text_step(cells: Seq<(Seq<char>, (u8, u8, u8))>, count: int)
    requires
        0 <= count < cells.len(),
    ensures
        cells_text(cells.take(count + 1)) == cells_text(cells.take(count)) + unit_text(
            cells[count],
        ),
{
    assert(cells.take(count + 1).drop_last() =~= cells.take(count));
}

/// An image without rows has no text.
pub proof fn lemma_frame_of_no_rows(raster: Raster, palette: Seq<Seq<char>>)
    requires
        raster.rows == 0,
    ensures
        frame_text(raster, palette) == Seq::<char>::empty(),
{
}

/// An image without columns has no text, however many rows it has.
pub proof fn lemma_frame_of_no_columns(raster: Raster, palette: Seq<Seq<char>>)
    requires
        raster.cols == 0,
    ensures
        frame_text(raster, palette) == Seq::<char>::empty(),
{
}

/// Renders an image as text for a terminal: row by row, every pixel as its
/// glyph in its colour, every row ended by a line feed. An image without
/// rows or without columns renders as the empty string. An empty palette
/// renders no image.
pub fn render_frame_to_string(img_array: &PixelBuffer, charset: Vec<String>) -> (result: Result<
    String,
    AsciiError,
>)
    ensures
        charset@.len() == 0 <==> result is Err,
        result matches Err(e) ==> e == AsciiError::EmptyPalette,
        result matches Ok(text) ==> text@ == frame_text(img_array@, charset.deep_view()),
{
    let mapper = match GlyphMapper::new(charset.len()) {
        Ok(mapper) => mapper,
        Err(e) => {
            return Err(e);
        },
    };
    let rows: usize = img_array.rows();
    let cols: usize = img_array.cols();
    if cols == 0 {
        return Ok(String::new());
    }
    let ghost raster = img_array@;
    let ghost palette = charset.deep_view();
    let ghost table = glyph_grid(raster, palette);
    let mut output: String = String::with_capacity(frame_capacity(rows, cols));
    let mut row: usize = 0;
    while row < rows
        invariant
            row <= rows,
            rows == raster.rows,
            cols == raster.cols,
            raster == img_array@,
            palette == charset.deep_view(),
            table == glyph_grid(raster, palette),
            mapper@ == charset@.len(),
            output@ == grid_text(table.take(row as int)),
        decreases rows - row,
    {
        let ghost above = output@;
        let ghost cells = glyph_row(raster, palette, row as int);
        let mut col: usize = 0;
        while col < cols
            invariant
                col <= cols,
                row < rows,
                rows == raster.rows,
                cols == raster.cols,
                raster == img_array@,
                palette == charset.deep_view(),
                cells == glyph_row(raster, palette, row as int),
                mapper@ == charset@.len(),
                output@ == above + cells_text(cells.take(col as int)),
            decreases cols - col,
        {
            let colour = img_array.pixel(row, col);
            let index: usize = mapper.select(colour.0, colour.1, colour.2);
            push_unit(&mut output, charset[index].as_str(), colour);
            proof {
                lemma_cells_text_step(cells, col as int);
            }
            col = col + 1;
        }
        proof {
            reveal_strlit("\n");
        }
        output.append("\n");
        proof {
            assert(cells.take(cols as int) =~= cells);
            lemma_grid_text_step(table, row as int);
        }
        row = row + 1;
    }
    assert(table.take(rows as int) =~= table);
    Ok(output)
}

} // verus!
