//! What is left of a rendered frame when its colour sequences are taken out:
//! the glyphs of the table, in the table's order.
use vstd::prelude::*;
use crate::buffer::Raster;
use crate::frame::{
    cells_text, colour_reset, decimal, digits, frame_text, grid_text, unit_text,
};
use crate::grid::{glyph_grid, lemma_grid_glyphs_from_palette};

verus! {

/// A text without its colour sequences. A colour sequence runs from an
/// escape character to the next `m`; `inside` says whether the text starts
/// within one.
pub open spec fn strip_colour(text: Seq<char>, inside: bool) -> Seq<char>
    decreases text.len(),
{
    if text.len() == 0 {
        Seq::empty()
    } else if inside {
        strip_colour(text.skip(1), text[0] != 'm')
    } else if text[0] == '\x1b' {
        strip_colour(text.skip(1), true)
    } else {
        seq![text[0]] + strip_colour(text.skip(1), false)
    }
}

/// The glyphs of some cells, each followed by its filling period.
pub open spec fn cells_glyphs(cells: Seq<(Seq<char>, (u8, u8, u8))>) -> Seq<char>
    decreases cells.len(),
{
    if cells.len() == 0 {
        Seq::empty()
    } else {
        cells_glyphs(cells.drop_last()) + cells.last().0 + seq!['.']
    }
}

/// The glyphs of a table, row by row, every row ended by a line feed.
pub open spec fn grid_glyphs(rows: Seq<Seq<(Seq<char>, (u8, u8, u8))>>) -> Seq<char>
    decreases rows.len(),
{
    if rows.len() == 0 {
        Seq::empty()
    } else {
        grid_glyphs(rows.drop_last()) + cells_glyphs(rows.last()) + seq!['\n']
    }
}

/// No glyph of the table holds an escape character.
pub open spec fn glyphs_are_plain(rows: Seq<Seq<(Seq<char>, (u8, u8, u8))>>) -> bool {
    forall|row: int, col: int|
        0 <= row < rows.len() && 0 <= col < rows[row].len() ==> !(
        #[trigger] rows[row][col]).0.contains('\x1b')
}

/// Within a colour sequence, whatever holds no `m` is left out.
pub proof fn lemma_strip_inside(body: Seq<char>, rest: Seq<char>)
    requires
        !body.contains('m'),
    ensures
        strip_colour(body + rest, true) == strip_colour(rest, true),
    decreases body.len(),
{
    if body.len() > 0 {
        assert((body + rest).skip(1) =~= body.skip(1) + rest);
        lemma_strip_inside(body.skip(1), rest);
    }
}

/// Outside a colour sequence, whatever holds no escape character stays.
pub proof fn lemma_strip_outside(plain: Seq<char>, rest: Seq<char>)
    requires
        !plain.contains('\x1b'),
    ensures
        strip_colour(plain + rest, false) == plain + strip_colour(rest, false),
    decreases plain.len(),
{
    if plain.len() > 0 {
        assert((plain + rest).skip(1) =~= plain.skip(1) + rest);
        lemma_strip_outside(plain.skip(1), rest);
    }
}

/// A whole colour sequence is left out: an escape character, a body
/// without `m`, and the `m`.
pub proof fn lemma_strip_sequence(body: Seq<char>, rest: Seq<char>)
    requires
        !body.contains('m'),
    ensures
        strip_colour(seq!['\x1b'] + body + seq!['m'] + rest, false) == strip_colour(rest, false),
{
    let text = seq!['\x1b'] + body + seq!['m'] + rest;
    assert(text.skip(1) =~= body + (seq!['m'] + rest));
    lemma_strip_inside(body, seq!['m'] + rest);
    assert((seq!['m'] + rest).skip(1) =~= rest);
}

/// A number in decimal is made of digits, so there is no `m` in it.
pub proof fn lemma_decimal_is_digits(value: nat)
    ensures
        forall|i: int|
            0 <= i < decimal(value).len() ==> digits().contains(#[trigger] decimal(value)[i]),
        !decimal(value).contains('m'),
    decreases value,
{
    if value >= 10 {
        lemma_decimal_is_digits(value / 10);
    }
}

/// Of the text of one pixel, its glyph and the filling period are left.
pub proof fn lemma_strip_unit(cell: (Seq<char>, (u8, u8, u8)), rest: Seq<char>)
    requires
        !cell.0.contains('\x1b'),
    ensures
        strip_colour(unit_text(cell) + rest, false) == cell.0 + seq!['.'] + strip_colour(
            rest,
            false,
        ),
{
    let red = decimal(cell.1.0 as nat);
    let green = decimal(cell.1.1 as nat);
    let blue = decimal(cell.1.2 as nat);
    lemma_decimal_is_digits(cell.1.0 as nat);
    lemma_decimal_is_digits(cell.1.1 as nat);
    lemma_decimal_is_digits(cell.1.2 as nat);
    let body = seq!['[', '3', '8', ';', '2', ';'] + red + seq![';'] + green + seq![';'] + blue;
    let shown = cell.0 + seq!['.'];
    let closing = seq!['[', '0'];
    assert(!body.contains('m'));
    assert(!shown.contains('\x1b'));
    let tail = shown + (colour_reset() + rest);
    assert(unit_text(cell) + rest =~= seq!['\x1b'] + body + seq!['m'] + tail);
    lemma_strip_sequence(body, tail);
    lemma_strip_outside(shown, colour_reset() + rest);
    assert(colour_reset() + rest =~= seq!['\x1b'] + closing + seq!['m'] + rest);
    lemma_strip_sequence(closing, rest);
}

/// Of the text of some cells, their glyphs and filling periods are left.
pub proof fn lemma_strip_cells(cells: Seq<(Seq<char>, (u8, u8, u8))>, rest: Seq<char>)
    requires
        forall|col: int| 0 <= col < cells.len() ==> !(#[trigger] cells[col]).0.contains('\x1b'),
    ensures
        strip_colour(cells_text(cells) + rest, false) == cells_glyphs(cells) + strip_colour(
            rest,
            false,
        ),
    decreases cells.len(),
{
    if cells.len() > 0 {
        let front = cells.drop_last();
        let last = cells.last();
        assert(cells_text(cells) + rest =~= cells_text(front) + (unit_text(last) + rest));
        lemma_strip_cells(front, unit_text(last) + rest);
        lemma_strip_unit(last, rest);
    }
}

/// Of the text of a table, its glyphs, filling periods and line feeds are
/// left.
pub proof fn lemma_strip_grid(rows: Seq<Seq<(Seq<char>, (u8, u8, u8))>>, rest: Seq<char>)
    requires
        glyphs_are_plain(rows),
    ensures
        strip_colour(grid_text(rows) + rest, false) == grid_glyphs(rows) + strip_colour(
            rest,
            false,
        ),
    decreases rows.len(),
{
    if rows.len() > 0 {
        let front = rows.drop_last();
        let last = rows.last();
        let feed = seq!['\n'];
        assert(glyphs_are_plain(front));
        assert(grid_text(rows) + rest =~= grid_text(front) + (cells_text(last) + (feed + rest)));
        lemma_strip_grid(front, cells_text(last) + (feed + rest));
        lemma_strip_cells(last, feed + rest);
        lemma_strip_outside(feed, rest);
    }
}

/// The rendered frame and the table hold the same glyphs in the same order,
/// provided that no glyph of the palette holds an escape character. With
/// the colour sequences taken out, the frame of an image with columns is the
/// table's glyphs row by row; for an image without columns the frame is
/// empty and no row of the table holds a glyph.
pub proof fn lemma_frame_shows_grid_glyphs(raster: Raster, palette: Seq<Seq<char>>)
    requires
        palette.len() >= 1,
        forall|i: int| 0 <= i < palette.len() ==> !(#[trigger] palette[i]).contains('\x1b'),
    ensures
        raster.cols >= 1 ==> strip_colour(frame_text(raster, palette), false) == grid_glyphs(
            glyph_grid(raster, palette),
        ),
        raster.cols == 0 ==> strip_colour(frame_text(raster, palette), false) == Seq::<
            char,
        >::empty(),
        raster.cols == 0 ==> forall|row: int|
            0 <= row < raster.rows ==> cells_glyphs(#[trigger] glyph_grid(raster, palette)[row])
                == Seq::<char>::empty(),
{
    let table = glyph_grid(raster, palette);
    assert(glyphs_are_plain(table)) by {
        assert forall|row: int, col: int|
            0 <= row < table.len() && 0 <= col < table[row].len() implies !(
            #[trigger] table[row][col]).0.contains('\x1b') by {
            lemma_grid_glyphs_from_palette(raster, palette, row, col);
        }
    }
    lemma_strip_grid(table, Seq::empty());
}

} // verus!
