//! The image as a table of glyphs with their colours.
use vstd::prelude::*;
use crate::buffer::{PixelBuffer, Raster};
use crate::error::AsciiError;
use crate::glyph::{brightness_of, glyph_index, GlyphMapper};

verus! {

/// What stands at a row and column of the table: the glyph that the palette
/// gives to the pixel's brightness, and the pixel's colour.
pub open spec fn glyph_cell(raster: Raster, palette: Seq<Seq<char>>, row: int, col: int) -> (
    Seq<char>,
    (u8, u8, u8),
) {
    let colour = raster.pixel(row, col);
    let index = glyph_index(palette.len(), brightness_of(colour.0, colour.1, colour.2));
    (palette[index as int], colour)
}

/// One row of the table: the cells of its columns from left to right.
pub open spec fn glyph_row(raster: Raster, palette: Seq<Seq<char>>, row: int) -> Seq<
    (Seq<char>, (u8, u8, u8)),
> {
    Seq::new(raster.cols, |col: int| glyph_cell(raster, palette, row, col))
}

/// The table of an image: its rows from top to bottom.
pub open spec fn glyph_grid(raster: Raster, palette: Seq<Seq<char>>) -> Seq<
    Seq<(Seq<char>, (u8, u8, u8))>,
> {
    Seq::new(raster.rows, |row: int| glyph_row(raster, palette, row))
}

/// The table has the image's rows and columns, whatever they number.
pub proof fn lemma_grid_keeps_dimensions(raster: Raster, palette: Seq<Seq<char>>)
    ensures
        glyph_grid(raster, palette).len() == raster.rows,
        forall|row: int|
            0 <= row < raster.rows ==> (#[trigger] glyph_grid(raster, palette)[row]).len()
                == raster.cols,
{
}

/// An image without rows has an empty table; one without columns has a table
/// of empty rows.
pub proof fn lemma_grid_of_nothing(raster: Raster, palette: Seq<Seq<char>>)
    ensures
        raster.rows == 0 ==> glyph_grid(raster, palette) == Seq::<
            Seq<(Seq<char>, (u8, u8, u8))>,
        >::empty(),
        raster.cols == 0 ==> forall|row: int|
            0 <= row < raster.rows ==> #[trigger] glyph_grid(raster, palette)[row] == Seq::<
                (Seq<char>, (u8, u8, u8)),
            >::empty(),
{
}

/// Every glyph of the table is a glyph of the palette.
pub proof fn lemma_grid_glyphs_from_palette(
    raster: Raster,
    palette: Seq<Seq<char>>,
    row: int,
    col: int,
)
    requires
        palette.len() >= 1,
        0 <= row < raster.rows,
        0 <= col < raster.cols,
    ensures
        palette.contains(glyph_grid(raster, palette)[row][col].0),
        glyph_grid(raster, palette)[row][col].1 == raster.pixel(row, col),
{
}

/// Maps an image to its table of glyphs and colours, row by row and, within
/// a row, column by column. An empty palette maps no image.
pub fn image_to_ascii_rs(img_array: &PixelBuffer, charset: Vec<String>) -> (result: Result<
    Vec<Vec<(String, (u8, u8, u8))>>,
    AsciiError,
>)
    ensures
        charset@.len() == 0 <==> result is Err,
        result matches Err(e) ==> e == AsciiError::EmptyPalette,
        result matches Ok(grid) ==> {
            &&& grid.deep_view() == glyph_grid(img_array@, charset.deep_view())
            &&& grid@.len() == img_array@.rows
            &&& forall|row: int|
                0 <= row < grid@.len() ==> (#[trigger] grid@[row])@.len() == img_array@.cols
        },
{
    let mapper = match GlyphMapper::new(charset.len()) {
        Ok(mapper) => mapper,
        Err(e) => {
            return Err(e);
        },
    };
    let rows: usize = img_array.rows();
    let cols: usize = img_array.cols();
    let ghost raster = img_array@;
    let ghost palette = charset.deep_view();
    let mut grid: Vec<Vec<(String, (u8, u8, u8))>> = Vec::new();
    let mut row: usize = 0;
    while row < rows
        invariant
            row <= rows,
            rows == raster.rows,
            cols == raster.cols,
            raster == img_array@,
            palette == charset.deep_view(),
            mapper@ == charset@.len(),
            grid@.len() == row,
            forall|i: int|
                0 <= i < row ==> (#[trigger] grid@[i]).deep_view() == glyph_row(
                    raster,
                    palette,
                    i,
                ),
            forall|i: int| 0 <= i < row ==> (#[trigger] grid@[i])@.len() == cols,
        decreases rows - row,
    {
        let mut row_data: Vec<(String, (u8, u8, u8))> = Vec::new();
        let mut col: usize = 0;
        while col < cols
            invariant
                col <= cols,
                row < rows,
                rows == raster.rows,
                cols == raster.cols,
                raster == img_array@,
                palette == charset.deep_view(),
                mapper@ == charset@.len(),
                row_data@.len() == col,
                forall|j: int|
                    0 <= j < col ==> (#[trigger] row_data@[j]).deep_view() == glyph_cell(
                        raster,
                        palette,
                        row as int,
                        j,
                    ),
            decreases cols - col,
        {
            let pixel = img_array.pixel(row, col);
            let index: usize = mapper.select(pixel.0, pixel.1, pixel.2);
            let glyph: String = charset[index].clone();
            row_data.push((glyph, pixel));
            col = col + 1;
        }
        grid.push(row_data);
        row = row + 1;
    }
    Ok(grid)
}

} // verus!
