//! The decoded image: rows of pixels, each pixel a run of channel samples.
use vstd::prelude::*;

verus! {

/// What a pixel buffer holds, as mathematics: its three extents and its
/// samples in row-major order, the channels of a pixel side by side.
pub struct Raster {
    pub rows: nat,
    pub cols: nat,
    pub channels: nat,
    pub samples: Seq<u8>,
}

impl Raster {
    /// There is one sample for every row, column and channel.
    pub open spec fn well_formed(self) -> bool {
        self.samples.len() == self.rows * self.cols * self.channels
    }

    /// Where the sample of a row, column and channel stands among the
    /// samples.
    pub open spec fn offset(self, row: int, col: int, channel: int) -> int {
        (row * self.cols + col) * self.channels + channel
    }

    /// The sample at a row, column and channel, if the buffer has one there.
    pub open spec fn sample(self, row: int, col: int, channel: int) -> Option<u8> {
        if 0 <= row < self.rows && 0 <= col < self.cols && 0 <= channel < self.channels {
            Some(self.samples[self.offset(row, col, channel)])
        } else {
            None
        }
    }

    /// The colour at a row and column: its first three channels, a missing
    /// one counting as zero.
    pub open spec fn pixel(self, row: int, col: int) -> (u8, u8, u8) {
        (
            sample_or_zero(self.sample(row, col, 0)),
            sample_or_zero(self.sample(row, col, 1)),
            sample_or_zero(self.sample(row, col, 2)),
        )
    }
}

/// A sample, or zero where there is none.
pub open spec fn sample_or_zero(sample: Option<u8>) -> u8 {
    match sample {
        Some(value) => value,
        None => 0,
    }
}

/// Every position of a well-formed raster has its own place among the
/// samples.
pub proof fn lemma_offset_in_range(raster: Raster, row: int, col: int, channel: int)
    requires
        raster.well_formed(),
        0 <= row < raster.rows,
        0 <= col < raster.cols,
        0 <= channel < raster.channels,
    ensures
        0 <= raster.offset(row, col, channel) < raster.samples.len(),
        0 <= row * raster.cols + col < raster.rows * raster.cols,
{
    let w = raster.cols as int;
    let h = raster.rows as int;
    let c = raster.channels as int;
    assert(0 <= row * w + col < h * w) by (nonlinear_arith)
        requires
            0 <= row < h,
            0 <= col < w,
    ;
    let cell = row * w + col;
    assert(0 <= cell * c + channel < (h * w) * c) by (nonlinear_arith)
        requires
            0 <= cell < h * w,
            0 <= channel < c,
    ;
}

/// A decoded image of `rows` by `cols` pixels with `channels` samples each.
pub struct PixelBuffer {
    rows: usize,
    cols: usize,
    channels: usize,
    samples: Vec<u8>,
}

impl View for PixelBuffer {
    type V = Raster;

    closed spec fn view(&self) -> Raster {
        Raster {
            rows: self.rows as nat,
            cols: self.cols as nat,
            channels: self.channels as nat,
            samples: self.samples@,
        }
    }
}

impl PixelBuffer {
    #[verifier::type_invariant]
    spec fn well_formed(&self) -> bool {
        self@.well_formed()
    }

    /// A buffer of the given extents over samples in row-major order, the
    /// channels of a pixel side by side. There is none unless the samples
    /// are exactly as many as the extents ask for.
    pub fn from_raw(rows: usize, cols: usize, channels: usize, samples: Vec<u8>) -> (made: Option<
        PixelBuffer,
    >)
        ensures
            made is Some <==> samples@.len() == rows * cols * channels,
            made matches Some(buffer) ==> buffer@ == (Raster {
                rows: rows as nat,
                cols: cols as nat,
                channels: channels as nat,
                samples: samples@,
            }),
    {
        let count: usize = samples.len();
        if rows == 0 || cols == 0 || channels == 0 {
            assert(rows * cols * channels == 0) by (nonlinear_arith)
                requires
                    rows == 0 || cols == 0 || channels == 0,
            ;
            if count == 0 {
                return Some(PixelBuffer { rows, cols, channels, samples });
            }
            return None;
        }
        match rows.checked_mul(cols) {
            Some(pixels) => match pixels.checked_mul(channels) {
                Some(total) => {
                    if total == count {
                        Some(PixelBuffer { rows, cols, channels, samples })
                    } else {
                        None
                    }
                },
                None => None,
            },
            None => {
                assert(rows * cols * channels >= rows * cols) by (nonlinear_arith)
                    requires
                        rows * cols >= 0,
                        channels >= 1,
                ;
                None
            },
        }
    }

    /// The number of rows.
    pub fn rows(&self) -> (n: usize)
        ensures
            n == self@.rows,
            self@.well_formed(),
    {
        proof {
            use_type_invariant(self);
        }
        self.rows
    }

    /// The number of pixels in a row.
    pub fn cols(&self) -> (n: usize)
        ensures
            n == self@.cols,
            self@.well_formed(),
    {
        proof {
            use_type_invariant(self);
        }
        self.cols
    }

    /// The number of samples of a pixel.
    pub fn channels(&self) -> (n: usize)
        ensures
            n == self@.channels,
            self@.well_formed(),
    {
        proof {
            use_type_invariant(self);
        }
        self.channels
    }

    /// The sample at a row, column and channel, if the buffer has one there.
    pub fn get(&self, row: usize, col: usize, channel: usize) -> (found: Option<u8>)
        ensures
            found == self@.sample(row as int, col as int, channel as int),
    {
        if row < self.rows && col < self.cols && channel < self.channels {
            proof {
                use_type_invariant(self);
                lemma_offset_in_range(self@, row as int, col as int, channel as int);
                // the samples are in a vector, so their number fits the machine
                assert(self.samples@.len() == self.samples.len());
                let h = self.rows as int;
                let w = self.cols as int;
                let c = self.channels as int;
                assert(h * w <= h * w * c) by (nonlinear_arith)
                    requires
                        h * w >= 0,
                        c >= 1,
                ;
                assert(0 <= row * w) by (nonlinear_arith)
                    requires
                        row >= 0,
                        w >= 0,
                ;
                assert(0 <= (row * w + col) * c) by (nonlinear_arith)
                    requires
                        row * w + col >= 0,
                        c >= 0,
                ;
            }
            let cell: usize = row * self.cols + col;
            Some(self.samples[cell * self.channels + channel])
        } else {
            None
        }
    }

    /// The colour at a row and column: its first three channels, a missing
    /// one counting as zero.
    pub fn pixel(&self, row: usize, col: usize) -> (colour: (u8, u8, u8))
        ensures
            colour == self@.pixel(row as int, col as int),
    {
        let r: u8 = value_or_zero(self.get(row, col, 0));
        let g: u8 = value_or_zero(self.get(row, col, 1));
        let b: u8 = value_or_zero(self.get(row, col, 2));
        (r, g, b)
    }
}

/// A sample, or zero where there is none.
fn value_or_zero(sample: Option<u8>) -> (value: u8)
    ensures
        value == sample_or_zero(sample),
{
    match sample {
        Some(value) => value,
        None => 0,
    }
}

} // verus!
