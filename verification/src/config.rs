//! What a render is configured with, checked once.

use vstd::prelude::*;

verus! {

/// Why a configuration is refused.
#[derive(Clone, Copy, Debug, PartialEq, Eq, Structural)]
pub enum ConfigError {
    /// The image has no columns.
    ZeroWidth,
    /// The image has no rows.
    ZeroHeight,
    /// Fewer than one sample per pixel.
    NoSamples,
    /// A negative bounce limit.
    NegativeDepth,
}

impl ConfigError {
    /// The error in words.
    pub open spec fn message_spec(&self) -> Seq<char> {
        match self {
            ConfigError::ZeroWidth => "image width must be positive"@,
            ConfigError::ZeroHeight => "image height must be positive"@,
            ConfigError::NoSamples => "samples per pixel must be at least one"@,
            ConfigError::NegativeDepth => "maximum depth must not be negative"@,
        }
    }

    /// The error in words.
    pub fn message(&self) -> (text: &'static str)
        ensures
            text@ == self.message_spec(),
    {
        match self {
            ConfigError::ZeroWidth => "image width must be positive",
            ConfigError::ZeroHeight => "image height must be positive",
            ConfigError::NoSamples => "samples per pixel must be at least one",
            ConfigError::NegativeDepth => "maximum depth must not be negative",
        }
    }
}

/// Where a pixel's samples lie on the image plane: a sample of pixel
/// `(x, y)` has the horizontal coordinate `(column + r) / columns` and the
/// vertical coordinate `(row + r') / rows`, with `r` and `r'` drawn from
/// `[0, 1)`. Rows of the image count downwards, `row` counts upwards.
#[derive(Clone, Copy, Debug, PartialEq, Eq, Structural)]
pub struct Cell {
    pub column: u32,
    pub row: u32,
    pub columns: u32,
    pub rows: u32,
}

/// The size of the image and the effort spent on each pixel.
#[derive(Clone, Copy, Debug)]
pub struct Config {
    width: u32,
    height: u32,
    samples_per_pixel: i32,
    max_depth: i32,
}

impl Config {
    #[verifier::type_invariant]
    spec fn valid(self) -> bool {
        self.width >= 1 && self.height >= 1 && self.samples_per_pixel >= 1 && self.max_depth >= 0
    }

    /// The number of columns.
    pub closed spec fn width_spec(&self) -> u32 {
        self.width
    }

    /// The number of rows.
    pub closed spec fn height_spec(&self) -> u32 {
        self.height
    }

    /// The number of rays cast for each pixel.
    pub closed spec fn samples_per_pixel_spec(&self) -> i32 {
        self.samples_per_pixel
    }

    /// The number of bounces a path may take.
    pub closed spec fn max_depth_spec(&self) -> i32 {
        self.max_depth
    }

    /// What is wrong with the given values, the first fault in the order
    /// width, height, samples, depth; nothing if all are in order.
    pub open spec fn fault(width: u32, height: u32, samples_per_pixel: i32, max_depth: i32)
        -> Option<ConfigError> {
        if width == 0 {
            Some(ConfigError::ZeroWidth)
        } else if height == 0 {
            Some(ConfigError::ZeroHeight)
        } else if samples_per_pixel < 1 {
            Some(ConfigError::NoSamples)
        } else if max_depth < 0 {
            Some(ConfigError::NegativeDepth)
        } else {
            None
        }
    }

    /// The configuration with the given values, or the first fault in them.
    pub fn new(width: u32, height: u32, samples_per_pixel: i32, max_depth: i32) -> (r: Result<
        Config,
        ConfigError,
    >)
        ensures
            match Self::fault(width, height, samples_per_pixel, max_depth) {
                Some(e) => r == Err::<Config, ConfigError>(e),
                None => r matches Ok(c) && c.width() == width && c.height() == height
                    && c.samples_per_pixel() == samples_per_pixel && c.max_depth() == max_depth,
            },
    {
        if width == 0 {
            Err(ConfigError::ZeroWidth)
        } else if height == 0 {
            Err(ConfigError::ZeroHeight)
        } else if samples_per_pixel < 1 {
            Err(ConfigError::NoSamples)
        } else if max_depth < 0 {
            Err(ConfigError::NegativeDepth)
        } else {
            Ok(Config { width, height, samples_per_pixel, max_depth })
        }
    }

    /// The number of columns, which is positive.
    #[verifier::when_used_as_spec(width_spec)]
    pub fn width(&self) -> (w: u32)
        ensures
            w == self.width(),
            w >= 1,
    {
        proof {
            use_type_invariant(self);
        }
        self.width
    }

    /// The number of rows, which is positive.
    #[verifier::when_used_as_spec(height_spec)]
    pub fn height(&self) -> (h: u32)
        ensures
            h == self.height(),
            h >= 1,
    {
        proof {
            use_type_invariant(self);
        }
        self.height
    }

    /// The number of rays cast for each pixel, which is positive.
    #[verifier::when_used_as_spec(samples_per_pixel_spec)]
    pub fn samples_per_pixel(&self) -> (n: i32)
        ensures
            n == self.samples_per_pixel(),
            n >= 1,
    {
        proof {
            use_type_invariant(self);
        }
        self.samples_per_pixel
    }

    /// The number of bounces a path may take, which is not negative.
    #[verifier::when_used_as_spec(max_depth_spec)]
    pub fn max_depth(&self) -> (d: i32)
        ensures
            d == self.max_depth(),
            d >= 0,
    {
        proof {
            use_type_invariant(self);
        }
        self.max_depth
    }

    /// The number of pixels of the image.
    pub fn pixel_count(&self) -> (n: u64)
        ensures
            n == self.width() * self.height(),
            n >= 1,
    {
        proof {
            use_type_invariant(self);
            assert(1 <= self.width * self.height <= 0xFFFF_FFFF * 0xFFFF_FFFF) by (nonlinear_arith)
                requires
                    1 <= self.width <= 0xFFFF_FFFF,
                    1 <= self.height <= 0xFFFF_FFFF,
            ;
        }
        (self.width as u64) * (self.height as u64)
    }

    /// The cell of pixel `(x, y)`, counted from the top left; none for a
    /// pixel outside the image.
    pub fn cell(&self, x: u32, y: u32) -> (r: Option<Cell>)
        ensures
            r == (if x < self.width() && y < self.height() {
                Some(
                    Cell {
                        column: x,
                        row: (self.height() - 1 - y) as u32,
                        columns: (self.width() - 1) as u32,
                        rows: (self.height() - 1) as u32,
                    },
                )
            } else {
                None
            }),
    {
        proof {
            use_type_invariant(self);
        }
        if x < self.width && y < self.height {
            Some(
                Cell {
                    column: x,
                    row: self.height - 1 - y,
                    columns: self.width - 1,
                    rows: self.height - 1,
                },
            )
        } else {
            None
        }
    }

    /// The place of pixel `(x, y)` in the image read row by row from the
    /// top; none for a pixel outside the image.
    pub open spec fn index_spec(&self, x: u32, y: u32) -> Option<u64> {
        if x < self.width() && y < self.height() {
            Some((y * self.width() + x) as u64)
        } else {
            None
        }
    }

    /// The pixel at place `index` of the image read row by row from the
    /// top; none beyond the last pixel.
    pub open spec fn coordinates_spec(&self, index: u64) -> Option<(u32, u32)> {
        if index < self.width() * self.height() {
            Some(((index % (self.width() as u64)) as u32, (index / (self.width() as u64)) as u32))
        } else {
            None
        }
    }

    /// The place of pixel `(x, y)` in the image read row by row from the
    /// top; none for a pixel outside the image.
    #[verifier::when_used_as_spec(index_spec)]
    pub fn index(&self, x: u32, y: u32) -> (r: Option<u64>)
        ensures
            r == self.index_spec(x, y),
            r matches Some(i) ==> i < self.width() * self.height(),
    {
        proof {
            use_type_invariant(self);
        }
        if x < self.width && y < self.height {
            proof {
                assert(y * self.width + x < self.width * self.height <= 0xFFFF_FFFF * 0xFFFF_FFFF)
                    by (nonlinear_arith)
                    requires
                        x < self.width <= 0xFFFF_FFFF,
                        y < self.height <= 0xFFFF_FFFF,
                ;
            }
            Some((y as u64) * (self.width as u64) + (x as u64))
        } else {
            None
        }
    }

    /// The pixel at place `index` of the image read row by row from the
    /// top; none beyond the last pixel.
    #[verifier::when_used_as_spec(coordinates_spec)]
    pub fn coordinates(&self, index: u64) -> (r: Option<(u32, u32)>)
        ensures
            r == self.coordinates_spec(index),
            r matches Some((x, y)) ==> x < self.width() && y < self.height(),
    {
        proof {
            use_type_invariant(self);
        }
        if index < self.pixel_count() {
            let w: u64 = self.width as u64;
            proof {
                assert(index / w < self.height && index % w < w) by (nonlinear_arith)
                    requires
                        index < self.width * self.height,
                        w == self.width,
                        w >= 1,
                ;
            }
            Some(((index % w) as u32, (index / w) as u32))
        } else {
            None
        }
    }

    /// Places and pixels correspond one to one: the pixel at the place of
    /// `(x, y)` is `(x, y)`, and the place of the pixel at `index` is
    /// `index`.
    pub proof fn lemma_places(&self, x: u32, y: u32, index: u64)
        requires
            self.width() >= 1,
        ensures
            self.index(x, y) matches Some(i) ==> self.coordinates(i) == Some((x, y)),
            self.coordinates(index) matches Some((cx, cy)) ==> self.index(cx, cy) == Some(index),
    {
        let w = self.width() as int;
        let h = self.height() as int;
        if x < w && y < h {
            let i = y * w + x;
            assert(i < w * h <= 0xFFFF_FFFF * 0xFFFF_FFFF) by (nonlinear_arith)
                requires
                    i == y * w + x,
                    0 <= x < w <= 0xFFFF_FFFF,
                    0 <= y < h <= 0xFFFF_FFFF,
            ;
            assert(self.index(x, y) == Some(i as u64));
            assert(i / w == y && i % w == x) by (nonlinear_arith)
                requires
                    i == y * w + x,
                    0 <= x < w,
                    0 <= y,
            ;
        }
        if index < w * h {
            let q = index as int / w;
            let r = index as int % w;
            assert(q * w + r == index && 0 <= r < w && 0 <= q < h) by (nonlinear_arith)
                requires
                    q == index as int / w,
                    r == index as int % w,
                    0 <= index < w * h,
                    w >= 1,
            ;
            assert(self.coordinates(index) == Some((r as u32, q as u32)));
        }
    }
}

} // verus!
