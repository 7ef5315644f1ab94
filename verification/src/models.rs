use vstd::prelude::*;

verus! {

/// The reconstruction algorithms offered by the service.
#[derive(Clone, Copy, Debug, PartialEq, Eq, Structural)]
pub enum Alghorithm {
    CGNE,
    CGNR,
}

/// The two image sizes the service reconstructs.
#[derive(Clone, Copy, Debug, PartialEq, Eq, Structural)]
pub enum ImageSize {
    Small,
    Medium,
}

/// A client of the service, identified by its id.
#[derive(Clone, Copy, Debug, PartialEq, Eq, Hash, Structural)]
pub struct Person {
    pub id: u32,
}

/// Number of column blocks of a signal: a signal is 64 blocks of one segment each.
pub const SIGNAL_BLOCKS: usize = 64;

impl Alghorithm {
    /// The name under which the solver knows the algorithm.
    pub open spec fn spec_name(self) -> Seq<char> {
        match self {
            Alghorithm::CGNE => "cgne"@,
            Alghorithm::CGNR => "cgnr"@,
        }
    }

    /// The name under which the solver knows the algorithm.
    pub fn name(&self) -> (name: &'static str)
        ensures
            name@ == self.spec_name(),
    {
        match self {
            Alghorithm::CGNE => "cgne",
            Alghorithm::CGNR => "cgnr",
        }
    }
}

impl ImageSize {
    /// Side length in pixels.
    pub open spec fn spec_side(self) -> u32 {
        match self {
            ImageSize::Small => 30,
            ImageSize::Medium => 60,
        }
    }

    /// Rows of the system matrix (length of a signal) for this size.
    pub open spec fn spec_matrix_rows(self) -> usize {
        match self {
            ImageSize::Small => 27904,
            ImageSize::Medium => 50816,
        }
    }

    /// Columns of the system matrix (length of a reconstructed image) for this size.
    pub open spec fn spec_matrix_cols(self) -> usize {
        match self {
            ImageSize::Small => 900,
            ImageSize::Medium => 3600,
        }
    }

    /// File holding the system matrix for this size.
    pub open spec fn spec_matrix_file(self) -> Seq<char> {
        match self {
            ImageSize::Small => "./src/Data/H-2.csv"@,
            ImageSize::Medium => "./src/Data/H-1.csv"@,
        }
    }

    /// The size whose side is `side`, if there is one.
    pub open spec fn spec_from_side(side: i32) -> Option<ImageSize> {
        if side == 30 {
            Some(ImageSize::Small)
        } else if side == 60 {
            Some(ImageSize::Medium)
        } else {
            None
        }
    }

    /// Side length in pixels: 30 for a small image, 60 for a medium one.
    pub fn side(&self) -> (side: u32)
        ensures
            side == self.spec_side(),
    {
        match self {
            ImageSize::Small => 30,
            ImageSize::Medium => 60,
        }
    }

    /// Rows of the system matrix for this size.
    pub fn matrix_rows(&self) -> (rows: usize)
        ensures
            rows == self.spec_matrix_rows(),
    {
        match self {
            ImageSize::Small => 27904,
            ImageSize::Medium => 50816,
        }
    }

    /// Columns of the system matrix for this size.
    pub fn matrix_cols(&self) -> (cols: usize)
        ensures
            cols == self.spec_matrix_cols(),
    {
        match self {
            ImageSize::Small => 900,
            ImageSize::Medium => 3600,
        }
    }

    /// Path of the CSV file holding the system matrix for this size.
    pub fn matrix_file(&self) -> (path: &'static str)
        ensures
            path@ == self.spec_matrix_file(),
    {
        match self {
            ImageSize::Small => "./src/Data/H-2.csv",
            ImageSize::Medium => "./src/Data/H-1.csv",
        }
    }

    /// The size with side `side` (30 or 60); `None` for any other side.
    pub fn from_side(side: i32) -> (size: Option<ImageSize>)
        ensures
            size == Self::spec_from_side(side),
    {
        if side == 30 {
            Some(ImageSize::Small)
        } else if side == 60 {
            Some(ImageSize::Medium)
        } else {
            None
        }
    }
}

/// Length of one segment of the signal the client sends for an image of side
/// `file_size`: 436 for side 30, 794 otherwise.
pub open spec fn spec_gain_segment(file_size: i32) -> usize {
    if file_size == 30 { 436 } else { 794 }
}

/// Length of one segment of the signal the client sends for an image of side
/// `file_size`: 436 for side 30, 794 otherwise.
pub fn gain_segment(file_size: i32) -> (segment: usize)
    ensures
        segment == spec_gain_segment(file_size),
{
    if file_size == 30 {
        436
    } else {
        794
    }
}

/// A reconstructed image has one entry per pixel: the system matrix has side²
/// columns.
pub proof fn matrix_columns_are_pixels(size: ImageSize)
    ensures
        size.spec_matrix_cols() == size.spec_side() * size.spec_side(),
{
}

/// A signal the client builds for an image size has exactly as many entries as
/// the server's system matrix for that size has rows: 64 segments.
pub proof fn signal_fills_matrix_rows(side: i32)
    requires
        ImageSize::spec_from_side(side) is Some,
    ensures
        SIGNAL_BLOCKS * spec_gain_segment(side) == ImageSize::spec_from_side(side).unwrap().spec_matrix_rows(),
{
}

/// Side lengths and sizes correspond one to one.
pub proof fn side_round_trip(size: ImageSize)
    ensures
        ImageSize::spec_from_side(size.spec_side() as i32) == Some(size),
{
}

} // verus!
