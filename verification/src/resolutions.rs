use vstd::prelude::*;

verus! {

/// Number of one-arc-second sub-intervals across one degree.
const EXTENT: usize = 3600;

/// Grid density of an HGT file: half-arc-second, one-arc-second
/// (the default) or three-arc-second sampling.
#[derive(PartialEq, Eq, Structural, Clone, Copy, PartialOrd, Ord, Debug, Default)]
pub enum Resolution {
    SRTM05,
    #[default]
    SRTM1,
    SRTM3,
}

impl Resolution {
    /// The number of data points per degree of latitude or longitude:
    /// 7201 for `SRTM05`, 3601 for `SRTM1`, 1201 for `SRTM3`.
    pub open spec fn spec_point_per_degree(self) -> int {
        match self {
            Resolution::SRTM05 => 7201,
            Resolution::SRTM1 => 3601,
            Resolution::SRTM3 => 1201,
        }
    }

    /// The byte length a well-formed HGT file of this resolution must
    /// have: one big-endian 16-bit sample for every grid point.
    pub open spec fn spec_expected_file_length(self) -> int {
        self.spec_point_per_degree() * self.spec_point_per_degree() * 2
    }

    /// Returns the number of data points per degree of latitude or
    /// longitude for the given resolution.
    pub fn point_per_degree(&self) -> (r: usize)
        ensures
            r == self.spec_point_per_degree(),
    {
        match self {
            Resolution::SRTM05 => EXTENT * 2 + 1,
            Resolution::SRTM1 => EXTENT + 1,
            Resolution::SRTM3 => EXTENT / 3 + 1,
        }
    }

    /// Calculates the expected length in bytes of an HGT file for the
    /// given resolution: points per degree squared, times two bytes
    /// per data point.
    pub fn expected_file_length(&self) -> (r: usize)
        ensures
            r == self.spec_expected_file_length(),
    {
        let points = self.point_per_degree();
        points * points * 2
    }
}

/// The expected file length of every resolution is the square of its
/// grid side length times the two bytes each sample occupies.
pub proof fn law_expected_file_length(r: Resolution)
    ensures
        r.spec_expected_file_length() == r.spec_point_per_degree() * r.spec_point_per_degree() * 2,
        r == Resolution::SRTM05 ==> r.spec_expected_file_length() == 103708802,
        r == Resolution::SRTM1 ==> r.spec_expected_file_length() == 25934402,
        r == Resolution::SRTM3 ==> r.spec_expected_file_length() == 2884802,
{
}

} // verus!
