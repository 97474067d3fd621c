use crate::coords::{filename_as_str, Coord, SCALE};
use crate::{resolutions::Resolution, Error, HgtReader};
use vstd::arithmetic::div_mod::{
    lemma_div_denominator, lemma_div_is_ordered, lemma_div_pos_is_pos, lemma_fundamental_div_mod,
    lemma_fundamental_div_mod_converse,
};
use vstd::prelude::*;

verus! {

/// Rounding of a fixed-point value to the nearest integer, with
/// halves rounded away from zero (not banker's rounding).
pub open spec fn spec_round_half_away(num: int) -> int {
    let s = SCALE as int;
    if num >= 0 {
        (2 * num + s) / (2 * s)
    } else {
        -((2 * (-num) + s) / (2 * s))
    }
}

/// The fixed-point fractional part of the latitude relative to its
/// truncation toward zero; negative when the coordinate is negative
/// with a fractional part.
pub open spec fn spec_lat_frac(c: Coord) -> int {
    c.lat - c.spec_lat_trunc() * (SCALE as int)
}

/// The fixed-point fractional part of the longitude relative to its
/// truncation toward zero.
pub open spec fn spec_lon_frac(c: Coord) -> int {
    c.lon - c.spec_lon_trunc() * (SCALE as int)
}

/// The grid row selected for a coordinate: rows are stored north to
/// south, so the fractional latitude is inverted before scaling by
/// the number of sub-intervals across one degree.
pub open spec fn spec_row(c: Coord, res: Resolution) -> int {
    spec_round_half_away(((SCALE as int) - spec_lat_frac(c)) * (res.spec_point_per_degree() - 1))
}

/// The grid column selected for a coordinate: columns are stored west
/// to east directly. A negative rounded value collapses to column 0.
pub open spec fn spec_col(c: Coord, res: Resolution) -> int {
    let v = spec_round_half_away(spec_lon_frac(c) * (res.spec_point_per_degree() - 1));
    if v < 0 {
        0
    } else {
        v
    }
}

/// The byte offset of the sample selected for a coordinate inside a
/// grid file of the given resolution.
pub open spec fn spec_index(c: Coord, res: Resolution) -> int {
    (spec_row(c, res) * res.spec_point_per_degree() + spec_col(c, res)) * 2
}

/// The signed 16-bit value that two big-endian bytes encode.
pub open spec fn spec_be_i16(b0: u8, b1: u8) -> int {
    let v = (b0 as int) * 256 + (b1 as int);
    if v >= 32768 {
        v - 65536
    } else {
        v
    }
}

/// Rounds a fixed-point value to the nearest integer, halves away
/// from zero.
fn round_scaled(num: i64) -> (r: i64)
    requires
        -1_000_000_000_000 <= num <= 1_000_000_000_000,
    ensures
        r as int == spec_round_half_away(num as int),
{
    if num >= 0 {
        (2 * num + SCALE) / (2 * SCALE)
    } else {
        proof {
            lemma_div_pos_is_pos(2 * (-num as int) + (SCALE as int), 2 * (SCALE as int));
            lemma_div_is_ordered(
                2 * (-num as int) + (SCALE as int),
                2 * 1_000_000_000_000 + (SCALE as int),
                2 * (SCALE as int),
            );
        }
        -((2 * (-num) + SCALE) / (2 * SCALE))
    }
}

/// Decodes two big-endian bytes as a signed 16-bit integer.
fn decode_be_i16(b0: u8, b1: u8) -> (h: i16)
    ensures
        h as int == spec_be_i16(b0, b1),
{
    let v: i32 = (b0 as i32) * 256 + (b1 as i32);
    if v >= 32768 {
        (v - 65536) as i16
    } else {
        v as i16
    }
}

/// For a value within `d` whole degrees, the fixed-point fractional
/// part relative to truncation toward zero lies strictly within one
/// degree, and is non-negative when the value is non-negative.
proof fn lemma_frac_bounds(v: int, d: int)
    requires
        0 <= d,
        -d * SCALE <= v <= d * SCALE,
    ensures
        -(SCALE as int) < v - crate::coords::trunc_deg(v) * (SCALE as int) < (SCALE as int),
        v >= 0 ==> 0 <= v - crate::coords::trunc_deg(v) * (SCALE as int),
{
    let s = SCALE as int;
    if v >= 0 {
        lemma_fundamental_div_mod(v, s);
    } else {
        lemma_fundamental_div_mod(-v, s);
    }
}

/// Rounding a non-negative fixed-point value no larger than `b` whole
/// units gives an integer between 0 and `b`.
proof fn lemma_round_bounds(num: int, b: int)
    requires
        0 <= b,
        0 <= num <= b * (SCALE as int),
    ensures
        0 <= spec_round_half_away(num) <= b,
{
    let s = SCALE as int;
    lemma_div_pos_is_pos(2 * num + s, 2 * s);
    lemma_div_is_ordered(2 * num + s, 2 * b * s + s, 2 * s);
    assert(2 * b * s + s == b * (2 * s) + s) by (nonlinear_arith);
    lemma_fundamental_div_mod_converse(2 * b * s + s, 2 * s, b, s);
}

/// The rounding the lookup applies is round-half-away-from-zero, not
/// banker's rounding: a non-negative fixed-point value rounds to the
/// floor of the value plus one half, a negative value mirrors the
/// non-negative case, and a value whose fractional part is exactly
/// one half moves to the next integer away from zero.
pub proof fn law_round_half_away(num: int)
    ensures
        num >= 0 ==> spec_round_half_away(num) == (num + (SCALE as int) / 2) / (SCALE as int),
        spec_round_half_away(-num) == -spec_round_half_away(num),
        num >= 0 && num % (SCALE as int) == (SCALE as int) / 2 ==> spec_round_half_away(num)
            == num / (SCALE as int) + 1,
{
    let s = SCALE as int;
    if num >= 0 {
        lemma_fundamental_div_mod_converse(2 * (num + s / 2), 2, num + s / 2, 0);
        lemma_div_denominator(2 * num + s, 2, s);
        if num % s == s / 2 {
            let k = num / s;
            lemma_fundamental_div_mod(num, s);
            lemma_div_pos_is_pos(num, s);
            lemma_fundamental_div_mod_converse((k + 1) * (2 * s), 2 * s, k + 1, 0);
        }
    }
    if num == 0 {
        lemma_fundamental_div_mod_converse(s, 2 * s, 0, s);
    }
}

/// The lookup engine: binds a resolution to exclusive ownership of
/// one storage backend, and resolves coordinates to elevations read
/// from the backend's currently open grid file.
#[derive(Debug, Clone, PartialEq, Eq, Default)]
pub struct Tile<R: HgtReader> {
    /// north-south position of the [`Tile`]
    /// angle, ranges from -90 (south pole) to 90 (north pole), 0 is the Equator
    pub latitude: i8,
    /// east-west position of the [`Tile`]
    /// angle, ranges from -180 to 180
    pub longitude: i16,
    pub resolution: Resolution,
    data_reader: R,
}

impl<R: HgtReader> Tile<R> {
    /// The backend instance this tile owns.
    pub closed spec fn reader(&self) -> R {
        self.data_reader
    }

    /// The resolution this tile was created with.
    pub closed spec fn spec_resolution(&self) -> Resolution {
        self.resolution
    }

    /// The truncated latitude this tile currently represents.
    pub closed spec fn spec_latitude(&self) -> i8 {
        self.latitude
    }

    /// The truncated longitude this tile currently represents.
    pub closed spec fn spec_longitude(&self) -> i16 {
        self.longitude
    }

    /// Creates a tile bound to the given resolution, taking ownership
    /// of the given backend instance.
    pub fn new<Reader: HgtReader>(res: Resolution, reader: Reader) -> (t: Tile<Reader>)
        ensures
            t.spec_resolution() == res,
            t.spec_latitude() == 0,
            t.spec_longitude() == 0,
            t.reader() == reader,
    {
        Tile { resolution: res, data_reader: reader, latitude: 0, longitude: 0 }
    }

    /// Retrieves the height for the specified coordinate from the HGT
    /// data file named after the coordinate's cell.
    ///
    /// The backend is asked to open that file (a no-op when it is
    /// already open, an implicit close-then-open when a lookup has
    /// moved to a different cell) and to confirm the file length the
    /// tile's resolution demands; the sample's byte offset is then
    /// computed from the coordinate's fractional parts, bounds-checked,
    /// read, decoded as big-endian and checked against the "no data"
    /// sentinel. Every backend failure aborts the lookup and is
    /// surfaced unchanged.
    pub fn get_height<Reader: HgtReader>(&mut self, coord: Coord) -> (r: Result<i16, Error>)
        requires
            coord.valid(),
        ensures
            final(self).spec_resolution() == old(self).spec_resolution(),
            final(self).reader().open_name() is Some ==> final(self).spec_latitude() as int
                == coord.spec_lat_trunc() && final(self).spec_longitude() as int
                == coord.spec_lon_trunc(),
            final(self).reader().open_name() is None ==> final(self).spec_latitude() == old(self).spec_latitude()
                && final(self).spec_longitude() == old(self).spec_longitude(),
            r == Err::<i16, Error>(Error::FileNotFound) <==> final(self).reader().open_name() is None,
            final(self).reader().open_name() is Some ==> final(self).reader().open_name() == Some(
                coord.spec_filename(),
            ),
            final(self).reader().open_name() == Some(coord.spec_filename()) && final(self).reader().contents().len() != old(self).spec_resolution().spec_expected_file_length()
                ==> r == Err::<i16, Error>(Error::Filesize),
            r == Err::<i16, Error>(Error::IndexOutOfBounds) ==> final(self).reader().contents().len()
                == old(self).spec_resolution().spec_expected_file_length() && spec_index(
                coord,
                old(self).spec_resolution(),
            ) >= old(self).spec_resolution().spec_expected_file_length(),
            final(self).reader().open_name() == Some(coord.spec_filename()) && final(self).reader().contents().len()
                == old(self).spec_resolution().spec_expected_file_length() && spec_index(
                coord,
                old(self).spec_resolution(),
            ) >= old(self).spec_resolution().spec_expected_file_length() ==> r == Err::<
                i16,
                Error,
            >(Error::IndexOutOfBounds),
            r == Err::<i16, Error>(Error::InvalidData) ==> ({
                let idx = spec_index(coord, old(self).spec_resolution());
                let bytes = final(self).reader().contents();
                &&& bytes.len() == old(self).spec_resolution().spec_expected_file_length()
                &&& idx + 2 <= bytes.len()
                &&& spec_be_i16(bytes[idx], bytes[idx + 1]) == -32768
            }),
            r matches Ok(h) ==> ({
                let idx = spec_index(coord, old(self).spec_resolution());
                let bytes = final(self).reader().contents();
                &&& bytes.len() == old(self).spec_resolution().spec_expected_file_length()
                &&& idx + 2 <= bytes.len()
                &&& h as int == spec_be_i16(bytes[idx], bytes[idx + 1])
                &&& h as int != -32768
            }),
            r != Err::<i16, Error>(Error::NotFound),
            r != Err::<i16, Error>(Error::ParseLatLong),
    {
        let filename = coord.get_filename();
        let coord_trunc = coord.trunc();
        match self.data_reader.open_hgt_file(filename_as_str(&filename)) {
            Ok(_) => {
                self.latitude = coord_trunc.0;
                self.longitude = coord_trunc.1;
            },
            Err(e) => {
                return Err(e);
            },
        }
        let expected = self.resolution.expected_file_length();
        match self.data_reader.check_hgt_file(expected as u64) {
            Ok(_) => {},
            Err(e) => {
                return Err(e);
            },
        }
        let res_size = self.resolution.point_per_degree();
        proof {
            lemma_frac_bounds(coord.lat as int, 90);
            lemma_frac_bounds(coord.lon as int, 180);
        }
        let lat_frac: i64 = coord.lat - (coord_trunc.0 as i64) * SCALE;
        let lon_frac: i64 = coord.lon - (coord_trunc.1 as i64) * SCALE;
        let n: i64 = (res_size as i64) - 1;
        proof {
            assert(0 <= (SCALE as int - lat_frac as int) * (n as int) <= 2 * (n as int) * (
            SCALE as int)) by (nonlinear_arith)
                requires
                    0 < (SCALE as int) - (lat_frac as int),
                    (SCALE as int) - (lat_frac as int) < 2 * (SCALE as int),
                    0 <= n as int,
            ;
            assert(2 * (n as int) * (SCALE as int) <= 144_000_000_000) by (nonlinear_arith)
                requires
                    0 <= n as int <= 7200,
                    SCALE == 10_000_000i64,
            ;
            lemma_round_bounds((SCALE as int - lat_frac as int) * (n as int), 2 * (n as int));
        }
        let row_i: i64 = round_scaled((SCALE - lat_frac) * n);
        proof {
            if lon_frac >= 0 {
                assert(0 <= (lon_frac as int) * (n as int) <= (n as int) * (SCALE as int))
                    by (nonlinear_arith)
                    requires
                        0 <= (lon_frac as int),
                        (lon_frac as int) < (SCALE as int),
                        0 <= n as int,
                ;
                lemma_round_bounds((lon_frac as int) * (n as int), n as int);
            } else {
                assert(0 <= -((lon_frac as int) * (n as int)) <= (n as int) * (SCALE as int))
                    by (nonlinear_arith)
                    requires
                        -(SCALE as int) < (lon_frac as int),
                        (lon_frac as int) < 0,
                        0 <= n as int,
                ;
                lemma_round_bounds(-((lon_frac as int) * (n as int)), n as int);
            }
        }
        let col_i: i64 = round_scaled(lon_frac * n);
        let row: usize = row_i as usize;
        let col: usize = if col_i < 0 {
            0
        } else {
            col_i as usize
        };
        proof {
            assert((row as int) * (res_size as int) + col as int <= 14400 * 7201 + 7200)
                by (nonlinear_arith)
                requires
                    0 <= row as int <= 14400,
                    0 <= col as int <= 7200,
                    0 <= res_size as int <= 7201,
            ;
        }
        let index = (row * res_size + col) * 2;
        if index >= expected {
            return Err(Error::IndexOutOfBounds);
        }
        let mut buffer: [u8; 2] = [0, 0];
        match self.data_reader.read_hgt_data(index as u64, &mut buffer) {
            Ok(_) => {},
            Err(e) => {
                return Err(e);
            },
        }
        let height = decode_be_i16(buffer[0], buffer[1]);
        if height == -32768 {
            Err(Error::InvalidData)
        } else {
            Ok(height)
        }
    }
}

/// For a coordinate whose fractional parts are non-negative — that
/// is, one whose truncation names the south-west corner of the cell
/// it lies in — the selected row and column never leave the grid, and
/// the computed byte offset always lies within the expected file
/// length, even exactly on the cell's edges.
pub proof fn law_index_within_bounds(c: Coord, res: Resolution)
    requires
        c.valid(),
        spec_lat_frac(c) >= 0,
        spec_lon_frac(c) >= 0,
    ensures
        0 <= spec_row(c, res) <= res.spec_point_per_degree() - 1,
        0 <= spec_col(c, res) <= res.spec_point_per_degree() - 1,
        spec_index(c, res) + 2 <= res.spec_expected_file_length(),
{
    let s = SCALE as int;
    let side = res.spec_point_per_degree();
    let n = side - 1;
    lemma_frac_bounds(c.lat as int, 90);
    lemma_frac_bounds(c.lon as int, 180);
    assert(0 <= (s - spec_lat_frac(c)) * n <= n * s) by (nonlinear_arith)
        requires
            0 < s - spec_lat_frac(c) <= s,
            0 <= n,
    ;
    lemma_round_bounds((s - spec_lat_frac(c)) * n, n);
    assert(0 <= spec_lon_frac(c) * n <= n * s) by (nonlinear_arith)
        requires
            0 <= spec_lon_frac(c) < s,
            0 <= n,
    ;
    lemma_round_bounds(spec_lon_frac(c) * n, n);
    assert(spec_row(c, res) * side + spec_col(c, res) <= n * side + n) by (nonlinear_arith)
        requires
            spec_row(c, res) <= n,
            spec_col(c, res) <= n,
            0 <= side,
    ;
    assert((n * side + n) * 2 == side * side * 2 - 2) by (nonlinear_arith)
        requires
            n == side - 1,
    ;
}

} // verus!
