use vstd::math::abs;
use vstd::prelude::*;

verus! {

/// Number of fixed-point units per degree: coordinates are stored as
/// integers in units of one ten-millionth of a degree.
pub const SCALE: i64 = 10_000_000;

/// Represents geographic coordinates (latitude and longitude).
///
/// Latitude and longitude are stored as fixed-point integers in units
/// of one ten-millionth of a degree, so that every derived quantity is
/// exact. Latitude covers -90 to 90 degrees (north/south), longitude
/// -180 to 180 degrees (east/west). Every constructor of this crate
/// enforces those ranges.
#[derive(Clone, Copy, Debug, PartialEq, Eq, Structural, PartialOrd, Default)]
pub struct Coord {
    /// Geographic latitude (north/south) in ten-millionths of a degree.
    pub lat: i64,
    /// Geographic longitude (east/west) in ten-millionths of a degree.
    pub lon: i64,
}

/// Truncation toward zero of a fixed-point value to whole degrees,
/// so that -0.5 degrees truncates to 0, not -1.
pub open spec fn trunc_deg(v: int) -> int {
    if v >= 0 {
        v / (SCALE as int)
    } else {
        -((-v) / (SCALE as int))
    }
}

/// The characters a tile filename is made of: the four compass
/// letters, the decimal digits and the ".hgt" suffix. All of them
/// occupy a single byte.
pub open spec fn filename_char(c: char) -> bool {
    ||| c == 'N'
    ||| c == 'S'
    ||| c == 'E'
    ||| c == 'W'
    ||| c == '.'
    ||| c == 'h'
    ||| c == 'g'
    ||| c == 't'
    ||| ('0' <= c && c <= '9')
}

/// The decimal digit character for a value between 0 and 9.
pub open spec fn digit_char(d: int) -> char {
    if d == 0 {
        '0'
    } else if d == 1 {
        '1'
    } else if d == 2 {
        '2'
    } else if d == 3 {
        '3'
    } else if d == 4 {
        '4'
    } else if d == 5 {
        '5'
    } else if d == 6 {
        '6'
    } else if d == 7 {
        '7'
    } else if d == 8 {
        '8'
    } else {
        '9'
    }
}

/// The character sequence a heapless string holds.
pub uninterp spec fn filename_chars(s: heapless::String<12>) -> Seq<char>;

#[verifier::external_type_specification]
#[verifier::external_body]
pub struct ExHeaplessString<const N: usize>(heapless::String<N>);

/// Relies on heapless::String::new: constructs an empty string.
#[verifier::external_body]
pub(crate) fn filename_new() -> (s: heapless::String<12>)
    ensures
        filename_chars(s) == Seq::<char>::empty(),
{
    heapless::String::new()
}

/// Relies on heapless::String::push: appending a character succeeds
/// whenever enough of the byte capacity is free; the characters used
/// here occupy one byte each, so a string made only of them holds as
/// many bytes as characters.
#[verifier::external_body]
pub(crate) fn filename_push(s: &mut heapless::String<12>, c: char)
    requires
        filename_chars(*old(s)).len() < 12,
        forall|i: int|
            0 <= i < filename_chars(*old(s)).len() ==> filename_char(
                #[trigger] filename_chars(*old(s))[i],
            ),
        filename_char(c),
    ensures
        filename_chars(*final(s)) == filename_chars(*old(s)).push(c),
{
    let _ = s.push(c);
}

/// Relies on heapless::String::as_str: views the stored bytes as the
/// character sequence they encode.
#[verifier::external_body]
pub(crate) fn filename_as_str(s: &heapless::String<12>) -> (r: &str)
    ensures
        r@ == filename_chars(*s),
{
    s.as_str()
}

/// The decimal digit character in position `pos` (units, tens,
/// hundreds, ...) of a non-negative value.
pub open spec fn spec_digit_at(v: int, pow: int) -> char {
    digit_char((v / pow) % 10)
}

impl Coord {
    /// Both fields lie within the geographic ranges.
    pub open spec fn valid(self) -> bool {
        &&& -90 * SCALE <= self.lat <= 90 * SCALE
        &&& -180 * SCALE <= self.lon <= 180 * SCALE
    }

    /// The latitude truncated toward zero to whole degrees.
    pub open spec fn spec_lat_trunc(self) -> int {
        trunc_deg(self.lat as int)
    }

    /// The longitude truncated toward zero to whole degrees.
    pub open spec fn spec_lon_trunc(self) -> int {
        trunc_deg(self.lon as int)
    }

    /// The canonical tile filename: a compass letter and the
    /// zero-padded absolute truncated latitude (2 digits), a compass
    /// letter and the zero-padded absolute truncated longitude
    /// (3 digits), then the ".hgt" suffix.
    pub open spec fn spec_filename(self) -> Seq<char> {
        let la = abs(self.spec_lat_trunc()) as int;
        let lo = abs(self.spec_lon_trunc()) as int;
        seq![
            if self.lat >= 0 { 'N' } else { 'S' },
            spec_digit_at(la, 10),
            spec_digit_at(la, 1),
            if self.lon >= 0 { 'E' } else { 'W' },
            spec_digit_at(lo, 100),
            spec_digit_at(lo, 10),
            spec_digit_at(lo, 1),
            '.', 'h', 'g', 't',
        ]
    }

    /// Creates a new `Coord` if the values are valid.
    ///
    /// Returns `Some` exactly when the latitude lies in -90 to 90
    /// degrees and the longitude in -180 to 180 degrees, in
    /// ten-millionths of a degree; otherwise `None`.
    pub fn opt_new(lat: i64, lon: i64) -> (r: Option<Coord>)
        ensures
            r is Some <==> (-90 * SCALE <= lat <= 90 * SCALE && -180 * SCALE <= lon <= 180
                * SCALE),
            r matches Some(c) ==> c == (Coord { lat, lon }) && c.valid(),
    {
        if -90 * SCALE <= lat && lat <= 90 * SCALE && -180 * SCALE <= lon && lon <= 180 * SCALE {
            Some(Coord { lat, lon })
        } else {
            None
        }
    }

    /// Creates a new `Coord` and enforces valid values.
    ///
    /// Callers must have validated the ranges already; both values are
    /// in ten-millionths of a degree.
    pub fn new(lat: i64, lon: i64) -> (r: Coord)
        requires
            -90 * SCALE <= lat <= 90 * SCALE,
            -180 * SCALE <= lon <= 180 * SCALE,
        ensures
            r == (Coord { lat, lon }),
            r.valid(),
    {
        Coord { lat, lon }
    }

    /// Truncates latitude and longitude toward zero to whole degrees.
    /// Returns: (truncated latitude as i8, truncated longitude as i16)
    pub fn trunc(&self) -> (r: (i8, i16))
        requires
            self.valid(),
        ensures
            r.0 as int == self.spec_lat_trunc(),
            r.1 as int == self.spec_lon_trunc(),
    {
        proof {
            lemma_trunc_deg_bound(self.lat as int, 90);
            lemma_trunc_deg_bound(self.lon as int, 180);
        }
        let lat_trunc: i64 = if self.lat >= 0 {
            self.lat / SCALE
        } else {
            -((-self.lat) / SCALE)
        };
        let lon_trunc: i64 = if self.lon >= 0 {
            self.lon / SCALE
        } else {
            -((-self.lon) / SCALE)
        };
        (lat_trunc as i8, lon_trunc as i16)
    }

    /// Returns the filename of the SRTM elevation file covering this
    /// point, for example "N49E008.hgt".
    pub fn get_filename(self) -> (r: heapless::String<12>)
        requires
            self.valid(),
        ensures
            filename_chars(r) == self.spec_filename(),
    {
        proof {
            lemma_trunc_deg_bound(self.lat as int, 90);
            lemma_trunc_deg_bound(self.lon as int, 180);
        }
        let lat_ch = if self.lat >= 0 {
            'N'
        } else {
            'S'
        };
        let lon_ch = if self.lon >= 0 {
            'E'
        } else {
            'W'
        };
        let (lat_t, lon_t) = self.trunc();
        let la: i64 = if lat_t >= 0 {
            lat_t as i64
        } else {
            -(lat_t as i64)
        };
        let lo: i64 = if lon_t >= 0 {
            lon_t as i64
        } else {
            -(lon_t as i64)
        };
        let mut out = filename_new();
        filename_push(&mut out, lat_ch);
        filename_push(&mut out, digit_to_char(la / 10));
        filename_push(&mut out, digit_to_char(la % 10));
        filename_push(&mut out, lon_ch);
        filename_push(&mut out, digit_to_char(lo / 100));
        filename_push(&mut out, digit_to_char((lo / 10) % 10));
        filename_push(&mut out, digit_to_char(lo % 10));
        filename_push(&mut out, '.');
        filename_push(&mut out, 'h');
        filename_push(&mut out, 'g');
        filename_push(&mut out, 't');
        proof {
            assert(la == abs(self.spec_lat_trunc()));
            assert(lo == abs(self.spec_lon_trunc()));
            assert((la / 10) % 10 == la / 10);
            assert((lo / 100) % 10 == lo / 100);
            assert(filename_chars(out) =~= self.spec_filename());
        }
        out
    }
}

/// The decimal digit character for a value between 0 and 9.
fn digit_to_char(d: i64) -> (c: char)
    requires
        0 <= d < 10,
    ensures
        c == digit_char(d as int),
        filename_char(c),
{
    match d {
        0 => '0',
        1 => '1',
        2 => '2',
        3 => '3',
        4 => '4',
        5 => '5',
        6 => '6',
        7 => '7',
        8 => '8',
        _ => '9',
    }
}

/// Every valid coordinate yields a filename of the canonical shape: a
/// north/south letter chosen by the sign of the latitude, two latitude
/// digits, an east/west letter chosen by the sign of the longitude,
/// three longitude digits, and the ".hgt" suffix.
pub proof fn law_filename_format(c: Coord)
    requires
        c.valid(),
    ensures
        c.spec_filename().len() == 11,
        c.spec_filename()[0] == (if c.lat >= 0 { 'N' } else { 'S' }),
        c.spec_filename()[3] == (if c.lon >= 0 { 'E' } else { 'W' }),
        forall|i: int|
            i == 1 || i == 2 || i == 4 || i == 5 || i == 6 ==> '0' <= #[trigger] c.spec_filename()[i]
                && c.spec_filename()[i] <= '9',
        c.spec_filename()[7] == '.',
        c.spec_filename()[8] == 'h',
        c.spec_filename()[9] == 'g',
        c.spec_filename()[10] == 't',
{
}

/// A value within `d` whole degrees truncates to within `d` degrees.
pub proof fn lemma_trunc_deg_bound(v: int, d: int)
    requires
        0 <= d,
        -d * SCALE <= v <= d * SCALE,
    ensures
        -d <= trunc_deg(v) <= d,
        v >= 0 ==> trunc_deg(v) == v / (SCALE as int),
{
    if v >= 0 {
        assert(v / (SCALE as int) <= d) by (nonlinear_arith)
            requires
                0 <= v <= d * SCALE,
                0 <= d,
        ;
        assert(v / (SCALE as int) >= 0) by (nonlinear_arith)
            requires
                v >= 0,
        ;
    } else {
        assert((-v) / (SCALE as int) <= d) by (nonlinear_arith)
            requires
                0 <= -v <= d * SCALE,
                0 <= d,
        ;
        assert((-v) / (SCALE as int) >= 0) by (nonlinear_arith)
            requires
                -v >= 0,
        ;
    }
}

} // verus!
