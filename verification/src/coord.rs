use vstd::prelude::*;
use vstd::string::*;
use crate::error::{BragiError, ParamReason};

verus! {

/// Number of fixed-point units in one degree.
pub const UNITS_PER_DEGREE: i64 = 10_000_000;

/// Largest longitude, in units.
pub const MAX_LON: i64 = 1_800_000_000;

/// Largest latitude, in units.
pub const MAX_LAT: i64 = 900_000_000;

/// A position on the globe, longitude first, each angle in fixed-point units.
#[derive(Clone, Copy, Debug, PartialEq, Eq, Structural)]
pub struct Coord {
    pub lon: i32,
    pub lat: i32,
}

impl Coord {
    pub fn new(lon: i32, lat: i32) -> (c: Coord)
        ensures
            c.lon == lon,
            c.lat == lat,
    {
        Coord { lon, lat }
    }

    /// Whether both angles lie in the range of the globe.
    pub open spec fn is_valid(self) -> bool {
        -MAX_LON <= self.lon <= MAX_LON && -MAX_LAT <= self.lat <= MAX_LAT
    }
}

/// The position that two requested angles give: a latitude outside
/// [-90, 90] degrees is refused first, a longitude outside [-180, 180] next.
pub open spec fn coord_of(lon: i64, lat: i64) -> Result<Coord, BragiError> {
    if lat > MAX_LAT || lat < -MAX_LAT {
        Err(BragiError::InvalidParam(ParamReason::InvalidLatitude))
    } else if lon > MAX_LON || lon < -MAX_LON {
        Err(BragiError::InvalidParam(ParamReason::InvalidLongitude))
    } else {
        Ok(Coord { lon: lon as i32, lat: lat as i32 })
    }
}

/// Builds the position from two requested angles, if they lie on the globe.
pub fn make_coord(lon: i64, lat: i64) -> (r: Result<Coord, BragiError>)
    ensures
        r == coord_of(lon, lat),
        r is Ok ==> r->Ok_0.is_valid() && r->Ok_0.lon == lon && r->Ok_0.lat == lat,
{
    if lat > MAX_LAT || lat < -MAX_LAT {
        Err(BragiError::InvalidParam(ParamReason::InvalidLatitude))
    } else if lon > MAX_LON || lon < -MAX_LON {
        Err(BragiError::InvalidParam(ParamReason::InvalidLongitude))
    } else {
        Ok(Coord { lon: lon as i32, lat: lat as i32 })
    }
}

/// The character that writes a digit.
pub open spec fn digit_char(d: nat) -> char {
    if d == 0 {
        '0'
    } else if d == 1 {
        '1'
    } else if d == 2 {
        '2'
    } else if d == 3 {
        '3'
    } else if d == 4 {
        '4'
    } else if d == 5 {
        '5'
    } else if d == 6 {
        '6'
    } else if d == 7 {
        '7'
    } else if d == 8 {
        '8'
    } else {
        '9'
    }
}

/// A natural number in base ten, without leading zeros.
pub open spec fn digits(n: nat) -> Seq<char>
    decreases n,
{
    if n < 10 {
        seq![digit_char(n)]
    } else {
        digits(n / 10).push(digit_char(n % 10))
    }
}

/// The digits after the decimal point of `f / (10 * unit)`, without
/// trailing zeros; `unit` is the weight of the first digit.
pub open spec fn fraction(f: nat, unit: nat) -> Seq<char>
    decreases unit,
{
    if f == 0 || unit == 0 {
        Seq::empty()
    } else {
        seq![digit_char(f / unit)] + fraction(f % unit, unit / 10)
    }
}

/// An angle in degrees as a decimal number: a minus sign if negative, the
/// whole degrees, and the fractional digits behind a point if there are any.
pub open spec fn decimal(v: int) -> Seq<char> {
    let m: nat = if v < 0 {
        (-v) as nat
    } else {
        v as nat
    };
    let sign: Seq<char> = if v < 0 {
        seq!['-']
    } else {
        Seq::empty()
    };
    let f: nat = m % 10_000_000;
    let tail: Seq<char> = if f == 0 {
        Seq::empty()
    } else {
        seq!['.'] + fraction(f, 1_000_000)
    };
    sign + digits(m / 10_000_000) + tail
}

/// Whether `unit` is a power of ten.
pub open spec fn is_unit(unit: nat) -> bool
    decreases unit,
{
    unit == 1 || (unit >= 10 && unit % 10 == 0 && is_unit(unit / 10))
}

fn digit_str(d: u32) -> (r: &'static str)
    requires
        d < 10,
    ensures
        r@ == seq![digit_char(d as nat)],
{
    proof {
        reveal_strlit("0");
        reveal_strlit("1");
        reveal_strlit("2");
        reveal_strlit("3");
        reveal_strlit("4");
        reveal_strlit("5");
        reveal_strlit("6");
        reveal_strlit("7");
        reveal_strlit("8");
        reveal_strlit("9");
    }
    let r = if d == 0 {
        "0"
    } else if d == 1 {
        "1"
    } else if d == 2 {
        "2"
    } else if d == 3 {
        "3"
    } else if d == 4 {
        "4"
    } else if d == 5 {
        "5"
    } else if d == 6 {
        "6"
    } else if d == 7 {
        "7"
    } else if d == 8 {
        "8"
    } else {
        "9"
    };
    assert(r@ =~= seq![digit_char(d as nat)]);
    r
}

fn push_digits(n: u32, out: &mut String)
    ensures
        final(out)@ == old(out)@ + digits(n as nat),
    decreases n,
{
    if n >= 10 {
        push_digits(n / 10, out);
    }
    out.append(digit_str(n % 10));
    assert(final(out)@ =~= old(out)@ + digits(n as nat));
}

fn push_fraction(f: u32, unit: u32, out: &mut String)
    requires
        is_unit(unit as nat),
        f < 10 * unit,
        unit <= 1_000_000,
    ensures
        final(out)@ == old(out)@ + fraction(f as nat, unit as nat),
    decreases unit,
{
    if f != 0 {
        assert(f / unit < 10) by (nonlinear_arith)
            requires
                f < 10 * unit,
                unit >= 1,
        ;
        out.append(digit_str(f / unit));
        if unit >= 10 {
            push_fraction(f % unit, unit / 10, out);
        } else {
            assert(fraction((f % unit) as nat, (unit / 10) as nat) =~= Seq::<char>::empty());
        }
    }
    assert(final(out)@ =~= old(out)@ + fraction(f as nat, unit as nat));
}

/// Writes an angle as a decimal number of degrees.
pub fn degrees_text(v: i32) -> (r: String)
    ensures
        r@ == decimal(v as int),
{
    let mut out = String::new();
    let wide: i64 = v as i64;
    let m: u32 = if wide < 0 {
        (-wide) as u32
    } else {
        wide as u32
    };
    if v < 0 {
        out.append("-");
        proof {
            reveal_strlit("-");
            assert("-"@ =~= seq!['-']);
        }
    }
    push_digits(m / 10_000_000, &mut out);
    let f: u32 = m % 10_000_000;
    if f != 0 {
        out.append(".");
        proof {
            reveal_strlit(".");
            assert("."@ =~= seq!['.']);
            reveal_with_fuel(is_unit, 8);
            assert(is_unit(1_000_000));
        }
        push_fraction(f, 1_000_000, &mut out);
    }
    assert(out@ =~= decimal(v as int));
    out
}

} // verus!
