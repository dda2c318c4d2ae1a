//! The parameters of a state, and the formats of an epoch, as headers name them.

use crate::errors::NyxError;
use crate::text::{decimal, index_text, lowercase, text_is, to_lower};
use crate::time::Epoch;
use vstd::prelude::*;

verus! {

/// A parameter of the state of an orbit or of a spacecraft.
#[derive(Clone, Copy, Debug, PartialEq, Eq, Structural)]
pub enum StateParameter {
    /// Argument of latitude (deg)
    AoL,
    /// Argument of periapsis (deg)
    AoP,
    /// Apoapsis: the true anomaly of 180 degrees
    Apoapsis,
    /// Radius of apoapsis (km)
    ApoapsisRadius,
    /// Characteristic energy (km^2/s^2)
    C3,
    /// Coefficient of drag
    Cd,
    /// Coefficient of reflectivity
    Cr,
    /// Declination (deg)
    Declination,
    /// Eccentric anomaly (deg)
    EccentricAnomaly,
    /// Eccentricity
    Eccentricity,
    /// Specific energy
    Energy,
    /// The epoch of the state
    Epoch,
    /// Flight path angle (deg)
    FlightPathAngle,
    /// Fuel mass (kg)
    FuelMass,
    /// Geodetic height (km)
    GeodeticHeight,
    /// Geodetic latitude (deg)
    GeodeticLatitude,
    /// Geodetic longitude (deg)
    GeodeticLongitude,
    /// Orbital momentum
    Hmag,
    /// X component of the orbital momentum vector
    HX,
    /// Y component of the orbital momentum vector
    HY,
    /// Z component of the orbital momentum vector
    HZ,
    /// Hyperbolic anomaly (deg)
    HyperbolicAnomaly,
    /// Inclination (deg)
    Inclination,
    /// Mean anomaly (deg)
    MeanAnomaly,
    /// Periapsis: the true anomaly of 0 degrees
    Periapsis,
    /// Radius of periapsis (km)
    PeriapsisRadius,
    /// Orbital period (s)
    Period,
    /// Right ascension (deg)
    RightAscension,
    /// Right ascension of the ascending node (deg)
    RAAN,
    /// Norm of the radius vector (km)
    Rmag,
    /// Semi parameter (km)
    SemiParameter,
    /// Semi minor axis (km)
    SemiMinorAxis,
    /// Semi major axis (km)
    SMA,
    /// True anomaly (deg)
    TrueAnomaly,
    /// True longitude (deg)
    TrueLongitude,
    /// Declination of the velocity vector (deg)
    VelocityDeclination,
    /// Norm of the velocity vector (km/s)
    Vmag,
    /// X component of the position (km)
    X,
    /// Y component of the position (km)
    Y,
    /// Z component of the position (km)
    Z,
    /// X component of the velocity (km/s)
    VX,
    /// Y component of the velocity (km/s)
    VY,
    /// Z component of the velocity (km/s)
    VZ,
    /// A parameter of the caller's own, known by its number
    Custom { mapping: usize },
}

/// The unit in which headers give a parameter.
#[derive(Clone, Copy, Debug, PartialEq, Eq, Structural)]
pub enum HeaderUnit {
    Kilometers,
    KilometersPerSecond,
    Degrees,
    Unitless,
}

impl StateParameter {
    /// The name of the parameter, as it is written in the source.
    pub open spec fn spec_name(self) -> Seq<char> {
        match self {
            StateParameter::AoL => "AoL"@,
            StateParameter::AoP => "AoP"@,
            StateParameter::Apoapsis => "Apoapsis"@,
            StateParameter::ApoapsisRadius => "ApoapsisRadius"@,
            StateParameter::C3 => "C3"@,
            StateParameter::Cd => "Cd"@,
            StateParameter::Cr => "Cr"@,
            StateParameter::Declination => "Declination"@,
            StateParameter::EccentricAnomaly => "EccentricAnomaly"@,
            StateParameter::Eccentricity => "Eccentricity"@,
            StateParameter::Energy => "Energy"@,
            StateParameter::Epoch => "Epoch"@,
            StateParameter::FlightPathAngle => "FlightPathAngle"@,
            StateParameter::FuelMass => "FuelMass"@,
            StateParameter::GeodeticHeight => "GeodeticHeight"@,
            StateParameter::GeodeticLatitude => "GeodeticLatitude"@,
            StateParameter::GeodeticLongitude => "GeodeticLongitude"@,
            StateParameter::Hmag => "Hmag"@,
            StateParameter::HX => "HX"@,
            StateParameter::HY => "HY"@,
            StateParameter::HZ => "HZ"@,
            StateParameter::HyperbolicAnomaly => "HyperbolicAnomaly"@,
            StateParameter::Inclination => "Inclination"@,
            StateParameter::MeanAnomaly => "MeanAnomaly"@,
            StateParameter::Periapsis => "Periapsis"@,
            StateParameter::PeriapsisRadius => "PeriapsisRadius"@,
            StateParameter::Period => "Period"@,
            StateParameter::RightAscension => "RightAscension"@,
            StateParameter::RAAN => "RAAN"@,
            StateParameter::Rmag => "Rmag"@,
            StateParameter::SemiParameter => "SemiParameter"@,
            StateParameter::SemiMinorAxis => "SemiMinorAxis"@,
            StateParameter::SMA => "SMA"@,
            StateParameter::TrueAnomaly => "TrueAnomaly"@,
            StateParameter::TrueLongitude => "TrueLongitude"@,
            StateParameter::VelocityDeclination => "VelocityDeclination"@,
            StateParameter::Vmag => "Vmag"@,
            StateParameter::X => "X"@,
            StateParameter::Y => "Y"@,
            StateParameter::Z => "Z"@,
            StateParameter::VX => "VX"@,
            StateParameter::VY => "VY"@,
            StateParameter::VZ => "VZ"@,
            StateParameter::Custom { mapping } => "Custom { mapping: "@ + decimal(mapping as nat)
                + " }"@,
        }
    }

    /// The unit in which headers give the parameter.
    pub open spec fn spec_unit(self) -> HeaderUnit {
        match self {
            StateParameter::X
            | StateParameter::Y
            | StateParameter::Z
            | StateParameter::ApoapsisRadius
            | StateParameter::PeriapsisRadius
            | StateParameter::GeodeticHeight
            | StateParameter::SemiMinorAxis
            | StateParameter::SemiParameter
            | StateParameter::SMA
            | StateParameter::Rmag => HeaderUnit::Kilometers,
            StateParameter::VX
            | StateParameter::VY
            | StateParameter::VZ
            | StateParameter::Vmag => HeaderUnit::KilometersPerSecond,
            StateParameter::AoL
            | StateParameter::AoP
            | StateParameter::Declination
            | StateParameter::EccentricAnomaly
            | StateParameter::GeodeticLatitude
            | StateParameter::GeodeticLongitude
            | StateParameter::Inclination
            | StateParameter::MeanAnomaly
            | StateParameter::RightAscension
            | StateParameter::RAAN
            | StateParameter::TrueAnomaly
            | StateParameter::TrueLongitude => HeaderUnit::Degrees,
            _ => HeaderUnit::Unitless,
        }
    }

    /// The parameter that a header names by the text `keyword`, which is in lower
    /// case.
    pub open spec fn named(keyword: Seq<char>) -> Option<StateParameter> {
        if keyword == "apoapsis"@ {
            Some(StateParameter::Apoapsis)
        } else if keyword == "periapsis"@ {
            Some(StateParameter::Periapsis)
        } else if keyword == "aol"@ {
            Some(StateParameter::AoL)
        } else if keyword == "aop"@ {
            Some(StateParameter::AoP)
        } else if keyword == "declin"@ {
            Some(StateParameter::Declination)
        } else if keyword == "apoapsis_radius"@ {
            Some(StateParameter::ApoapsisRadius)
        } else if keyword == "ea"@ {
            Some(StateParameter::EccentricAnomaly)
        } else if keyword == "ecc"@ {
            Some(StateParameter::Eccentricity)
        } else if keyword == "energy"@ {
            Some(StateParameter::Energy)
        } else if keyword == "fuel_mass"@ {
            Some(StateParameter::FuelMass)
        } else if keyword == "geodetic_height"@ {
            Some(StateParameter::GeodeticHeight)
        } else if keyword == "geodetic_latitude"@ {
            Some(StateParameter::GeodeticLatitude)
        } else if keyword == "geodetic_longitude"@ {
            Some(StateParameter::GeodeticLongitude)
        } else if keyword == "hmag"@ {
            Some(StateParameter::Hmag)
        } else if keyword == "hx"@ {
            Some(StateParameter::HX)
        } else if keyword == "hy"@ {
            Some(StateParameter::HY)
        } else if keyword == "hz"@ {
            Some(StateParameter::HZ)
        } else if keyword == "inc"@ {
            Some(StateParameter::Inclination)
        } else if keyword == "ma"@ {
            Some(StateParameter::MeanAnomaly)
        } else if keyword == "periapsis_radius"@ {
            Some(StateParameter::PeriapsisRadius)
        } else if keyword == "period"@ {
            Some(StateParameter::Period)
        } else if keyword == "right_asc"@ {
            Some(StateParameter::RightAscension)
        } else if keyword == "raan"@ {
            Some(StateParameter::RAAN)
        } else if keyword == "rmag"@ {
            Some(StateParameter::Rmag)
        } else if keyword == "semi_parameter"@ {
            Some(StateParameter::SemiParameter)
        } else if keyword == "semi_minor"@ {
            Some(StateParameter::SemiMinorAxis)
        } else if keyword == "sma"@ {
            Some(StateParameter::SMA)
        } else if keyword == "ta"@ {
            Some(StateParameter::TrueAnomaly)
        } else if keyword == "tlong"@ {
            Some(StateParameter::TrueLongitude)
        } else if keyword == "vmag"@ {
            Some(StateParameter::Vmag)
        } else if keyword == "x"@ {
            Some(StateParameter::X)
        } else if keyword == "y"@ {
            Some(StateParameter::Y)
        } else if keyword == "z"@ {
            Some(StateParameter::Z)
        } else if keyword == "vx"@ {
            Some(StateParameter::VX)
        } else if keyword == "vy"@ {
            Some(StateParameter::VY)
        } else if keyword == "vz"@ {
            Some(StateParameter::VZ)
        } else {
            None
        }
    }

    /// The name of the parameter, as it is written in the source.
    pub fn name(&self) -> (r: String)
        ensures
            r@ == self.spec_name(),
    {
        match self {
            StateParameter::AoL => String::from_str("AoL"),
            StateParameter::AoP => String::from_str("AoP"),
            StateParameter::Apoapsis => String::from_str("Apoapsis"),
            StateParameter::ApoapsisRadius => String::from_str("ApoapsisRadius"),
            StateParameter::C3 => String::from_str("C3"),
            StateParameter::Cd => String::from_str("Cd"),
            StateParameter::Cr => String::from_str("Cr"),
            StateParameter::Declination => String::from_str("Declination"),
            StateParameter::EccentricAnomaly => String::from_str("EccentricAnomaly"),
            StateParameter::Eccentricity => String::from_str("Eccentricity"),
            StateParameter::Energy => String::from_str("Energy"),
            StateParameter::Epoch => String::from_str("Epoch"),
            StateParameter::FlightPathAngle => String::from_str("FlightPathAngle"),
            StateParameter::FuelMass => String::from_str("FuelMass"),
            StateParameter::GeodeticHeight => String::from_str("GeodeticHeight"),
            StateParameter::GeodeticLatitude => String::from_str("GeodeticLatitude"),
            StateParameter::GeodeticLongitude => String::from_str("GeodeticLongitude"),
            StateParameter::Hmag => String::from_str("Hmag"),
            StateParameter::HX => String::from_str("HX"),
            StateParameter::HY => String::from_str("HY"),
            StateParameter::HZ => String::from_str("HZ"),
            StateParameter::HyperbolicAnomaly => String::from_str("HyperbolicAnomaly"),
            StateParameter::Inclination => String::from_str("Inclination"),
            StateParameter::MeanAnomaly => String::from_str("MeanAnomaly"),
            StateParameter::Periapsis => String::from_str("Periapsis"),
            StateParameter::PeriapsisRadius => String::from_str("PeriapsisRadius"),
            StateParameter::Period => String::from_str("Period"),
            StateParameter::RightAscension => String::from_str("RightAscension"),
            StateParameter::RAAN => String::from_str("RAAN"),
            StateParameter::Rmag => String::from_str("Rmag"),
            StateParameter::SemiParameter => String::from_str("SemiParameter"),
            StateParameter::SemiMinorAxis => String::from_str("SemiMinorAxis"),
            StateParameter::SMA => String::from_str("SMA"),
            StateParameter::TrueAnomaly => String::from_str("TrueAnomaly"),
            StateParameter::TrueLongitude => String::from_str("TrueLongitude"),
            StateParameter::VelocityDeclination => String::from_str("VelocityDeclination"),
            StateParameter::Vmag => String::from_str("Vmag"),
            StateParameter::X => String::from_str("X"),
            StateParameter::Y => String::from_str("Y"),
            StateParameter::Z => String::from_str("Z"),
            StateParameter::VX => String::from_str("VX"),
            StateParameter::VY => String::from_str("VY"),
            StateParameter::VZ => String::from_str("VZ"),
            StateParameter::Custom { mapping } => {
                let number = index_text(*mapping);
                String::from_str("Custom { mapping: ").concat(number.as_str()).concat(" }")
            },
        }
    }

    /// The unit in which headers give the parameter.
    pub fn unit(&self) -> (r: HeaderUnit)
        ensures
            r == self.spec_unit(),
    {
        match self {
            StateParameter::X
            | StateParameter::Y
            | StateParameter::Z
            | StateParameter::ApoapsisRadius
            | StateParameter::PeriapsisRadius
            | StateParameter::GeodeticHeight
            | StateParameter::SemiMinorAxis
            | StateParameter::SemiParameter
            | StateParameter::SMA
            | StateParameter::Rmag => HeaderUnit::Kilometers,
            StateParameter::VX
            | StateParameter::VY
            | StateParameter::VZ
            | StateParameter::Vmag => HeaderUnit::KilometersPerSecond,
            StateParameter::AoL
            | StateParameter::AoP
            | StateParameter::Declination
            | StateParameter::EccentricAnomaly
            | StateParameter::GeodeticLatitude
            | StateParameter::GeodeticLongitude
            | StateParameter::Inclination
            | StateParameter::MeanAnomaly
            | StateParameter::RightAscension
            | StateParameter::RAAN
            | StateParameter::TrueAnomaly
            | StateParameter::TrueLongitude => HeaderUnit::Degrees,
            _ => HeaderUnit::Unitless,
        }
    }

    /// The parameter that a header names by `keyword`, which is in lower case;
    /// `None` where it names none.
    pub fn from_keyword(keyword: &str) -> (r: Option<StateParameter>)
        ensures
            r == StateParameter::named(keyword@),
    {
        if text_is(keyword, "apoapsis") {
            Some(StateParameter::Apoapsis)
        } else if text_is(keyword, "periapsis") {
            Some(StateParameter::Periapsis)
        } else if text_is(keyword, "aol") {
            Some(StateParameter::AoL)
        } else if text_is(keyword, "aop") {
            Some(StateParameter::AoP)
        } else if text_is(keyword, "declin") {
            Some(StateParameter::Declination)
        } else if text_is(keyword, "apoapsis_radius") {
            Some(StateParameter::ApoapsisRadius)
        } else if text_is(keyword, "ea") {
            Some(StateParameter::EccentricAnomaly)
        } else if text_is(keyword, "ecc") {
            Some(StateParameter::Eccentricity)
        } else if text_is(keyword, "energy") {
            Some(StateParameter::Energy)
        } else if text_is(keyword, "fuel_mass") {
            Some(StateParameter::FuelMass)
        } else if text_is(keyword, "geodetic_height") {
            Some(StateParameter::GeodeticHeight)
        } else if text_is(keyword, "geodetic_latitude") {
            Some(StateParameter::GeodeticLatitude)
        } else if text_is(keyword, "geodetic_longitude") {
            Some(StateParameter::GeodeticLongitude)
        } else if text_is(keyword, "hmag") {
            Some(StateParameter::Hmag)
        } else if text_is(keyword, "hx") {
            Some(StateParameter::HX)
        } else if text_is(keyword, "hy") {
            Some(StateParameter::HY)
        } else if text_is(keyword, "hz") {
            Some(StateParameter::HZ)
        } else if text_is(keyword, "inc") {
            Some(StateParameter::Inclination)
        } else if text_is(keyword, "ma") {
            Some(StateParameter::MeanAnomaly)
        } else if text_is(keyword, "periapsis_radius") {
            Some(StateParameter::PeriapsisRadius)
        } else if text_is(keyword, "period") {
            Some(StateParameter::Period)
        } else if text_is(keyword, "right_asc") {
            Some(StateParameter::RightAscension)
        } else if text_is(keyword, "raan") {
            Some(StateParameter::RAAN)
        } else if text_is(keyword, "rmag") {
            Some(StateParameter::Rmag)
        } else if text_is(keyword, "semi_parameter") {
            Some(StateParameter::SemiParameter)
        } else if text_is(keyword, "semi_minor") {
            Some(StateParameter::SemiMinorAxis)
        } else if text_is(keyword, "sma") {
            Some(StateParameter::SMA)
        } else if text_is(keyword, "ta") {
            Some(StateParameter::TrueAnomaly)
        } else if text_is(keyword, "tlong") {
            Some(StateParameter::TrueLongitude)
        } else if text_is(keyword, "vmag") {
            Some(StateParameter::Vmag)
        } else if text_is(keyword, "x") {
            Some(StateParameter::X)
        } else if text_is(keyword, "y") {
            Some(StateParameter::Y)
        } else if text_is(keyword, "z") {
            Some(StateParameter::Z)
        } else if text_is(keyword, "vx") {
            Some(StateParameter::VX)
        } else if text_is(keyword, "vy") {
            Some(StateParameter::VY)
        } else if text_is(keyword, "vz") {
            Some(StateParameter::VZ)
        } else {
            None
        }
    }

    /// The parameter that a header names by `s`, in upper or lower case; the error
    /// of loading where it names none.
    pub fn from_str(s: &str) -> (r: Result<StateParameter, NyxError>)
        ensures
            r is Ok <==> StateParameter::named(lowercase(s@)) is Some,
            r matches Ok(p) ==> StateParameter::named(lowercase(s@)) == Some(p),
            r matches Err(e) ==> e matches NyxError::LoadingError(what) && what@ == s@,
    {
        let keyword = to_lower(s);
        match StateParameter::from_keyword(keyword.as_str()) {
            Some(p) => Ok(p),
            None => Err(NyxError::LoadingError(s.to_owned())),
        }
    }
}

/// The interpolated parameters of an orbit: its position, of which the velocity
/// is the derivative.
pub fn orbit_params() -> (r: Vec<StateParameter>)
    ensures
        r@ == seq![StateParameter::X, StateParameter::Y, StateParameter::Z],
{
    let mut r = Vec::new();
    r.push(StateParameter::X);
    r.push(StateParameter::Y);
    r.push(StateParameter::Z);
    assert(r@ =~= seq![StateParameter::X, StateParameter::Y, StateParameter::Z]);
    r
}

/// The interpolated parameters of a spacecraft: its position and its fuel mass.
pub fn spacecraft_params() -> (r: Vec<StateParameter>)
    ensures
        r@ == seq![
            StateParameter::X,
            StateParameter::Y,
            StateParameter::Z,
            StateParameter::FuelMass,
        ],
{
    let mut r = Vec::new();
    r.push(StateParameter::X);
    r.push(StateParameter::Y);
    r.push(StateParameter::Z);
    r.push(StateParameter::FuelMass);
    assert(r@ =~= seq![
        StateParameter::X,
        StateParameter::Y,
        StateParameter::Z,
        StateParameter::FuelMass,
    ]);
    r
}

/// The format in which an epoch is written.
#[derive(Clone, Copy, Debug, PartialEq, Eq, Structural)]
pub enum EpochFormat {
    /// The Gregorian date and time in UTC
    GregorianUtc,
    /// The Gregorian date and time in TAI
    GregorianTai,
    /// The modified Julian day in TAI
    MjdTai,
    /// The modified Julian day in TT
    MjdTt,
    /// The modified Julian day in UTC
    MjdUtc,
    /// The Julian day in ET
    JdeEt,
    /// The Julian day in TAI
    JdeTai,
    /// The Julian day in TT
    JdeTt,
    /// The Julian day in UTC
    JdeUtc,
    /// The seconds past the given epoch
    TaiSecs(Epoch),
    /// The days past the given epoch
    TaiDays(Epoch),
}

impl EpochFormat {
    /// The name of the format, as it is written in the source.
    pub open spec fn spec_name(self) -> Seq<char> {
        match self {
            EpochFormat::GregorianUtc => "GregorianUtc"@,
            EpochFormat::GregorianTai => "GregorianTai"@,
            EpochFormat::MjdTai => "MjdTai"@,
            EpochFormat::MjdTt => "MjdTt"@,
            EpochFormat::MjdUtc => "MjdUtc"@,
            EpochFormat::JdeEt => "JdeEt"@,
            EpochFormat::JdeTai => "JdeTai"@,
            EpochFormat::JdeTt => "JdeTt"@,
            EpochFormat::JdeUtc => "JdeUtc"@,
            EpochFormat::TaiSecs(_) => "TaiSecs"@,
            EpochFormat::TaiDays(_) => "TaiDays"@,
        }
    }

    /// The format that a header names by the text `keyword`, which is in lower case.
    pub open spec fn named(keyword: Seq<char>) -> Option<EpochFormat> {
        if keyword == "gregorianutc"@ {
            Some(EpochFormat::GregorianUtc)
        } else if keyword == "gregoriantai"@ {
            Some(EpochFormat::GregorianTai)
        } else if keyword == "mjdtai"@ {
            Some(EpochFormat::MjdTai)
        } else if keyword == "mjdtt"@ {
            Some(EpochFormat::MjdTt)
        } else if keyword == "mjdutc"@ {
            Some(EpochFormat::MjdUtc)
        } else if keyword == "jdeet"@ {
            Some(EpochFormat::JdeEt)
        } else if keyword == "jdetai"@ {
            Some(EpochFormat::JdeTai)
        } else if keyword == "jdett"@ {
            Some(EpochFormat::JdeTt)
        } else if keyword == "jdeutc"@ {
            Some(EpochFormat::JdeUtc)
        } else {
            None
        }
    }

    /// The name of the format, as it is written in the source.
    pub fn name(&self) -> (r: String)
        ensures
            r@ == self.spec_name(),
    {
        match self {
            EpochFormat::GregorianUtc => String::from_str("GregorianUtc"),
            EpochFormat::GregorianTai => String::from_str("GregorianTai"),
            EpochFormat::MjdTai => String::from_str("MjdTai"),
            EpochFormat::MjdTt => String::from_str("MjdTt"),
            EpochFormat::MjdUtc => String::from_str("MjdUtc"),
            EpochFormat::JdeEt => String::from_str("JdeEt"),
            EpochFormat::JdeTai => String::from_str("JdeTai"),
            EpochFormat::JdeTt => String::from_str("JdeTt"),
            EpochFormat::JdeUtc => String::from_str("JdeUtc"),
            EpochFormat::TaiSecs(_) => String::from_str("TaiSecs"),
            EpochFormat::TaiDays(_) => String::from_str("TaiDays"),
        }
    }

    /// The format that a header names by `keyword`, which is in lower case; `None`
    /// where it names none.
    pub fn from_keyword(keyword: &str) -> (r: Option<EpochFormat>)
        ensures
            r == EpochFormat::named(keyword@),
    {
        if text_is(keyword, "gregorianutc") {
            Some(EpochFormat::GregorianUtc)
        } else if text_is(keyword, "gregoriantai") {
            Some(EpochFormat::GregorianTai)
        } else if text_is(keyword, "mjdtai") {
            Some(EpochFormat::MjdTai)
        } else if text_is(keyword, "mjdtt") {
            Some(EpochFormat::MjdTt)
        } else if text_is(keyword, "mjdutc") {
            Some(EpochFormat::MjdUtc)
        } else if text_is(keyword, "jdeet") {
            Some(EpochFormat::JdeEt)
        } else if text_is(keyword, "jdetai") {
            Some(EpochFormat::JdeTai)
        } else if text_is(keyword, "jdett") {
            Some(EpochFormat::JdeTt)
        } else if text_is(keyword, "jdeutc") {
            Some(EpochFormat::JdeUtc)
        } else {
            None
        }
    }

    /// The format that a header names by `s`, in upper or lower case; the error of
    /// loading where it names none.
    pub fn from_str(s: &str) -> (r: Result<EpochFormat, NyxError>)
        ensures
            r is Ok <==> EpochFormat::named(lowercase(s@)) is Some,
            r matches Ok(f) ==> EpochFormat::named(lowercase(s@)) == Some(f),
            r matches Err(e) ==> e matches NyxError::LoadingError(what) && what@ == s@,
    {
        let keyword = to_lower(s);
        match EpochFormat::from_keyword(keyword.as_str()) {
            Some(f) => Ok(f),
            None => Err(NyxError::LoadingError(s.to_owned())),
        }
    }
}

} // verus!
