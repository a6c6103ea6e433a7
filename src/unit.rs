//! Physical units, resolved from the DLMS unit codes carried by list entries.
use vstd::prelude::*;

verus! {

/// A physical unit of a measured value.
#[derive(Clone, Copy, Debug, PartialEq, Eq, Structural)]
pub enum Unit {
    /// degree Celsius (code 9)
    DegreeCelsius,
    /// watt (code 27)
    Watt,
    /// volt-ampere (code 28)
    VoltAmpere,
    /// var (code 29)
    Var,
    /// watt-hour (code 30)
    WattHour,
    /// volt-ampere-hour (code 31)
    VoltAmpereHour,
    /// var-hour (code 32)
    VarHour,
    /// ampere (code 33)
    Ampere,
    /// volt (code 35)
    Volt,
    /// hertz (code 44)
    Hertz,
    /// a count without a physical unit (code 255)
    Unitless,
}

/// The unit named by a raw unit code, or `None` for a code outside the table.
pub open spec fn unit_of_code(code: u8) -> Option<Unit> {
    match code {
        9 => Some(Unit::DegreeCelsius),
        27 => Some(Unit::Watt),
        28 => Some(Unit::VoltAmpere),
        29 => Some(Unit::Var),
        30 => Some(Unit::WattHour),
        31 => Some(Unit::VoltAmpereHour),
        32 => Some(Unit::VarHour),
        33 => Some(Unit::Ampere),
        35 => Some(Unit::Volt),
        44 => Some(Unit::Hertz),
        255 => Some(Unit::Unitless),
        _ => None,
    }
}

impl Unit {
    /// The text a unit is written as.
    pub open spec fn spec_symbol(self) -> Seq<char> {
        match self {
            Unit::DegreeCelsius => seq!['C'],
            Unit::Watt => seq!['W'],
            Unit::VoltAmpere => seq!['V', 'A'],
            Unit::Var => seq!['v', 'a', 'r'],
            Unit::WattHour => seq!['W', 'h'],
            Unit::VoltAmpereHour => seq!['V', 'A', 'h'],
            Unit::VarHour => seq!['v', 'a', 'r', 'h'],
            Unit::Ampere => seq!['A'],
            Unit::Volt => seq!['V'],
            Unit::Hertz => seq!['H', 'z'],
            Unit::Unitless => seq!['n', 'o', 'n', 'e'],
        }
    }

    /// Resolves a raw unit code; codes outside the table give `None`.
    pub fn from_u8(code: u8) -> (r: Option<Unit>)
        ensures
            r == unit_of_code(code),
    {
        match code {
            9 => Some(Unit::DegreeCelsius),
            27 => Some(Unit::Watt),
            28 => Some(Unit::VoltAmpere),
            29 => Some(Unit::Var),
            30 => Some(Unit::WattHour),
            31 => Some(Unit::VoltAmpereHour),
            32 => Some(Unit::VarHour),
            33 => Some(Unit::Ampere),
            35 => Some(Unit::Volt),
            44 => Some(Unit::Hertz),
            255 => Some(Unit::Unitless),
            _ => None,
        }
    }

    /// The text this unit is written as (`"Wh"`, `"W"`, ...).
    pub fn symbol(&self) -> (r: &'static str)
        ensures
            r@ == self.spec_symbol(),
    {
        match self {
            Unit::DegreeCelsius => {
                proof { reveal_strlit("C"); }
                "C"
            },
            Unit::Watt => {
                proof { reveal_strlit("W"); }
                "W"
            },
            Unit::VoltAmpere => {
                proof { reveal_strlit("VA"); }
                "VA"
            },
            Unit::Var => {
                proof { reveal_strlit("var"); }
                "var"
            },
            Unit::WattHour => {
                proof { reveal_strlit("Wh"); }
                "Wh"
            },
            Unit::VoltAmpereHour => {
                proof { reveal_strlit("VAh"); }
                "VAh"
            },
            Unit::VarHour => {
                proof { reveal_strlit("varh"); }
                "varh"
            },
            Unit::Ampere => {
                proof { reveal_strlit("A"); }
                "A"
            },
            Unit::Volt => {
                proof { reveal_strlit("V"); }
                "V"
            },
            Unit::Hertz => {
                proof { reveal_strlit("Hz"); }
                "Hz"
            },
            Unit::Unitless => {
                proof { reveal_strlit("none"); }
                "none"
            },
        }
    }
}

} // verus!
