use vstd::prelude::*;

verus! {

/// A unit's size relative to its SI base unit, held exactly as
/// `mantissa * 10^exponent`.
#[derive(Clone, Copy, Debug, PartialEq, Eq, Structural)]
pub struct DecimalScale {
    pub mantissa: u32,
    pub exponent: i32,
}

/// The scale `10^exponent`.
pub open spec fn power_of_ten(exponent: int) -> DecimalScale {
    DecimalScale { mantissa: 1, exponent: exponent as i32 }
}

fn ten_to(exponent: i32) -> (scale: DecimalScale)
    ensures
        scale == power_of_ten(exponent as int),
{
    DecimalScale { mantissa: 1, exponent }
}

/// Frequency units of the wavelength section: Hz, kHz, MHz, GHz, THz; Hz otherwise.
pub fn general_frequency_scale(index: i32) -> (scale: DecimalScale)
    ensures
        0 <= index <= 4 ==> scale == power_of_ten(3 * index),
        !(0 <= index <= 4) ==> scale == power_of_ten(0),
        scale.mantissa > 0,
{
    match index {
        0 => ten_to(0),
        1 => ten_to(3),
        2 => ten_to(6),
        3 => ten_to(9),
        4 => ten_to(12),
        _ => ten_to(0),
    }
}

/// Wavelength units: um, mm, cm, m; mm otherwise.
pub fn wavelength_scale(index: i32) -> (scale: DecimalScale)
    ensures
        index == 0 ==> scale == power_of_ten(-6),
        index == 1 ==> scale == power_of_ten(-3),
        index == 2 ==> scale == power_of_ten(-2),
        index == 3 ==> scale == power_of_ten(0),
        !(0 <= index <= 3) ==> scale == power_of_ten(-3),
        scale.mantissa > 0,
{
    match index {
        0 => ten_to(-6),
        1 => ten_to(-3),
        2 => ten_to(-2),
        3 => ten_to(0),
        _ => ten_to(-3),
    }
}

/// Frequency units of the reactance section: MHz, GHz, THz; GHz otherwise.
pub fn react_frequency_scale(index: i32) -> (scale: DecimalScale)
    ensures
        0 <= index <= 2 ==> scale == power_of_ten(6 + 3 * index),
        !(0 <= index <= 2) ==> scale == power_of_ten(9),
        scale.mantissa > 0,
{
    match index {
        0 => ten_to(6),
        1 => ten_to(9),
        2 => ten_to(12),
        _ => ten_to(9),
    }
}

/// Inductance units: H, mH, uH, nH, pH; nH otherwise.
pub fn inductance_scale(index: i32) -> (scale: DecimalScale)
    ensures
        0 <= index <= 4 ==> scale == power_of_ten(-3 * index),
        !(0 <= index <= 4) ==> scale == power_of_ten(-9),
        scale.mantissa > 0,
{
    match index {
        0 => ten_to(0),
        1 => ten_to(-3),
        2 => ten_to(-6),
        3 => ten_to(-9),
        4 => ten_to(-12),
        _ => ten_to(-9),
    }
}

/// Capacitance units: F, mF, uF, nF, pF; pF otherwise.
pub fn capacitance_scale(index: i32) -> (scale: DecimalScale)
    ensures
        0 <= index <= 4 ==> scale == power_of_ten(-3 * index),
        !(0 <= index <= 4) ==> scale == power_of_ten(-12),
        scale.mantissa > 0,
{
    match index {
        0 => ten_to(0),
        1 => ten_to(-3),
        2 => ten_to(-6),
        3 => ten_to(-9),
        4 => ten_to(-12),
        _ => ten_to(-12),
    }
}

/// Reactance units: ohm, kohm, Mohm; ohm otherwise.
pub fn reactance_scale(index: i32) -> (scale: DecimalScale)
    ensures
        0 <= index <= 2 ==> scale == power_of_ten(3 * index),
        !(0 <= index <= 2) ==> scale == power_of_ten(0),
        scale.mantissa > 0,
{
    match index {
        0 => ten_to(0),
        1 => ten_to(3),
        2 => ten_to(6),
        _ => ten_to(0),
    }
}

/// Length units of the microstrip section: um, mil (25.4 um), mm, cm, inch (25.4 mm);
/// mm otherwise.
pub fn microstrip_length_scale(index: i32) -> (scale: DecimalScale)
    ensures
        index == 0 ==> scale == power_of_ten(-6),
        index == 1 ==> scale == (DecimalScale { mantissa: 254u32, exponent: -7i32 }),
        index == 2 ==> scale == power_of_ten(-3),
        index == 3 ==> scale == power_of_ten(-2),
        index == 4 ==> scale == (DecimalScale { mantissa: 254u32, exponent: -4i32 }),
        !(0 <= index <= 4) ==> scale == power_of_ten(-3),
        scale.mantissa > 0,
{
    match index {
        0 => ten_to(-6),
        1 => DecimalScale { mantissa: 254, exponent: -7 },
        2 => ten_to(-3),
        3 => ten_to(-2),
        4 => DecimalScale { mantissa: 254, exponent: -4 },
        _ => ten_to(-3),
    }
}

/// Frequency units of the microstrip section: MHz, GHz, THz; GHz otherwise.
pub fn microstrip_frequency_scale(index: i32) -> (scale: DecimalScale)
    ensures
        0 <= index <= 2 ==> scale == power_of_ten(6 + 3 * index),
        !(0 <= index <= 2) ==> scale == power_of_ten(9),
        scale.mantissa > 0,
{
    match index {
        0 => ten_to(6),
        1 => ten_to(9),
        2 => ten_to(12),
        _ => ten_to(9),
    }
}

} // verus!
