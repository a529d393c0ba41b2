//! Colour conversion between the bridge's integer ranges and display RGB.
//!
//! A channel of a display colour is an exact fraction: a numerator over the
//! fixed denominator [`RGB_UNIT`]. No rounding takes place in this module.

use vstd::prelude::*;

verus! {

/// The largest hue the bridge knows; it stands for a full turn of 360 degrees.
pub const HUE_FULL_TURN: u16 = 65535;

/// The largest saturation and brightness the bridge knows; it stands for 1.
pub const LEVEL_FULL: u8 = 254;

/// The numerator that stands for a channel value of 1.
pub const RGB_UNIT: i64 = 4228056060;

/// A colour in the bridge's own ranges.
#[derive(Clone, Copy, Debug, PartialEq, Eq, Structural)]
pub struct HsvColor {
    pub hue: u16,
    pub saturation: u8,
    pub value: u8,
}

/// A display colour. Each channel is a numerator over [`RGB_UNIT`].
#[derive(Clone, Copy, Debug, PartialEq, Eq, Structural)]
pub struct Rgb {
    pub red: i64,
    pub green: i64,
    pub blue: i64,
}

/// The sixty-degree sector that a hue falls into: 0 for `[0, 60)`, up to 5
/// for `[300, 360)`, and 6 for a hue of exactly 360 degrees.
pub open spec fn hue_sector(hue: int) -> int {
    6 * hue / 65535
}

/// The chroma `v * s`, scaled by [`RGB_UNIT`].
pub open spec fn chroma(sat: int, bri: int) -> int {
    bri * sat * 65535
}

/// `(h / 60) mod 2`, scaled by 65535.
pub open spec fn hue_phase(hue: int) -> int {
    (6 * hue) % 131070
}

/// `1 - |((h / 60) mod 2) - 1|`, scaled by 65535.
pub open spec fn hue_ramp(hue: int) -> int {
    let p = hue_phase(hue);
    if p <= 65535 {
        p
    } else {
        131070 - p
    }
}

/// The intermediate value `x = c * (1 - |((h / 60) mod 2) - 1|)`, scaled by
/// [`RGB_UNIT`].
pub open spec fn intermediate(hue: int, sat: int, bri: int) -> int {
    bri * sat * hue_ramp(hue)
}

/// The offset `m = v - c`, scaled by [`RGB_UNIT`].
pub open spec fn match_offset(sat: int, bri: int) -> int {
    bri * (254 - sat) * 65535
}

/// The three channels of a known colour, each scaled by [`RGB_UNIT`].
pub open spec fn rgb_channels(hue: int, sat: int, bri: int) -> (int, int, int) {
    let c = chroma(sat, bri);
    let x = intermediate(hue, sat, bri);
    let m = match_offset(sat, bri);
    let k = hue_sector(hue);
    if k == 0 {
        (c + m, x + m, m)
    } else if k == 1 {
        (x + m, c + m, m)
    } else if k == 2 {
        (m, c + m, x + m)
    } else if k == 3 {
        (m, x + m, c + m)
    } else if k == 4 {
        (x + m, m, c + m)
    } else {
        (c + m, m, x + m)
    }
}

/// The display colour of a reported state: black as soon as one component is
/// unknown.
pub open spec fn display_rgb(hue: Option<u16>, saturation: Option<u8>, brightness: Option<u8>) -> (
    int,
    int,
    int,
) {
    if hue is Some && saturation is Some && brightness is Some {
        rgb_channels(
            hue->Some_0 as int,
            saturation->Some_0 as int,
            brightness->Some_0 as int,
        )
    } else {
        (0, 0, 0)
    }
}

/// The display colour of a reported state as a value of [`Rgb`].
pub open spec fn display_color(hue: Option<u16>, saturation: Option<u8>, brightness: Option<u8>) -> Rgb {
    let t = display_rgb(hue, saturation, brightness);
    Rgb { red: t.0 as i64, green: t.1 as i64, blue: t.2 as i64 }
}

impl Rgb {
    /// The three numerators as mathematical integers.
    pub open spec fn channels(self) -> (int, int, int) {
        (self.red as int, self.green as int, self.blue as int)
    }

    /// Pure black.
    pub fn black() -> (c: Rgb)
        ensures
            c == (Rgb { red: 0, green: 0, blue: 0 }),
    {
        Rgb { red: 0, green: 0, blue: 0 }
    }
}

/// Converts a reported hue, saturation and brightness into a display colour.
pub fn hsv_to_rgb(hue: Option<u16>, saturation: Option<u8>, brightness: Option<u8>) -> (c: Rgb)
    ensures
        c.channels() == display_rgb(hue, saturation, brightness),
        c == display_color(hue, saturation, brightness),
{
    match (hue, saturation, brightness) {
        (Some(h), Some(s), Some(v)) => {
            let h6: i64 = 6 * (h as i64);
            let sector: i64 = h6 / 65535;
            let phase: i64 = h6 % 131070;
            let ramp: i64 = if phase <= 65535 {
                phase
            } else {
                131070 - phase
            };
            assert(0 <= (v as int) * (s as int) <= 65025) by (nonlinear_arith)
                requires
                    0 <= v <= 255,
                    0 <= s <= 255,
            ;
            let vs: i64 = (v as i64) * (s as i64);
            assert(0 <= vs * 65535 <= 4261413375) by (nonlinear_arith)
                requires
                    0 <= vs <= 65025,
            ;
            assert(0 <= vs * ramp <= 4261413375) by (nonlinear_arith)
                requires
                    0 <= vs <= 65025,
                    0 <= ramp <= 65535,
            ;
            let c: i64 = vs * 65535;
            let x: i64 = vs * ramp;
            assert(-255 <= (v as int) * (254 - (s as int)) <= 64770) by (nonlinear_arith)
                requires
                    0 <= v <= 255,
                    0 <= s <= 255,
            ;
            let vm: i64 = (v as i64) * (254 - (s as i64));
            let m: i64 = vm * 65535;
            if sector == 0 {
                Rgb { red: c + m, green: x + m, blue: m }
            } else if sector == 1 {
                Rgb { red: x + m, green: c + m, blue: m }
            } else if sector == 2 {
                Rgb { red: m, green: c + m, blue: x + m }
            } else if sector == 3 {
                Rgb { red: m, green: x + m, blue: c + m }
            } else if sector == 4 {
                Rgb { red: x + m, green: m, blue: c + m }
            } else {
                Rgb { red: c + m, green: m, blue: x + m }
            }
        },
        _ => Rgb::black(),
    }
}

/// A hue lies in the sector whose sixty degrees hold it, the lower bound
/// included and the upper bound not. The full turn alone lies beyond the
/// sixth sector; it is coloured as the sixth.
pub proof fn lemma_hue_sector_bounds(hue: int)
    requires
        0 <= hue <= 65535,
    ensures
        0 <= hue_sector(hue) <= 6,
        hue_sector(hue) * 65535 <= 6 * hue < (hue_sector(hue) + 1) * 65535,
        hue_sector(hue) == 6 <==> hue == 65535,
{
}

/// Within the bridge's ranges every channel lies between 0 and 1.
pub proof fn lemma_channels_within_unit(hue: int, sat: int, bri: int)
    requires
        0 <= hue <= 65535,
        0 <= sat <= 254,
        0 <= bri <= 254,
    ensures
        0 <= rgb_channels(hue, sat, bri).0 <= RGB_UNIT,
        0 <= rgb_channels(hue, sat, bri).1 <= RGB_UNIT,
        0 <= rgb_channels(hue, sat, bri).2 <= RGB_UNIT,
{
    let ramp = hue_ramp(hue);
    assert(0 <= ramp <= 65535);
    let vs = bri * sat;
    assert(0 <= vs) by (nonlinear_arith)
        requires
            vs == bri * sat,
            0 <= sat,
            0 <= bri,
    ;
    assert(0 <= vs * ramp <= vs * 65535) by (nonlinear_arith)
        requires
            0 <= vs,
            0 <= ramp <= 65535,
    ;
    assert(chroma(sat, bri) + match_offset(sat, bri) == bri * 254 * 65535) by (nonlinear_arith)
        requires
            chroma(sat, bri) == bri * sat * 65535,
            match_offset(sat, bri) == bri * (254 - sat) * 65535,
    ;
    assert(0 <= bri * (254 - sat) * 65535) by (nonlinear_arith)
        requires
            0 <= bri,
            0 <= 254 - sat,
    ;
    assert(bri * 254 * 65535 <= 4228056060) by (nonlinear_arith)
        requires
            bri <= 254,
    ;
}

} // verus!
