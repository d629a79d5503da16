//! Colors as fixed-point triples, nominally in `[0, 1]` per channel (values
//! may exceed one before tone mapping), with the gamma transform and 8-bit
//! quantization of the output stage.

use vstd::prelude::*;
use crate::fixed::{fits_i64, tdiv, fmul, fdiv, sqrt_s, fx_mul, fx_div, sqrt_fx, clamp_fx,
    lemma_sq_monotone};

verus! {

/// Mathematical view of a color: unbounded integer channels at the raw scale.
pub ghost struct C3i {
    pub r: int,
    pub g: int,
    pub b: int,
}

/// All three channels lie in `[0, b]`.
pub open spec fn channels_within(c: C3i, b: int) -> bool {
    0 <= c.r <= b && 0 <= c.g <= b && 0 <= c.b <= b
}

/// The square-root linear-to-gamma transform of one channel.
pub open spec fn gamma_s(c: int) -> int {
    if c > 0 {
        sqrt_s(c * 65536)
    } else {
        0
    }
}

/// Quantization of one gamma-space channel to a byte: clamp just below one,
/// then scale to `[0, 255]`.
pub open spec fn byte_s(c: int) -> int {
    let cl = if c < 0 { 0 } else if c > 65470 { 65470 } else { c };
    tdiv(cl * 256, 65536)
}

pub struct Color {
    pub red: i64,
    pub green: i64,
    pub blue: i64,
}

impl Clone for Color {
    fn clone(&self) -> (r: Self)
        ensures
            r == *self,
    {
        Color { red: self.red, green: self.green, blue: self.blue }
    }
}

impl Copy for Color {

}

impl View for Color {
    type V = C3i;

    open spec fn view(&self) -> C3i {
        C3i { r: self.red as int, g: self.green as int, b: self.blue as int }
    }
}

pub trait Cross {
    fn cross_prod(&self, rhs: Self) -> Self where Self: core::marker::Sized;
}

impl Cross for Color {
    /// Trait form of the cross product; channels too large for the
    /// fixed-point grid fall back to black. Crate code calls the inherent
    /// method, whose contract pins the result.
    fn cross_prod(&self, rhs: Self) -> Self {
        if -0x40000000 <= self.red && self.red <= 0x40000000
            && -0x40000000 <= self.green && self.green <= 0x40000000
            && -0x40000000 <= self.blue && self.blue <= 0x40000000
            && -0x40000000 <= rhs.red && rhs.red <= 0x40000000
            && -0x40000000 <= rhs.green && rhs.green <= 0x40000000
            && -0x40000000 <= rhs.blue && rhs.blue <= 0x40000000
        {
            Color::cross_prod(self, rhs)
        } else {
            Color { red: 0, green: 0, blue: 0 }
        }
    }
}

impl Color {
    pub fn new(red: i64, green: i64, blue: i64) -> (r: Self)
        ensures
            r@ == (C3i { r: red as int, g: green as int, b: blue as int }),
    {
        Color { red, green, blue }
    }

    pub fn get_r(self) -> (r: i64)
        ensures
            r == self@.r,
    {
        self.red
    }

    pub fn get_g(self) -> (r: i64)
        ensures
            r == self@.g,
    {
        self.green
    }

    pub fn get_b(self) -> (r: i64)
        ensures
            r == self@.b,
    {
        self.blue
    }

    pub fn add(self, rhs: Self) -> (r: Self)
        requires
            fits_i64(self@.r + rhs@.r),
            fits_i64(self@.g + rhs@.g),
            fits_i64(self@.b + rhs@.b),
        ensures
            r@ == (C3i { r: self@.r + rhs@.r, g: self@.g + rhs@.g, b: self@.b + rhs@.b }),
    {
        Color { red: self.red + rhs.red, green: self.green + rhs.green, blue: self.blue + rhs.blue }
    }

    pub fn add_assign(&mut self, rhs: Self)
        requires
            fits_i64(old(self)@.r + rhs@.r),
            fits_i64(old(self)@.g + rhs@.g),
            fits_i64(old(self)@.b + rhs@.b),
        ensures
            final(self)@ == (C3i {
                r: old(self)@.r + rhs@.r,
                g: old(self)@.g + rhs@.g,
                b: old(self)@.b + rhs@.b,
            }),
    {
        self.red = self.red + rhs.red;
        self.green = self.green + rhs.green;
        self.blue = self.blue + rhs.blue;
    }

    /// Componentwise attenuation product.
    pub fn mul(self, rhs: Self) -> (r: Self)
        requires
            fits_i64(fmul(self@.r, rhs@.r)),
            fits_i64(fmul(self@.g, rhs@.g)),
            fits_i64(fmul(self@.b, rhs@.b)),
        ensures
            r@ == (C3i {
                r: fmul(self@.r, rhs@.r),
                g: fmul(self@.g, rhs@.g),
                b: fmul(self@.b, rhs@.b),
            }),
    {
        Color {
            red: fx_mul(self.red, rhs.red),
            green: fx_mul(self.green, rhs.green),
            blue: fx_mul(self.blue, rhs.blue),
        }
    }

    pub fn mul_assign(&mut self, rhs: Self)
        requires
            fits_i64(fmul(old(self)@.r, rhs@.r)),
            fits_i64(fmul(old(self)@.g, rhs@.g)),
            fits_i64(fmul(old(self)@.b, rhs@.b)),
        ensures
            final(self)@ == (C3i {
                r: fmul(old(self)@.r, rhs@.r),
                g: fmul(old(self)@.g, rhs@.g),
                b: fmul(old(self)@.b, rhs@.b),
            }),
    {
        self.red = fx_mul(self.red, rhs.red);
        self.green = fx_mul(self.green, rhs.green);
        self.blue = fx_mul(self.blue, rhs.blue);
    }

    /// Scaling of every channel by one fixed-point factor.
    pub fn mul_scalar(self, rhs: i64) -> (r: Self)
        requires
            fits_i64(fmul(self@.r, rhs as int)),
            fits_i64(fmul(self@.g, rhs as int)),
            fits_i64(fmul(self@.b, rhs as int)),
        ensures
            r@ == (C3i {
                r: fmul(self@.r, rhs as int),
                g: fmul(self@.g, rhs as int),
                b: fmul(self@.b, rhs as int),
            }),
    {
        Color {
            red: fx_mul(self.red, rhs),
            green: fx_mul(self.green, rhs),
            blue: fx_mul(self.blue, rhs),
        }
    }

    /// Division of every channel by one positive fixed-point factor.
    pub fn div(self, rhs: i64) -> (r: Self)
        requires
            rhs > 0,
            fits_i64(fdiv(self@.r, rhs as int)),
            fits_i64(fdiv(self@.g, rhs as int)),
            fits_i64(fdiv(self@.b, rhs as int)),
        ensures
            r@ == (C3i {
                r: fdiv(self@.r, rhs as int),
                g: fdiv(self@.g, rhs as int),
                b: fdiv(self@.b, rhs as int),
            }),
    {
        Color {
            red: fx_div(self.red, rhs),
            green: fx_div(self.green, rhs),
            blue: fx_div(self.blue, rhs),
        }
    }

    pub fn cross_prod(&self, rhs: Self) -> (r: Self)
        requires
            -0x40000000 <= self@.r <= 0x40000000,
            -0x40000000 <= self@.g <= 0x40000000,
            -0x40000000 <= self@.b <= 0x40000000,
            -0x40000000 <= rhs@.r <= 0x40000000,
            -0x40000000 <= rhs@.g <= 0x40000000,
            -0x40000000 <= rhs@.b <= 0x40000000,
        ensures
            r@ == (C3i {
                r: fmul(self@.g, rhs@.b) - fmul(self@.b, rhs@.g),
                g: fmul(self@.b, rhs@.r) - fmul(self@.r, rhs@.b),
                b: fmul(self@.r, rhs@.g) - fmul(self@.g, rhs@.r),
            }),
    {
        proof {
            crate::vector3::lemma_fmul_bound(self@.g, rhs@.b, 0x40000000, 0x40000000);
            crate::vector3::lemma_fmul_bound(self@.b, rhs@.g, 0x40000000, 0x40000000);
            crate::vector3::lemma_fmul_bound(self@.b, rhs@.r, 0x40000000, 0x40000000);
            crate::vector3::lemma_fmul_bound(self@.r, rhs@.b, 0x40000000, 0x40000000);
            crate::vector3::lemma_fmul_bound(self@.r, rhs@.g, 0x40000000, 0x40000000);
            crate::vector3::lemma_fmul_bound(self@.g, rhs@.r, 0x40000000, 0x40000000);
        }
        Color {
            red: fx_mul(self.green, rhs.blue) - fx_mul(self.blue, rhs.green),
            green: fx_mul(self.blue, rhs.red) - fx_mul(self.red, rhs.blue),
            blue: fx_mul(self.red, rhs.green) - fx_mul(self.green, rhs.red),
        }
    }

    /// Tone-map this color in place (square-root gamma per channel) and hand
    /// back its 8-bit quantization, ready for the pixel stream.
    pub fn write_color(&mut self) -> (r: (u8, u8, u8))
        ensures
            final(self)@ == (C3i {
                r: gamma_s(old(self)@.r),
                g: gamma_s(old(self)@.g),
                b: gamma_s(old(self)@.b),
            }),
            r.0 == byte_s(gamma_s(old(self)@.r)),
            r.1 == byte_s(gamma_s(old(self)@.g)),
            r.2 == byte_s(gamma_s(old(self)@.b)),
    {
        self.red = Self::linear_to_gamma_transformation(self.red);
        self.green = Self::linear_to_gamma_transformation(self.green);
        self.blue = Self::linear_to_gamma_transformation(self.blue);
        let rbyte = Self::quantize(self.red);
        let gbyte = Self::quantize(self.green);
        let bbyte = Self::quantize(self.blue);
        (rbyte, gbyte, bbyte)
    }

    /// Transform one channel into gamma space so that an image viewer shows
    /// intensities more faithfully.
    fn linear_to_gamma_transformation(linear_component: i64) -> (r: i64)
        ensures
            r == gamma_s(linear_component as int),
            r >= 0,
    {
        if linear_component > 0 {
            sqrt_fx(linear_component)
        } else {
            0
        }
    }

    /// Clamp one gamma-space channel just below one and scale it to a byte.
    fn quantize(c: i64) -> (r: u8)
        ensures
            r == byte_s(c as int),
    {
        let cl = clamp_fx(c, 0, 65470);
        let wide: u64 = (cl as u64) * 256;
        let byte: u64 = wide / 65536;
        byte as u8
    }
}

impl Default for Color {
    fn default() -> (r: Self)
        ensures
            r@ == (C3i { r: 0, g: 0, b: 0 }),
    {
        Color { red: 0, green: 0, blue: 0 }
    }
}

} // verus!
