//! An RGB pixel with saturating arithmetic.

use core::cmp::Ordering;
use core::ops::{Add, AddAssign, Div, DivAssign, Mul, MulAssign, Sub, SubAssign};
use vstd::prelude::*;
use vstd::std_specs::cmp::PartialOrdSpecImpl;
use vstd::std_specs::ops::{AddSpecImpl, DivSpecImpl, MulSpecImpl, SubSpecImpl};

verus! {

/// The 24-bit packing of three channels: red in bits 16 to 23, green in bits
/// 8 to 15, blue in bits 0 to 7.
pub open spec fn pack_rgb(r: u8, g: u8, b: u8) -> u32 {
    ((r as u32) << 16) | ((g as u32) << 8) | (b as u32)
}

/// The red channel of a packed colour: bits 16 to 23.
pub open spec fn red_of(packed: u32) -> u8 {
    ((packed & 0xff0000) >> 16) as u8
}

/// The green channel of a packed colour: bits 8 to 15.
pub open spec fn green_of(packed: u32) -> u8 {
    ((packed & 0x00ff00) >> 8) as u8
}

/// The blue channel of a packed colour: bits 0 to 7.
pub open spec fn blue_of(packed: u32) -> u8 {
    (packed & 0x0000ff) as u8
}

/// Unpacking gives back the channels that were packed.
pub proof fn lemma_unpack_pack(r: u8, g: u8, b: u8)
    ensures
        red_of(pack_rgb(r, g, b)) == r,
        green_of(pack_rgb(r, g, b)) == g,
        blue_of(pack_rgb(r, g, b)) == b,
{
    assert((((((r as u32) << 16) | ((g as u32) << 8) | (b as u32)) & 0xff0000) >> 16) as u8 == r)
        by (bit_vector);
    assert((((((r as u32) << 16) | ((g as u32) << 8) | (b as u32)) & 0x00ff00) >> 8) as u8 == g)
        by (bit_vector);
    assert(((((r as u32) << 16) | ((g as u32) << 8) | (b as u32)) & 0x0000ff) as u8 == b)
        by (bit_vector);
}

/// The three channels of a packed colour; bits 24 to 31 are not read.
pub fn unpack_rgb(packed: u32) -> (rgb: (u8, u8, u8))
    ensures
        rgb == (red_of(packed), green_of(packed), blue_of(packed)),
    no_unwind
{
    let r: u32 = (packed & 0xff0000) >> 16;
    let g: u32 = (packed & 0x00ff00) >> 8;
    let b: u32 = packed & 0x0000ff;
    assert((packed & 0xff0000) >> 16 <= 0xff) by (bit_vector);
    assert((packed & 0x00ff00) >> 8 <= 0xff) by (bit_vector);
    assert(packed & 0x0000ff <= 0xff) by (bit_vector);
    (r as u8, g as u8, b as u8)
}

/// A colour that can be read as three 8-bit channels.
pub trait RGB {
    /// The red, green and blue channels of the colour.
    spec fn channels(&self) -> (u8, u8, u8);

    /// The colour packed into one word, as `pack_rgb` lays it out.
    fn to_rgb_packed(&self) -> (packed: u32)
        ensures
            packed == pack_rgb(self.channels().0, self.channels().1, self.channels().2),
    ;

    /// The three channels in the order red, green, blue.
    fn to_rgb(&self) -> (rgb: [u8; 3])
        ensures
            rgb@ == seq![self.channels().0, self.channels().1, self.channels().2],
    ;
}

/// One pixel: a red, a green and a blue intensity.
#[derive(Debug, Clone, Copy, PartialEq, Eq, Structural, Ord)]
pub struct Pixel {
    r: u8,
    g: u8,
    b: u8,
}

impl View for Pixel {
    type V = (u8, u8, u8);

    closed spec fn view(&self) -> (u8, u8, u8) {
        (self.r, self.g, self.b)
    }
}

/// The sum of two channel values, held at the largest value.
pub open spec fn saturating_sum(x: u8, y: u8) -> u8 {
    if x + y > u8::MAX {
        u8::MAX
    } else {
        (x + y) as u8
    }
}

/// The difference of two channel values, held at zero.
pub open spec fn saturating_difference(x: u8, y: u8) -> u8 {
    if x < y {
        0
    } else {
        (x - y) as u8
    }
}

/// The product of two channel values, held at the largest value.
pub open spec fn saturating_product(x: u8, y: u8) -> u8 {
    if x * y > u8::MAX {
        u8::MAX
    } else {
        (x * y) as u8
    }
}

/// The quotient of two channel values; the divisor is not zero.
pub open spec fn saturating_quotient(x: u8, y: u8) -> u8
    recommends
        y != 0,
{
    (x / y) as u8
}

/// None of the three channels is zero: the pixel can stand as a divisor.
pub open spec fn no_zero_channel(p: (u8, u8, u8)) -> bool {
    p.0 != 0 && p.1 != 0 && p.2 != 0
}

/// The channel-wise saturating sum of two pixels' channels.
pub open spec fn channel_sums(p: (u8, u8, u8), q: (u8, u8, u8)) -> (u8, u8, u8) {
    (saturating_sum(p.0, q.0), saturating_sum(p.1, q.1), saturating_sum(p.2, q.2))
}

/// The channel-wise saturating difference of two pixels' channels.
pub open spec fn channel_differences(p: (u8, u8, u8), q: (u8, u8, u8)) -> (u8, u8, u8) {
    (
        saturating_difference(p.0, q.0),
        saturating_difference(p.1, q.1),
        saturating_difference(p.2, q.2),
    )
}

/// The channel-wise saturating product of two pixels' channels.
pub open spec fn channel_products(p: (u8, u8, u8), q: (u8, u8, u8)) -> (u8, u8, u8) {
    (saturating_product(p.0, q.0), saturating_product(p.1, q.1), saturating_product(p.2, q.2))
}

/// The channel-wise quotient of two pixels' channels; no divisor is zero.
pub open spec fn channel_quotients(p: (u8, u8, u8), q: (u8, u8, u8)) -> (u8, u8, u8)
    recommends
        no_zero_channel(q),
{
    (
        saturating_quotient(p.0, q.0),
        saturating_quotient(p.1, q.1),
        saturating_quotient(p.2, q.2),
    )
}

/// `u8::saturating_mul`: the product of the two values, or `u8::MAX` where the
/// product does not fit.
pub assume_specification[ <u8>::saturating_mul ](x: u8, y: u8) -> (product: u8)
    ensures
        product == saturating_product(x, y),
;

/// `u8::saturating_div`: the quotient of the two values, which always fits.
/// The divisor must not be zero, for which the function panics.
pub assume_specification[ <u8>::saturating_div ](x: u8, y: u8) -> (quotient: u8)
    requires
        y != 0,
    ensures
        quotient == saturating_quotient(x, y),
;

impl Pixel {
    /// A pixel is its three channels: two pixels of equal channels are
    /// equal.
    pub proof fn lemma_view_determines(p: Pixel, q: Pixel)
        requires
            p@ == q@,
        ensures
            p == q,
    {
    }

    /// The brightest pixel: every channel at its largest value.
    pub fn white() -> (pixel: Pixel)
        ensures
            pixel@ == (u8::MAX, u8::MAX, u8::MAX),
    {
        Pixel::splat(u8::MAX)
    }

    /// The dark pixel: every channel at zero.
    pub fn black() -> (pixel: Pixel)
        ensures
            pixel@ == (0u8, 0u8, 0u8),
    {
        Pixel::splat(0)
    }

    /// A pixel of the three given intensities.
    pub fn new(r: u8, g: u8, b: u8) -> (pixel: Pixel)
        ensures
            pixel@ == (r, g, b),
    {
        Pixel { r, g, b }
    }

    /// A grey pixel: all three channels hold `value`.
    pub fn splat(value: u8) -> (pixel: Pixel)
        ensures
            pixel@ == (value, value, value),
    {
        Pixel { r: value, g: value, b: value }
    }
}

impl RGB for Pixel {
    open spec fn channels(&self) -> (u8, u8, u8) {
        self@
    }

    fn to_rgb_packed(&self) -> (packed: u32) {
        let r: u32 = self.r as u32;
        let g: u32 = self.g as u32;
        let b: u32 = self.b as u32;
        (r << 16) | (g << 8) | b
    }

    fn to_rgb(&self) -> (rgb: [u8; 3]) {
        let rgb: [u8; 3] = [self.r, self.g, self.b];
        assert(rgb@ =~= seq![self.r, self.g, self.b]);
        rgb
    }
}

impl Add<Pixel> for Pixel {
    type Output = Pixel;

    fn add(self, rhs: Pixel) -> (sum: Pixel)
        ensures
            sum@ == channel_sums(self@, rhs@),
    {
        Pixel::new(
            self.r.saturating_add(rhs.r),
            self.g.saturating_add(rhs.g),
            self.b.saturating_add(rhs.b),
        )
    }
}

impl AddSpecImpl<Pixel> for Pixel {
    open spec fn obeys_add_spec() -> bool {
        true
    }

    open spec fn add_req(self, rhs: Pixel) -> bool {
        true
    }

    closed spec fn add_spec(self, rhs: Pixel) -> Pixel {
        Pixel {
            r: saturating_sum(self.r, rhs.r),
            g: saturating_sum(self.g, rhs.g),
            b: saturating_sum(self.b, rhs.b),
        }
    }
}

impl Sub<Pixel> for Pixel {
    type Output = Pixel;

    fn sub(self, rhs: Pixel) -> (difference: Pixel)
        ensures
            difference@ == channel_differences(self@, rhs@),
    {
        Pixel::new(
            self.r.saturating_sub(rhs.r),
            self.g.saturating_sub(rhs.g),
            self.b.saturating_sub(rhs.b),
        )
    }
}

impl SubSpecImpl<Pixel> for Pixel {
    open spec fn obeys_sub_spec() -> bool {
        true
    }

    open spec fn sub_req(self, rhs: Pixel) -> bool {
        true
    }

    closed spec fn sub_spec(self, rhs: Pixel) -> Pixel {
        Pixel {
            r: saturating_difference(self.r, rhs.r),
            g: saturating_difference(self.g, rhs.g),
            b: saturating_difference(self.b, rhs.b),
        }
    }
}

impl Mul<Pixel> for Pixel {
    type Output = Pixel;

    fn mul(self, rhs: Pixel) -> (product: Pixel)
        ensures
            product@ == channel_products(self@, rhs@),
    {
        Pixel::new(
            self.r.saturating_mul(rhs.r),
            self.g.saturating_mul(rhs.g),
            self.b.saturating_mul(rhs.b),
        )
    }
}

impl MulSpecImpl<Pixel> for Pixel {
    open spec fn obeys_mul_spec() -> bool {
        true
    }

    open spec fn mul_req(self, rhs: Pixel) -> bool {
        true
    }

    closed spec fn mul_spec(self, rhs: Pixel) -> Pixel {
        Pixel {
            r: saturating_product(self.r, rhs.r),
            g: saturating_product(self.g, rhs.g),
            b: saturating_product(self.b, rhs.b),
        }
    }
}

impl Div<Pixel> for Pixel {
    type Output = Pixel;

    fn div(self, rhs: Pixel) -> (quotient: Pixel)
        ensures
            quotient@ == channel_quotients(self@, rhs@),
    {
        Pixel::new(
            self.r.saturating_div(rhs.r),
            self.g.saturating_div(rhs.g),
            self.b.saturating_div(rhs.b),
        )
    }
}

impl DivSpecImpl<Pixel> for Pixel {
    open spec fn obeys_div_spec() -> bool {
        true
    }

    open spec fn div_req(self, rhs: Pixel) -> bool {
        no_zero_channel(rhs@)
    }

    closed spec fn div_spec(self, rhs: Pixel) -> Pixel {
        Pixel {
            r: saturating_quotient(self.r, rhs.r),
            g: saturating_quotient(self.g, rhs.g),
            b: saturating_quotient(self.b, rhs.b),
        }
    }
}

impl AddAssign for Pixel {
    fn add_assign(&mut self, rhs: Pixel)
        ensures
            final(self)@ == channel_sums(old(self)@, rhs@),
    {
        self.r = self.r.saturating_add(rhs.r);
        self.g = self.g.saturating_add(rhs.g);
        self.b = self.b.saturating_add(rhs.b);
    }
}

impl SubAssign for Pixel {
    fn sub_assign(&mut self, rhs: Pixel)
        ensures
            final(self)@ == channel_differences(old(self)@, rhs@),
    {
        self.r = self.r.saturating_sub(rhs.r);
        self.g = self.g.saturating_sub(rhs.g);
        self.b = self.b.saturating_sub(rhs.b);
    }
}

impl MulAssign for Pixel {
    fn mul_assign(&mut self, rhs: Pixel)
        ensures
            final(self)@ == channel_products(old(self)@, rhs@),
    {
        self.r = self.r.saturating_mul(rhs.r);
        self.g = self.g.saturating_mul(rhs.g);
        self.b = self.b.saturating_mul(rhs.b);
    }
}

impl DivAssign for Pixel {
    fn div_assign(&mut self, rhs: Pixel)
        requires
            no_zero_channel(rhs@),
        ensures
            final(self)@ == channel_quotients(old(self)@, rhs@),
    {
        self.r = self.r.saturating_div(rhs.r);
        self.g = self.g.saturating_div(rhs.g);
        self.b = self.b.saturating_div(rhs.b);
    }
}

impl PartialOrd for Pixel {
    fn partial_cmp(&self, other: &Pixel) -> (order: Option<Ordering>) {
        if self.r < other.r {
            Some(Ordering::Less)
        } else if self.r > other.r {
            Some(Ordering::Greater)
        } else if self.g < other.g {
            Some(Ordering::Less)
        } else if self.g > other.g {
            Some(Ordering::Greater)
        } else if self.b < other.b {
            Some(Ordering::Less)
        } else if self.b > other.b {
            Some(Ordering::Greater)
        } else {
            Some(Ordering::Equal)
        }
    }
}

impl PartialOrdSpecImpl for Pixel {
    open spec fn obeys_partial_cmp_spec() -> bool {
        true
    }

    open spec fn partial_cmp_spec(&self, other: &Pixel) -> Option<Ordering> {
        if self@.0 != other@.0 {
            if self@.0 < other@.0 {
                Some(Ordering::Less)
            } else {
                Some(Ordering::Greater)
            }
        } else if self@.1 != other@.1 {
            if self@.1 < other@.1 {
                Some(Ordering::Less)
            } else {
                Some(Ordering::Greater)
            }
        } else if self@.2 != other@.2 {
            if self@.2 < other@.2 {
                Some(Ordering::Less)
            } else {
                Some(Ordering::Greater)
            }
        } else {
            Some(Ordering::Equal)
        }
    }
}

} // verus!
