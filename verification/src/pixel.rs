//! A three-channel colour sample and its tonal operations.

use vstd::prelude::*;

verus! {

/// One RGB sample. A pixel has no identity beyond its place in a buffer and is
/// copied freely.
#[derive(Clone, Copy, Debug, PartialEq, Eq, Structural)]
pub struct Pixel {
    pub red: u8,
    pub green: u8,
    pub blue: u8,
}

impl Pixel {
    /// The gray pixel whose three channels all equal `level`.
    pub open spec fn gray(level: u8) -> Pixel {
        Pixel { red: level, green: level, blue: level }
    }

    /// The intensity of this pixel: the mean of its channels, rounded down.
    pub open spec fn gray_level(self) -> u8 {
        ((self.red + self.green + self.blue) / 3) as u8
    }

    /// Whether the three channels agree.
    pub open spec fn is_gray(self) -> bool {
        self.red == self.green && self.green == self.blue
    }

    /// This pixel with every channel replaced by its intensity.
    pub open spec fn grayscaled(self) -> Pixel {
        Pixel::gray(self.gray_level())
    }

    /// This pixel with every channel `c` replaced by `255 - c`.
    pub open spec fn inverted(self) -> Pixel {
        Pixel {
            red: (255 - self.red) as u8,
            green: (255 - self.green) as u8,
            blue: (255 - self.blue) as u8,
        }
    }

    /// Builds a pixel from its channels.
    pub fn rgb(red: u8, green: u8, blue: u8) -> (pixel: Pixel)
        ensures
            pixel == (Pixel { red, green, blue }),
    {
        Pixel { red, green, blue }
    }

    /// Collapses the pixel to gray at its own intensity.
    pub fn grayscale(&mut self)
        ensures
            *final(self) == old(self).grayscaled(),
    {
        let sum: u16 = self.red as u16 + self.green as u16 + self.blue as u16;
        let level: u8 = (sum / 3) as u8;
        self.set_gray(level);
    }

    /// Replaces every channel `c` by `255 - c`.
    pub fn invert(&mut self)
        ensures
            *final(self) == old(self).inverted(),
    {
        self.red = 255 - self.red;
        self.green = 255 - self.green;
        self.blue = 255 - self.blue;
    }

    /// Sets all three channels to `level`.
    pub fn set_gray(&mut self, level: u8)
        ensures
            *final(self) == Pixel::gray(level),
    {
        self.red = level;
        self.green = level;
        self.blue = level;
    }
}

/// Inverting twice gives the pixel back.
pub proof fn lemma_invert_is_involution(p: Pixel)
    ensures
        p.inverted().inverted() == p,
{
}

/// Converting to gray and inverting commute on a pixel exactly when the sum
/// of its channels is a multiple of three; otherwise inverting first yields a
/// gray one level darker.
pub proof fn lemma_grayscale_invert_commute(p: Pixel)
    ensures
        (p.grayscaled().inverted() == p.inverted().grayscaled()) <==> (p.red + p.green + p.blue)
            % 3 == 0,
        (p.red + p.green + p.blue) % 3 != 0 ==> p.inverted().grayscaled().red + 1
            == p.grayscaled().inverted().red,
{
}

/// On a pixel that is already gray, converting to gray changes nothing, so it
/// commutes with inverting.
pub proof fn lemma_gray_pixel_commutes(p: Pixel)
    requires
        p.is_gray(),
    ensures
        p.grayscaled() == p,
        p.grayscaled().inverted() == p.inverted().grayscaled(),
{
}

} // verus!
