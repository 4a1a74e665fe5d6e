//! Colour channels and four-channel pixel values.

use crate::quantize::{quantize, quantized};
use vstd::prelude::*;

verus! {

/// The letters that name the colour channels, in channel order.
pub const CHANNEL_LETTERS: [char; 3] = ['R', 'G', 'B'];

/// One of the three colour channels of a pixel.
#[derive(Clone, Copy, PartialEq, Eq, Debug, Structural)]
pub enum Channel {
    Red,
    Green,
    Blue,
}

impl Channel {
    /// The position of the channel in a pixel: 0 for red, 1 for green, 2 for blue.
    pub open spec fn spec_index(self) -> int {
        match self {
            Channel::Red => 0,
            Channel::Green => 1,
            Channel::Blue => 2,
        }
    }

    /// The position of the channel times `extent`: where the tile of the
    /// channel starts in a row of tiles that are `extent` long.
    pub open spec fn spec_offset(self, extent: int) -> int {
        match self {
            Channel::Red => 0,
            Channel::Green => extent,
            Channel::Blue => 2 * extent,
        }
    }

    /// The offset of a channel is its position times the extent.
    pub proof fn lemma_offset_is_product(self, extent: int)
        ensures
            self.spec_offset(extent) == self.spec_index() * extent,
    {
    }

    /// The letter that names the channel.
    pub open spec fn spec_letter(self) -> char {
        match self {
            Channel::Red => 'R',
            Channel::Green => 'G',
            Channel::Blue => 'B',
        }
    }

    /// The position of the channel in a pixel.
    pub fn index(self) -> (i: usize)
        ensures
            i == self.spec_index(),
            i < 3,
    {
        match self {
            Channel::Red => 0,
            Channel::Green => 1,
            Channel::Blue => 2,
        }
    }

    /// The channel at position `index`, if there is one.
    pub fn from_index(index: usize) -> (channel: Option<Channel>)
        ensures
            index < 3 <==> channel is Some,
            channel matches Some(c) ==> c.spec_index() == index,
    {
        if index == 0 {
            Some(Channel::Red)
        } else if index == 1 {
            Some(Channel::Green)
        } else if index == 2 {
            Some(Channel::Blue)
        } else {
            None
        }
    }

    /// The letter that names the channel, as listed in `CHANNEL_LETTERS`.
    pub fn letter(self) -> (c: char)
        ensures
            c == self.spec_letter(),
            c == CHANNEL_LETTERS[self.spec_index()],
    {
        CHANNEL_LETTERS[self.index()]
    }
}

/// A pixel of four 8-bit channels.
#[derive(Clone, Copy, PartialEq, Eq, Debug, Structural)]
pub struct Color {
    pub r: u8,
    pub g: u8,
    pub b: u8,
    pub a: u8,
}

impl Color {
    /// The pixel of a blank canvas: every channel zero.
    pub open spec fn spec_transparent() -> Color {
        Color { r: 0, g: 0, b: 0, a: 0 }
    }

    /// Black with full opacity.
    pub open spec fn spec_opaque_black() -> Color {
        Color { r: 0, g: 0, b: 0, a: 255 }
    }

    /// The value of one colour channel.
    pub open spec fn spec_channel(self, channel: Channel) -> u8 {
        match channel {
            Channel::Red => self.r,
            Channel::Green => self.g,
            Channel::Blue => self.b,
        }
    }

    /// The pixel with each colour channel quantized and alpha kept.
    pub open spec fn spec_quantized(self) -> Color {
        Color { r: quantized(self.r), g: quantized(self.g), b: quantized(self.b), a: self.a }
    }

    /// What a mask shows for this pixel: opaque black where the channel is zero,
    /// nothing elsewhere.
    pub open spec fn spec_mask(self, channel: Channel) -> Color {
        if self.spec_channel(channel) == 0 {
            Color::spec_opaque_black()
        } else {
            Color::spec_transparent()
        }
    }

    /// The pixel of a blank canvas: every channel zero.
    #[verifier::when_used_as_spec(spec_transparent)]
    pub fn transparent() -> (c: Color)
        ensures
            c == Color::spec_transparent(),
    {
        Color { r: 0, g: 0, b: 0, a: 0 }
    }

    /// Black with full opacity.
    #[verifier::when_used_as_spec(spec_opaque_black)]
    pub fn opaque_black() -> (c: Color)
        ensures
            c == Color::spec_opaque_black(),
    {
        Color { r: 0, g: 0, b: 0, a: 255 }
    }

    /// The value of one colour channel.
    #[verifier::when_used_as_spec(spec_channel)]
    pub fn channel(self, channel: Channel) -> (v: u8)
        ensures
            v == self.spec_channel(channel),
    {
        match channel {
            Channel::Red => self.r,
            Channel::Green => self.g,
            Channel::Blue => self.b,
        }
    }

    /// Quantizes the three colour channels and leaves alpha as it is.
    #[verifier::when_used_as_spec(spec_quantized)]
    pub fn quantized(self) -> (c: Color)
        ensures
            c == self.spec_quantized(),
    {
        Color { r: quantize(self.r), g: quantize(self.g), b: quantize(self.b), a: self.a }
    }

    /// The mask pixel for one channel of this pixel.
    #[verifier::when_used_as_spec(spec_mask)]
    pub fn mask(self, channel: Channel) -> (c: Color)
        ensures
            c == self.spec_mask(channel),
    {
        if self.channel(channel) == 0 {
            Color::opaque_black()
        } else {
            Color::transparent()
        }
    }
}

} // verus!
