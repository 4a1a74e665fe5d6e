//! In-place quantization of an image and the masks of its channels.

use crate::pixel::{Channel, Color};
use crate::quantize::quantized;
use crate::raster::{
    buffer_get, buffer_height, buffer_new, buffer_put, buffer_width, fits, Raster,
};
use vstd::prelude::*;

verus! {

/// Whether `after` is `before` with the colour channels of every pixel
/// quantized and every alpha value kept.
pub open spec fn is_quantization_of(after: &Raster, before: &Raster) -> bool {
    &&& after.spec_width() == before.spec_width()
    &&& after.spec_height() == before.spec_height()
    &&& forall|x: int, y: int| #![trigger after.at(x, y)]
        before.contains(x, y) ==> after.at(x, y) == before.at(x, y).spec_quantized()
}

/// Whether `mask` has the size of `image` and shows, at every place, opaque
/// black where `channel` of the pixel of `image` is zero and nothing elsewhere.
pub open spec fn is_mask_of(mask: &Raster, image: &Raster, channel: Channel) -> bool {
    &&& mask.spec_width() == image.spec_width()
    &&& mask.spec_height() == image.spec_height()
    &&& forall|x: int, y: int| #![trigger mask.at(x, y)]
        image.contains(x, y) ==> mask.at(x, y) == image.at(x, y).spec_mask(channel)
}

/// Overwrites the colour channels of every pixel with their quantized values.
/// Alpha is left as it is.
pub fn quantize_image(image: &mut Raster)
    ensures
        is_quantization_of(final(image), old(image)),
        final(image).well_formed() == old(image).well_formed(),
{
    let width: u32 = buffer_width(image);
    let height: u32 = buffer_height(image);
    let mut y: u32 = 0;
    while y < height
        invariant
            y <= height,
            image.spec_width() == width == old(image).spec_width(),
            image.spec_height() == height == old(image).spec_height(),
            forall|i: int, j: int| #![trigger image.at(i, j)]
                old(image).contains(i, j) ==> image.at(i, j) == (if j < y {
                    old(image).at(i, j).spec_quantized()
                } else {
                    old(image).at(i, j)
                }),
        decreases height - y,
    {
        let mut x: u32 = 0;
        while x < width
            invariant
                x <= width,
                y < height,
                image.spec_width() == width == old(image).spec_width(),
                image.spec_height() == height == old(image).spec_height(),
                forall|i: int, j: int| #![trigger image.at(i, j)]
                    old(image).contains(i, j) ==> image.at(i, j) == (if j < y || (j == y && i
                        < x) {
                        old(image).at(i, j).spec_quantized()
                    } else {
                        old(image).at(i, j)
                    }),
            decreases width - x,
        {
            let color: Color = buffer_get(image, x, y);
            buffer_put(image, x, y, color.quantized());
            x += 1;
        }
        y += 1;
    }
}

/// The mask of one channel: a raster of the image's size that is opaque black
/// where the channel is zero and transparent elsewhere.
pub fn build_mask(image: &Raster, channel: Channel) -> (mask: Raster)
    requires
        image.well_formed(),
    ensures
        is_mask_of(&mask, image, channel),
        mask.well_formed(),
{
    let width: u32 = buffer_width(image);
    let height: u32 = buffer_height(image);
    let mut mask: Raster = buffer_new(width, height);
    let mut y: u32 = 0;
    while y < height
        invariant
            y <= height,
            image.spec_width() == width == mask.spec_width(),
            image.spec_height() == height == mask.spec_height(),
            forall|i: int, j: int| #![trigger mask.at(i, j)]
                image.contains(i, j) ==> mask.at(i, j) == (if j < y {
                    image.at(i, j).spec_mask(channel)
                } else {
                    Color::spec_transparent()
                }),
        decreases height - y,
    {
        let mut x: u32 = 0;
        while x < width
            invariant
                x <= width,
                y < height,
                image.spec_width() == width == mask.spec_width(),
                image.spec_height() == height == mask.spec_height(),
                forall|i: int, j: int| #![trigger mask.at(i, j)]
                    image.contains(i, j) ==> mask.at(i, j) == (if j < y || (j == y && i < x) {
                        image.at(i, j).spec_mask(channel)
                    } else {
                        Color::spec_transparent()
                    }),
            decreases width - x,
        {
            let color: Color = buffer_get(image, x, y);
            if color.channel(channel) == 0 {
                buffer_put(&mut mask, x, y, Color::opaque_black());
            }
            x += 1;
        }
        y += 1;
    }
    mask
}

/// The masks of the three colour channels of one image. All three are well
/// formed and have the same size.
pub struct ChannelMasks {
    red: Raster,
    green: Raster,
    blue: Raster,
}

impl ChannelMasks {
    /// The mask of one channel.
    pub closed spec fn spec_get(&self, channel: Channel) -> Raster {
        match channel {
            Channel::Red => self.red,
            Channel::Green => self.green,
            Channel::Blue => self.blue,
        }
    }

    /// The width that the three masks share.
    pub open spec fn spec_width(&self) -> u32 {
        self.spec_get(Channel::Red).spec_width()
    }

    /// The height that the three masks share.
    pub open spec fn spec_height(&self) -> u32 {
        self.spec_get(Channel::Red).spec_height()
    }

    /// Every mask is well formed and has the shared size.
    pub open spec fn well_formed(&self) -> bool {
        forall|channel: Channel| #![trigger self.spec_get(channel)]
            {
                &&& self.spec_get(channel).well_formed()
                &&& self.spec_get(channel).spec_width() == self.spec_width()
                &&& self.spec_get(channel).spec_height() == self.spec_height()
            }
    }

    #[verifier::type_invariant]
    closed spec fn uniform(&self) -> bool {
        self.well_formed()
    }

    /// Puts three rasters together as the masks of the red, green and blue
    /// channel. `None` unless they are well formed and of one size.
    pub fn new(red: Raster, green: Raster, blue: Raster) -> (made: Option<ChannelMasks>)
        ensures
            made is Some <==> {
                &&& red.well_formed()
                &&& green.spec_width() == red.spec_width()
                &&& blue.spec_width() == red.spec_width()
                &&& green.spec_height() == red.spec_height()
                &&& blue.spec_height() == red.spec_height()
            },
            made matches Some(masks) ==> {
                &&& masks.well_formed()
                &&& masks.spec_get(Channel::Red) == red
                &&& masks.spec_get(Channel::Green) == green
                &&& masks.spec_get(Channel::Blue) == blue
            },
    {
        let width: u32 = buffer_width(&red);
        let height: u32 = buffer_height(&red);
        if fits(width, height) && buffer_width(&green) == width && buffer_width(&blue) == width
            && buffer_height(&green) == height && buffer_height(&blue) == height {
            Some(ChannelMasks { red, green, blue })
        } else {
            None
        }
    }

    /// The width that the three masks share.
    #[verifier::when_used_as_spec(spec_width)]
    pub fn width(&self) -> (w: u32)
        ensures
            w == self.spec_width(),
            self.well_formed(),
    {
        proof {
            use_type_invariant(self);
        }
        buffer_width(&self.red)
    }

    /// The height that the three masks share.
    #[verifier::when_used_as_spec(spec_height)]
    pub fn height(&self) -> (h: u32)
        ensures
            h == self.spec_height(),
            self.well_formed(),
    {
        proof {
            use_type_invariant(self);
        }
        buffer_height(&self.red)
    }

    /// The mask of one channel.
    pub fn get(&self, channel: Channel) -> (mask: &Raster)
        ensures
            *mask == self.spec_get(channel),
            self.well_formed(),
    {
        proof {
            use_type_invariant(self);
        }
        match channel {
            Channel::Red => &self.red,
            Channel::Green => &self.green,
            Channel::Blue => &self.blue,
        }
    }

    /// Takes the masks apart: red, green, blue.
    pub fn into_parts(self) -> (parts: (Raster, Raster, Raster))
        ensures
            self.well_formed(),
            parts.0 == self.spec_get(Channel::Red),
            parts.1 == self.spec_get(Channel::Green),
            parts.2 == self.spec_get(Channel::Blue),
    {
        proof {
            use_type_invariant(&self);
        }
        (self.red, self.green, self.blue)
    }
}

/// The masks of the red, green and blue channel of an image.
pub fn build_masks(image: &Raster) -> (masks: ChannelMasks)
    requires
        image.well_formed(),
    ensures
        masks.well_formed(),
        forall|channel: Channel| #![trigger masks.spec_get(channel)]
            is_mask_of(&masks.spec_get(channel), image, channel),
{
    let red: Raster = build_mask(image, Channel::Red);
    let green: Raster = build_mask(image, Channel::Green);
    let blue: Raster = build_mask(image, Channel::Blue);
    ChannelMasks { red, green, blue }
}

/// Quantizes an image in place and builds the masks of its channels from the
/// quantized pixels. A mask is opaque black exactly where the quantized
/// channel of the pixel it stands for is zero, which is where the channel of
/// the pixel was below 128 before the call.
pub fn separate(image: &mut Raster) -> (masks: ChannelMasks)
    requires
        old(image).well_formed(),
    ensures
        final(image).well_formed(),
        is_quantization_of(final(image), old(image)),
        masks.well_formed(),
        masks.spec_width() == old(image).spec_width(),
        masks.spec_height() == old(image).spec_height(),
        forall|channel: Channel| #![trigger masks.spec_get(channel)]
            is_mask_of(&masks.spec_get(channel), final(image), channel),
        forall|channel: Channel, x: int, y: int| #![trigger masks.spec_get(channel).at(x, y)]
            old(image).contains(x, y) ==> masks.spec_get(channel).at(x, y) == (if quantized(
                old(image).at(x, y).spec_channel(channel),
            ) == 0 {
                Color::spec_opaque_black()
            } else {
                Color::spec_transparent()
            }),
{
    quantize_image(image);
    let masks: ChannelMasks = build_masks(image);
    proof {
        assert forall|channel: Channel, x: int, y: int| old(image).contains(x, y) implies masks.spec_get(
            channel,
        ).at(x, y) == (if quantized(old(image).at(x, y).spec_channel(channel)) == 0 {
            Color::spec_opaque_black()
        } else {
            Color::spec_transparent()
        }) by {
            assert(is_mask_of(&masks.spec_get(channel), image, channel));
            assert(image.at(x, y) == old(image).at(x, y).spec_quantized());
        }
    }
    masks
}

} // verus!
