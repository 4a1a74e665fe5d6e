//! From a source image to the images to write.

use crate::compose::{compose, Mode, OutputFile};
use crate::mask::{is_quantization_of, separate, ChannelMasks};
use crate::naming::{
    processed_file_name, spec_channel_file_name, spec_merged_file_name,
    spec_processed_file_name,
};
use crate::pixel::{Channel, Color};
use crate::quantize::{lemma_quantized_binary, quantized};
use crate::raster::{fits, Raster};
use vstd::prelude::*;

verus! {

/// What the mask of `channel` shows at column `x` of row `y` of `source`:
/// opaque black where the quantized channel of the pixel is zero, nothing
/// elsewhere.
pub open spec fn mask_pixel(source: &Raster, channel: Channel, x: int, y: int) -> Color {
    source.at(x, y).spec_quantized().spec_mask(channel)
}

/// A mask pixel is opaque black exactly where the quantized channel of the
/// source pixel is zero, which is where the channel is below 128; everywhere
/// else it is transparent.
pub proof fn lemma_mask_pixel_threshold(source: &Raster, channel: Channel, x: int, y: int)
    ensures
        mask_pixel(source, channel, x, y) == (if quantized(
            source.at(x, y).spec_channel(channel),
        ) == 0 {
            Color::spec_opaque_black()
        } else {
            Color::spec_transparent()
        }),
        mask_pixel(source, channel, x, y) == Color::spec_opaque_black() <==> source.at(
            x,
            y,
        ).spec_channel(channel) < 128,
        mask_pixel(source, channel, x, y) == Color::spec_transparent() <==> source.at(
            x,
            y,
        ).spec_channel(channel) >= 128,
{
    lemma_quantized_binary(source.at(x, y).spec_channel(channel));
}

/// Whether `mask` is the mask of `channel` of the quantized `source`.
pub open spec fn is_channel_mask_of(mask: &Raster, source: &Raster, channel: Channel) -> bool {
    &&& mask.spec_width() == source.spec_width()
    &&& mask.spec_height() == source.spec_height()
    &&& forall|x: int, y: int| #![trigger mask.at(x, y)]
        source.contains(x, y) ==> mask.at(x, y) == mask_pixel(source, channel, x, y)
}

/// Whether `canvas` holds the three masks of the quantized `source`, tiled as
/// `mode` says.
pub open spec fn is_composite_of(canvas: &Raster, source: &Raster, mode: Mode) -> bool {
    &&& canvas.spec_width() == mode.canvas_width(source.spec_width() as int)
    &&& canvas.spec_height() == mode.canvas_height(source.spec_height() as int)
    &&& forall|channel: Channel, x: int, y: int| #![trigger mask_pixel(source, channel, x, y)]
        source.contains(x, y) ==> canvas.at(
            mode.tile_left(channel, source.spec_width() as int) + x,
            mode.tile_top(channel, source.spec_height() as int) + y,
        ) == mask_pixel(source, channel, x, y)
}

/// Whether `file` is the mask of `channel` of `source` under its file name.
pub open spec fn is_mask_file(
    file: OutputFile,
    source: &Raster,
    stem: Seq<char>,
    channel: Channel,
) -> bool {
    &&& file.name@ == spec_channel_file_name(stem, channel)
    &&& is_channel_mask_of(&file.image, source, channel)
}

/// The number of files that hold masks: three in `Split`, one canvas else.
pub open spec fn mask_file_count(mode: Mode) -> int {
    if mode == Mode::Split {
        3
    } else {
        1
    }
}

/// Whether `files` are the images to write for `source`: first the masks,
/// apart or tiled as `mode` says, then, where it is asked for, the quantized
/// source itself.
pub open spec fn is_rendering_of(
    files: Seq<OutputFile>,
    source: &Raster,
    stem: Seq<char>,
    mode: Mode,
    with_processed: bool,
) -> bool {
    &&& files.len() == mask_file_count(mode) + (if with_processed {
        1int
    } else {
        0int
    })
    &&& mode == Mode::Split ==> {
        &&& is_mask_file(files[0], source, stem, Channel::Red)
        &&& is_mask_file(files[1], source, stem, Channel::Green)
        &&& is_mask_file(files[2], source, stem, Channel::Blue)
    }
    &&& mode != Mode::Split ==> {
        &&& files[0].name@ == spec_merged_file_name(stem, mode)
        &&& is_composite_of(&files[0].image, source, mode)
    }
    &&& with_processed ==> {
        &&& files[mask_file_count(mode)].name@ == spec_processed_file_name(stem)
        &&& is_quantization_of(&files[mask_file_count(mode)].image, source)
    }
}

/// Quantizes `source`, builds the masks of its channels and composes them as
/// `mode` says; with `output_processed_source` the quantized source follows
/// as the last image. `None` where the source or the canvas of the mode is
/// too large to allocate.
pub fn render(source: Raster, stem: &str, mode: Mode, output_processed_source: bool) -> (files:
    Option<Vec<OutputFile>>)
    ensures
        files is Some <==> source.well_formed() && mode.canvas_fits(
            source.spec_width() as int,
            source.spec_height() as int,
        ),
        files matches Some(list) ==> is_rendering_of(
            list@,
            &source,
            stem@,
            mode,
            output_processed_source,
        ),
{
    let mut image: Raster = source;
    let width: u32 = image.width();
    let height: u32 = image.height();
    if !fits(width, height) {
        return None;
    }
    if mode.canvas_size(width, height).is_none() {
        return None;
    }
    let masks: ChannelMasks = separate(&mut image);
    let ghost tiles: ChannelMasks = masks;
    let mut files: Vec<OutputFile> = compose(masks, stem, mode);
    proof {
        assert forall|channel: Channel|
            is_channel_mask_of(&tiles.spec_get(channel), &source, channel) by {
            assert(crate::mask::is_mask_of(&tiles.spec_get(channel), &image, channel));
        }
        if mode != Mode::Split {
            assert forall|channel: Channel, x: int, y: int|
                source.contains(x, y) implies files@[0].image.at(
                mode.tile_left(channel, source.spec_width() as int) + x,
                mode.tile_top(channel, source.spec_height() as int) + y,
            ) == mask_pixel(&source, channel, x, y) by {
                assert(is_channel_mask_of(&tiles.spec_get(channel), &source, channel));
                assert(tiles.spec_get(channel).at(x, y) == mask_pixel(&source, channel, x, y));
            }
        }
    }
    if output_processed_source {
        files.push(OutputFile { name: processed_file_name(stem), image });
    }
    Some(files)
}

} // verus!
