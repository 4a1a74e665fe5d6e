//! Tiling the three channel masks into one canvas.

use crate::mask::ChannelMasks;
use crate::naming::{
    channel_file_name, merged_file_name, spec_channel_file_name, spec_merged_file_name,
};
use crate::pixel::{Channel, Color};
use crate::raster::{
    allocatable, buffer_get, buffer_height, buffer_new, buffer_put, buffer_width, fits, Raster,
};
use vstd::prelude::*;

verus! {

/// What becomes of the three masks.
#[derive(Clone, Copy, PartialEq, Eq, Debug, Structural)]
pub enum Mode {
    /// The masks stay three separate images.
    Split,
    /// The masks are tiled side by side, red leftmost.
    MergeX,
    /// The masks are tiled one below the other, red topmost.
    MergeY,
}

impl Mode {
    /// The unit step from one tile to the next, as columns and rows.
    pub open spec fn spec_direction(self) -> Option<Seq<u32>> {
        match self {
            Mode::Split => None,
            Mode::MergeX => Some(seq![1u32, 0u32]),
            Mode::MergeY => Some(seq![0u32, 1u32]),
        }
    }

    /// The name of the mode as it appears in file names.
    pub open spec fn spec_name(self) -> Seq<char> {
        match self {
            Mode::Split => "split"@,
            Mode::MergeX => "mergedX"@,
            Mode::MergeY => "mergedY"@,
        }
    }

    /// The width of the canvas that holds the tiled masks of `width` columns.
    /// In `Split` nothing is tiled, and the width is that of one mask.
    pub open spec fn canvas_width(self, width: int) -> int {
        match self {
            Mode::MergeX => 3 * width,
            _ => width,
        }
    }

    /// The height of the canvas that holds the tiled masks of `height` rows.
    /// In `Split` nothing is tiled, and the height is that of one mask.
    pub open spec fn canvas_height(self, height: int) -> int {
        match self {
            Mode::MergeY => 3 * height,
            _ => height,
        }
    }

    /// The column of the canvas at which the mask of `channel` starts.
    pub open spec fn tile_left(self, channel: Channel, width: int) -> int {
        match self {
            Mode::MergeX => channel.spec_offset(width),
            _ => 0,
        }
    }

    /// The row of the canvas at which the mask of `channel` starts.
    pub open spec fn tile_top(self, channel: Channel, height: int) -> int {
        match self {
            Mode::MergeY => channel.spec_offset(height),
            _ => 0,
        }
    }

    /// Whether the canvas for masks of the given size can be made: its sides
    /// fit 32 bits and a buffer of its size can be allocated.
    pub open spec fn canvas_fits(self, width: int, height: int) -> bool {
        &&& self.canvas_width(width) <= u32::MAX
        &&& self.canvas_height(height) <= u32::MAX
        &&& allocatable(self.canvas_width(width), self.canvas_height(height))
    }

    /// The unit step from one tile to the next: `None` where the masks stay
    /// apart, one column to the right for `MergeX`, one row down for `MergeY`.
    pub fn direction(&self) -> (step: Option<[u32; 2]>)
        ensures
            step is Some <==> self.spec_direction() is Some,
            step matches Some(v) ==> v@ == self.spec_direction()->0,
    {
        match self {
            Mode::Split => None,
            Mode::MergeX => {
                let v: [u32; 2] = [1, 0];
                assert(v@ =~= seq![1u32, 0u32]);
                Some(v)
            },
            Mode::MergeY => {
                let v: [u32; 2] = [0, 1];
                assert(v@ =~= seq![0u32, 1u32]);
                Some(v)
            },
        }
    }

    /// The name of the mode as it appears in file names.
    pub fn name(&self) -> (s: &'static str)
        ensures
            s@ == self.spec_name(),
    {
        match self {
            Mode::Split => "split",
            Mode::MergeX => "mergedX",
            Mode::MergeY => "mergedY",
        }
    }

    /// The size of the canvas for masks of the given size, or `None` where
    /// such a canvas cannot be made.
    pub fn canvas_size(&self, width: u32, height: u32) -> (size: Option<(u32, u32)>)
        ensures
            size is Some <==> self.canvas_fits(width as int, height as int),
            size matches Some(s) ==> s.0 == self.canvas_width(width as int) && s.1
                == self.canvas_height(height as int),
    {
        let wide: u64 = match self {
            Mode::MergeX => 3 * (width as u64),
            _ => width as u64,
        };
        let tall: u64 = match self {
            Mode::MergeY => 3 * (height as u64),
            _ => height as u64,
        };
        if wide <= u32::MAX as u64 && tall <= u32::MAX as u64 && fits(wide as u32, tall as u32) {
            Some((wide as u32, tall as u32))
        } else {
            None
        }
    }
}

/// Whether `canvas` is `before` with `tile` copied over it, the tile's first
/// pixel at column `left` of row `top`.
pub open spec fn is_blit_of(
    canvas: &Raster,
    before: &Raster,
    tile: &Raster,
    left: int,
    top: int,
) -> bool {
    &&& canvas.spec_width() == before.spec_width()
    &&& canvas.spec_height() == before.spec_height()
    &&& forall|x: int, y: int| #![trigger canvas.at(x, y)]
        before.contains(x, y) ==> canvas.at(x, y) == (if tile.contains(x - left, y - top) {
            tile.at(x - left, y - top)
        } else {
            before.at(x, y)
        })
}

/// Copies `tile` into `canvas`, pixel for pixel, with the tile's first pixel
/// at column `left` of row `top`.
pub fn blit(canvas: &mut Raster, tile: &Raster, left: u32, top: u32)
    requires
        left + tile.spec_width() <= old(canvas).spec_width(),
        top + tile.spec_height() <= old(canvas).spec_height(),
    ensures
        is_blit_of(final(canvas), old(canvas), tile, left as int, top as int),
        final(canvas).well_formed() == old(canvas).well_formed(),
{
    let width: u32 = buffer_width(tile);
    let height: u32 = buffer_height(tile);
    let mut y: u32 = 0;
    while y < height
        invariant
            y <= height,
            tile.spec_width() == width,
            tile.spec_height() == height,
            canvas.spec_width() == old(canvas).spec_width(),
            canvas.spec_height() == old(canvas).spec_height(),
            left + width <= canvas.spec_width(),
            top + height <= canvas.spec_height(),
            forall|i: int, j: int| #![trigger canvas.at(i, j)]
                old(canvas).contains(i, j) ==> canvas.at(i, j) == (if tile.contains(
                    i - left,
                    j - top,
                ) && j - top < y {
                    tile.at(i - left, j - top)
                } else {
                    old(canvas).at(i, j)
                }),
        decreases height - y,
    {
        let mut x: u32 = 0;
        while x < width
            invariant
                x <= width,
                y < height,
                tile.spec_width() == width,
                tile.spec_height() == height,
                canvas.spec_width() == old(canvas).spec_width(),
                canvas.spec_height() == old(canvas).spec_height(),
                left + width <= canvas.spec_width(),
                top + height <= canvas.spec_height(),
                forall|i: int, j: int| #![trigger canvas.at(i, j)]
                    old(canvas).contains(i, j) ==> canvas.at(i, j) == (if tile.contains(
                        i - left,
                        j - top,
                    ) && (j - top < y || (j - top == y && i - left < x)) {
                        tile.at(i - left, j - top)
                    } else {
                        old(canvas).at(i, j)
                    }),
            decreases width - x,
        {
            let color: Color = buffer_get(tile, x, y);
            buffer_put(canvas, left + x, top + y, color);
            x += 1;
        }
        y += 1;
    }
}

/// Whether `canvas` holds the three masks tiled as `mode` says: it has the
/// canvas size of the mode, and the mask of each channel stands in it, pixel
/// for pixel, at the place of that channel.
pub open spec fn is_tiling_of(canvas: &Raster, masks: &ChannelMasks, mode: Mode) -> bool {
    &&& canvas.spec_width() == mode.canvas_width(masks.spec_width() as int)
    &&& canvas.spec_height() == mode.canvas_height(masks.spec_height() as int)
    &&& forall|channel: Channel, x: int, y: int| #![trigger masks.spec_get(channel).at(x, y)]
        0 <= x < masks.spec_width() && 0 <= y < masks.spec_height() ==> canvas.at(
            mode.tile_left(channel, masks.spec_width() as int) + x,
            mode.tile_top(channel, masks.spec_height() as int) + y,
        ) == masks.spec_get(channel).at(x, y)
}

/// In a canvas of masks tiled side by side, the pixel at column `x` of row `y`
/// of the mask of the channel at position `i` stands at column `i * w + x` of
/// row `y`, where `w` is the width of a mask; the canvas is three masks wide
/// and one mask high.
pub proof fn lemma_merge_x_copies(
    canvas: &Raster,
    masks: &ChannelMasks,
    channel: Channel,
    x: int,
    y: int,
)
    requires
        is_tiling_of(canvas, masks, Mode::MergeX),
        0 <= x < masks.spec_width(),
        0 <= y < masks.spec_height(),
    ensures
        canvas.spec_width() == 3 * masks.spec_width(),
        canvas.spec_height() == masks.spec_height(),
        canvas.at(channel.spec_index() * masks.spec_width() + x, y) == masks.spec_get(
            channel,
        ).at(x, y),
{
    channel.lemma_offset_is_product(masks.spec_width() as int);
    assert(canvas.at(
        Mode::MergeX.tile_left(channel, masks.spec_width() as int) + x,
        Mode::MergeX.tile_top(channel, masks.spec_height() as int) + y,
    ) == masks.spec_get(channel).at(x, y));
}

/// In a canvas of masks tiled one below the other, the pixel at column `x` of
/// row `y` of the mask of the channel at position `i` stands at column `x` of
/// row `i * h + y`, where `h` is the height of a mask; the canvas is one mask
/// wide and three masks high.
pub proof fn lemma_merge_y_copies(
    canvas: &Raster,
    masks: &ChannelMasks,
    channel: Channel,
    x: int,
    y: int,
)
    requires
        is_tiling_of(canvas, masks, Mode::MergeY),
        0 <= x < masks.spec_width(),
        0 <= y < masks.spec_height(),
    ensures
        canvas.spec_width() == masks.spec_width(),
        canvas.spec_height() == 3 * masks.spec_height(),
        canvas.at(x, channel.spec_index() * masks.spec_height() + y) == masks.spec_get(
            channel,
        ).at(x, y),
{
    channel.lemma_offset_is_product(masks.spec_height() as int);
    assert(canvas.at(
        Mode::MergeY.tile_left(channel, masks.spec_width() as int) + x,
        Mode::MergeY.tile_top(channel, masks.spec_height() as int) + y,
    ) == masks.spec_get(channel).at(x, y));
}

/// The tiles cover the canvas: two canvases that hold the same masks tiled in
/// the same merge mode are the same image.
pub proof fn lemma_tiling_unique(
    first: &Raster,
    second: &Raster,
    masks: &ChannelMasks,
    mode: Mode,
)
    requires
        mode != Mode::Split,
        is_tiling_of(first, masks, mode),
        is_tiling_of(second, masks, mode),
    ensures
        first.same_image(second),
{
    let width: int = masks.spec_width() as int;
    let height: int = masks.spec_height() as int;
    assert forall|column: int, row: int| first.contains(column, row) implies first.at(
        column,
        row,
    ) == second.at(column, row) by {
        let along: int = if mode == Mode::MergeX {
            column
        } else {
            row
        };
        let extent: int = if mode == Mode::MergeX {
            width
        } else {
            height
        };
        let channel: Channel = if along < extent {
            Channel::Red
        } else if along < 2 * extent {
            Channel::Green
        } else {
            Channel::Blue
        };
        let x: int = column - mode.tile_left(channel, width);
        let y: int = row - mode.tile_top(channel, height);
        assert(0 <= x < width && 0 <= y < height);
        assert(first.at(mode.tile_left(channel, width) + x, mode.tile_top(channel, height) + y)
            == masks.spec_get(channel).at(x, y));
        assert(second.at(mode.tile_left(channel, width) + x, mode.tile_top(channel, height) + y)
            == masks.spec_get(channel).at(x, y));
    }
}

/// Tiles the three masks into one canvas: side by side for `MergeX`, one
/// below the other for `MergeY`, in the order red, green, blue. `Split` gives
/// no canvas.
pub fn merge(masks: &ChannelMasks, mode: Mode) -> (merged: Option<Raster>)
    requires
        mode.canvas_fits(masks.spec_width() as int, masks.spec_height() as int),
    ensures
        merged is None <==> mode == Mode::Split,
        merged matches Some(canvas) ==> canvas.well_formed() && is_tiling_of(
            &canvas,
            masks,
            mode,
        ),
{
    match mode.direction() {
        None => None,
        Some(step) => {
            let width: u32 = masks.width();
            let height: u32 = masks.height();
            let across: bool = step[0] == 1;
            assert(across <==> mode == Mode::MergeX);
            let mut canvas: Raster = if across {
                buffer_new(3 * width, height)
            } else {
                buffer_new(width, 3 * height)
            };
            let mut i: usize = 0;
            while i < 3
                invariant
                    i <= 3,
                    mode != Mode::Split,
                    across <==> mode == Mode::MergeX,
                    masks.well_formed(),
                    masks.spec_width() == width,
                    masks.spec_height() == height,
                    mode.canvas_fits(width as int, height as int),
                    canvas.well_formed(),
                    canvas.spec_width() == mode.canvas_width(width as int),
                    canvas.spec_height() == mode.canvas_height(height as int),
                    forall|channel: Channel, x: int, y: int|
                        #![trigger masks.spec_get(channel).at(x, y)]
                        channel.spec_index() < i && 0 <= x < width && 0 <= y < height
                            ==> canvas.at(
                            mode.tile_left(channel, width as int) + x,
                            mode.tile_top(channel, height as int) + y,
                        ) == masks.spec_get(channel).at(x, y),
                decreases 3 - i,
            {
                let channel: Channel = match Channel::from_index(i) {
                    Some(channel) => channel,
                    None => Channel::Red,
                };
                let tile: &Raster = masks.get(channel);
                proof {
                    channel.lemma_offset_is_product(width as int);
                    channel.lemma_offset_is_product(height as int);
                }
                let left: u32 = if across {
                    (i as u32) * width
                } else {
                    0
                };
                let top: u32 = if across {
                    0
                } else {
                    (i as u32) * height
                };
                blit(&mut canvas, tile, left, top);
                i += 1;
            }
            Some(canvas)
        },
    }
}

/// An image together with the name of the file it is meant for.
pub struct OutputFile {
    pub name: String,
    pub image: Raster,
}

/// Whether `file` is the mask `mask` under the file name of `channel`.
pub open spec fn is_channel_file(
    file: OutputFile,
    mask: Raster,
    stem: Seq<char>,
    channel: Channel,
) -> bool {
    &&& file.name@ == spec_channel_file_name(stem, channel)
    &&& file.image == mask
}

/// Whether `files` are what the masks become in `mode`: in `Split` the three
/// masks as they are, red, green, blue, each under the name of its channel;
/// else one canvas with the masks tiled, under the name of the mode.
pub open spec fn is_composition_of(
    files: Seq<OutputFile>,
    masks: &ChannelMasks,
    stem: Seq<char>,
    mode: Mode,
) -> bool {
    if mode == Mode::Split {
        &&& files.len() == 3
        &&& is_channel_file(files[0], masks.spec_get(Channel::Red), stem, Channel::Red)
        &&& is_channel_file(files[1], masks.spec_get(Channel::Green), stem, Channel::Green)
        &&& is_channel_file(files[2], masks.spec_get(Channel::Blue), stem, Channel::Blue)
    } else {
        &&& files.len() == 1
        &&& files[0].name@ == spec_merged_file_name(stem, mode)
        &&& files[0].image.well_formed()
        &&& is_tiling_of(&files[0].image, masks, mode)
    }
}

/// Turns the three masks into the images to write: three files in `Split`,
/// one tiled canvas in the merge modes, each with its file name.
pub fn compose(masks: ChannelMasks, stem: &str, mode: Mode) -> (files: Vec<OutputFile>)
    requires
        mode.canvas_fits(masks.spec_width() as int, masks.spec_height() as int),
    ensures
        is_composition_of(files@, &masks, stem@, mode),
{
    let mut files: Vec<OutputFile> = Vec::new();
    match merge(&masks, mode) {
        Some(canvas) => {
            files.push(OutputFile { name: merged_file_name(stem, mode), image: canvas });
        },
        None => {
            let (red, green, blue) = masks.into_parts();
            files.push(OutputFile { name: channel_file_name(stem, Channel::Red), image: red });
            files.push(
                OutputFile { name: channel_file_name(stem, Channel::Green), image: green },
            );
            files.push(OutputFile { name: channel_file_name(stem, Channel::Blue), image: blue });
        },
    }
    files
}

} // verus!
