//! Names of the output files.

use crate::compose::Mode;
use crate::pixel::Channel;
use vstd::prelude::*;
use vstd::string::*;

verus! {

/// Whether `stem` is `name` without its extension: what stands in `name`
/// before its last dot, or all of `name` where it has no dot.
pub open spec fn is_stem_of(stem: Seq<char>, name: Seq<char>) -> bool {
    &&& stem.len() <= name.len()
    &&& stem == name.take(stem.len() as int)
    &&& forall|i: int| stem.len() < i < name.len() ==> name[i] != '.'
    &&& if stem.len() < name.len() {
        name[stem.len() as int] == '.'
    } else {
        forall|i: int| 0 <= i < name.len() ==> name[i] != '.'
    }
}

/// The name of the file that holds the mask of one channel.
pub open spec fn spec_channel_file_name(stem: Seq<char>, channel: Channel) -> Seq<char> {
    stem + "_channel"@ + seq![channel.spec_letter()] + ".png"@
}

/// The name of the file that holds the tiled masks.
pub open spec fn spec_merged_file_name(stem: Seq<char>, mode: Mode) -> Seq<char> {
    stem + "_"@ + mode.spec_name() + ".png"@
}

/// The name of the file that holds the quantized image.
pub open spec fn spec_processed_file_name(stem: Seq<char>) -> Seq<char> {
    stem + "_processed.png"@
}

/// A name has one stem only.
pub proof fn lemma_stem_unique(first: Seq<char>, second: Seq<char>, name: Seq<char>)
    requires
        is_stem_of(first, name),
        is_stem_of(second, name),
    ensures
        first == second,
{
    if first.len() < second.len() {
        assert(name[first.len() as int] == '.');
    } else if second.len() < first.len() {
        assert(name[second.len() as int] == '.');
    }
    assert(first =~= second);
}

/// A file name without its extension: the part before its last dot, or the
/// whole name where it has no dot.
pub fn stem(file_name: &str) -> (s: String)
    ensures
        is_stem_of(s@, file_name@),
{
    let length: usize = file_name.unicode_len();
    let mut after: usize = length;
    while after > 0 && file_name.get_char(after - 1) != '.'
        invariant
            after <= length,
            length == file_name@.len(),
            forall|i: int| after <= i < length ==> file_name@[i] != '.',
        decreases after,
    {
        after -= 1;
    }
    let end: usize = if after == 0 {
        length
    } else {
        after - 1
    };
    let s: String = String::from_str(file_name.substring_char(0, end));
    assert(s@ =~= file_name@.take(end as int));
    s
}

/// The letter of a channel as a string.
fn letter_str(channel: Channel) -> (s: &'static str)
    ensures
        s@ == seq![channel.spec_letter()],
{
    proof {
        reveal_strlit("R");
        reveal_strlit("G");
        reveal_strlit("B");
    }
    let s: &'static str = match channel {
        Channel::Red => "R",
        Channel::Green => "G",
        Channel::Blue => "B",
    };
    assert(s@ =~= seq![channel.spec_letter()]);
    s
}

/// The name of the file that holds the mask of one channel:
/// the stem, `_channel`, the channel's letter, `.png`.
pub fn channel_file_name(stem: &str, channel: Channel) -> (name: String)
    ensures
        name@ == spec_channel_file_name(stem@, channel),
{
    let mut name: String = String::from_str(stem);
    name.append("_channel");
    name.append(letter_str(channel));
    name.append(".png");
    name
}

/// The name of the file that holds the tiled masks:
/// the stem, `_`, the mode's name, `.png`.
pub fn merged_file_name(stem: &str, mode: Mode) -> (name: String)
    ensures
        name@ == spec_merged_file_name(stem@, mode),
{
    let mut name: String = String::from_str(stem);
    name.append("_");
    name.append(mode.name());
    name.append(".png");
    name
}

/// The name of the file that holds the quantized image:
/// the stem and `_processed.png`.
pub fn processed_file_name(stem: &str) -> (name: String)
    ensures
        name@ == spec_processed_file_name(stem@),
{
    let mut name: String = String::from_str(stem);
    name.append("_processed.png");
    name
}

} // verus!
