use channel_masks::compose::Mode;
use channel_masks::naming::{channel_file_name, merged_file_name, processed_file_name, stem};
use channel_masks::pixel::Channel;

#[test]
fn stem_drops_the_extension() {
    assert_eq!(stem("photo.png"), "photo");
    assert_eq!(stem("photo.jpeg"), "photo");
}

#[test]
fn stem_ends_at_the_last_dot() {
    assert_eq!(stem("archive.tar.gz"), "archive.tar");
    assert_eq!(stem("a.b.c"), "a.b");
    assert_eq!(stem("a.b.png"), "a.b");
    assert_eq!(stem("a..png"), "a.");
}

#[test]
fn stem_of_a_name_without_dot_is_the_name() {
    assert_eq!(stem("photo"), "photo");
    assert_eq!(stem(""), "");
}

#[test]
fn stem_of_a_name_that_ends_with_a_dot_is_the_rest() {
    assert_eq!(stem("photo."), "photo");
    assert_eq!(stem("a.b."), "a.b");
}

#[test]
fn stem_of_a_name_whose_only_dot_comes_first_is_empty() {
    assert_eq!(stem(".hidden"), "");
    assert_eq!(stem("."), "");
    assert_eq!(stem(".."), ".");
}

#[test]
fn stem_counts_characters_not_bytes() {
    assert_eq!(stem("größe.jpeg"), "größe");
    assert_eq!(stem("日本語.png"), "日本語");
    assert_eq!(stem("日.本.語"), "日.本");
}

#[test]
fn merged_name_of_a_file_with_two_dots() {
    assert_eq!(merged_file_name(&stem("a.b.png"), Mode::MergeX), "a.b_mergedX.png");
    assert_eq!(channel_file_name(&stem("a.b.png"), Channel::Red), "a.b_channelR.png");
    assert_eq!(processed_file_name(&stem("a.b.png")), "a.b_processed.png");
}

#[test]
fn channel_files_are_named_by_letter() {
    assert_eq!(channel_file_name("photo", Channel::Red), "photo_channelR.png");
    assert_eq!(channel_file_name("photo", Channel::Green), "photo_channelG.png");
    assert_eq!(channel_file_name("photo", Channel::Blue), "photo_channelB.png");
    assert_eq!(channel_file_name("", Channel::Blue), "_channelB.png");
}

#[test]
fn merged_files_are_named_by_mode() {
    assert_eq!(merged_file_name("photo", Mode::MergeX), "photo_mergedX.png");
    assert_eq!(merged_file_name("photo", Mode::MergeY), "photo_mergedY.png");
    assert_eq!(merged_file_name("photo", Mode::Split), "photo_split.png");
}

#[test]
fn processed_file_is_named_processed() {
    assert_eq!(processed_file_name("photo"), "photo_processed.png");
    assert_eq!(processed_file_name("größe"), "größe_processed.png");
}
