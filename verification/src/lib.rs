//! Wallpicker: pick a wallpaper image from a directory and apply it as the
//! desktop background, keeping a well-known symlink pointed at the choice.
//!
//! The crate holds the decision logic of the tool: which directory entries
//! count as wallpapers, how the catalog of candidates is built, how the
//! picker's output is resolved to a selection, and in what order the external
//! steps run. The surrounding binary performs the actual process and
//! filesystem work and feeds the results back in as plain values.

pub mod catalog;
pub mod messages;
pub mod run;
pub mod scan;
pub mod select;
pub mod text;
