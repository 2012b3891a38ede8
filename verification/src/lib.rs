//! Unattended, gap-free playback of a video library on two alternating
//! player instances: which item comes next, how the play history is kept,
//! how one transition between the two instances proceeds, and what is said
//! to a player over its control channel.

pub mod catalog;
pub mod commands;
pub mod crossfade;
pub mod random;
pub mod selection;
pub mod history;
pub mod index;
pub mod instance;
pub mod json;
