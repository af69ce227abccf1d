//! Identifiers and constants for the game's assets.

use vstd::prelude::*;

verus! {

pub const FONT_BIG_SIZE: u32 = 48;
pub const FONT_MEDIUM_SIZE: u32 = 18;
pub const FONT_SMALL_SIZE: u32 = 14;
pub const GAME_TITLE: &'static str = "Stack Boxes!";

/// Names one level of the game; level `n` lives in the directory `level<n>`.
#[derive(Debug, Copy, Clone, PartialEq, Eq, Structural)]
pub struct LevelId(pub u32);

} // verus!
