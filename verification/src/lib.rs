//! A picture puzzle on a grid: every row and column carries the lengths of
//! its runs of filled cells as a clue, and the player marks cells until the
//! marks are the picture.
//!
//! The heart of the library is the line: [`line`] says what the clue of a
//! line is and when marks still admit it, and [`game::clues`] decides both
//! and works out which runs of a clue count as found. [`game`] holds a game
//! in play and moves it from frame to frame. The other modules are the
//! screens around the game, the player's pad, and the times that are kept
//! between sessions. Nothing here touches the display or the pad itself:
//! the library takes what was read as plain values and hands back what is
//! to be drawn.

pub mod bounded;
pub mod display;
pub mod flow;
pub mod game;
pub mod line;
pub mod menu;
pub mod puzzle;
pub mod save;
pub mod state;
pub mod title;
