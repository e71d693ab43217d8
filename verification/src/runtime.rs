//! The console's state: sprites, flags, map, input and the screen.
pub mod colors;
pub mod draw_context;
pub mod flags;
pub mod map;
pub mod sprite_sheet;
pub mod state;
