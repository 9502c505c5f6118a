//! Wire protocol, pixel layout and display state for a 16x16 WS2812 LED
//! matrix driven by a Raspberry Pi Pico W and fed by a desktop studio app.

pub mod animation;
pub mod color;
pub mod control;
pub mod geometry;
pub mod matrix;
pub mod player;
pub mod protocol;
pub mod studio;
pub mod wire;

