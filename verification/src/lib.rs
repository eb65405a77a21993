//! Driver logic for HUB75 LED matrix panels and addressable LED strips:
//! a bit-plane frame buffer with binary-coded-modulation scan-out, a
//! comet-trail particle queue, and gamma/brightness utilities.

pub mod color;
pub mod elements;
pub mod gamma;
pub mod hub75;
pub mod protocol;
pub mod queue;
