//! Touch-panel sample filtering, calibration and event synthesis for the
//! NS2009 resistive touch controller, and the command stream of the ST7789V
//! LCD controller, both as verified, hardware-independent logic.
pub mod bits;
pub mod filters;
pub mod gestures;
pub mod lcd;
pub mod ns2009;
