//! Window-tiling logic for a terminal deck that drives a KDE desktop: reading the
//! desktop tools' output, the desktop model, tiling geometry, hit-testing and
//! clipping on the terminal screen, command plans, and the interaction state
//! machine.

pub mod actions;
pub mod audio;
pub mod desktop;
pub mod laws;
pub mod layout;
pub mod order;
pub mod screen;
pub mod text;
pub mod tiling;
pub mod ui;
