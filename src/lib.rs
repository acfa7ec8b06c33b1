//! Voxel scene data and animation state machines.
//!
//! The library holds the integer part of a voxel renderer: colours, voxel
//! grids and their indexing, the `.vox` import conversion, and the animation
//! combinators (switching between variants on a schedule, stepping a value by a
//! user mutator, composing animated parts).
pub mod color;
pub mod model;
pub mod animatable;
pub mod switcher;
pub mod stepper;
pub mod composition;
pub mod vox;
