//! Tiling layout computation for a window manager.
//!
//! Given an ordered list of windows, an optional focused window and a target
//! region, a [`layout::Layout`] assigns each window a rectangle or marks it
//! hidden. Layouts compose with transformers that reserve space along an edge
//! or insert gaps, and a [`layout_set::LayoutSet`] keeps the layouts of one
//! workspace together with their parameters.
//!
//! Every function carries a contract that is checked by Verus; the contracts
//! are stated over the `spec` functions that accompany each type.

pub mod color;
pub mod config;
pub mod geometry;
pub mod laws;
pub mod layout;
pub mod layout_set;
pub mod params;
pub mod startup;
