//! A constraint-driven layout engine for a retained-mode widget tree.
//!
//! The library assigns a position and a size to the nodes of a widget
//! hierarchy.  Per-node sizing constraints, margins and alignments are kept
//! in a typed attribute store; a grid-style container additionally owns a
//! sequence of columns (fixed, automatic or stretch width) and places its
//! children by column geometry.  Layout runs as a cooperative, re-entrant
//! protocol: one call per step, each step either requesting the measurement
//! of the next child or declaring the container's final size.

pub mod geometry;
pub mod properties;
pub mod store;
pub mod layout;
pub mod grid;
pub mod items_widget;
