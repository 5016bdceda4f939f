//! A volumetric flow field on a regular Cartesian grid.
//!
//! The field is a flat buffer of three-component vectors, laid out row-major
//! with depth varying slowest and the vector component varying fastest. A
//! [`FlowDataSource`](source::FlowDataSource) owns one grid, installs the
//! fields that a generator routine produces for successive time steps, and
//! keeps a horizontal cross-section of the grid for two-dimensional views.
//!
//! Samples are single-precision values kept as their 32-bit patterns: the
//! library stores and moves them and never does arithmetic on them.

pub mod error;
pub mod grid;
pub mod layout;
pub mod slice;
pub mod source;
