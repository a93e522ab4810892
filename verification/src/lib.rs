//! A small generic algebra library.
//!
//! The [`group::Group`] trait describes an element type by the binary
//! operations it supports (addition, subtraction, multiplication, division)
//! together with the identity element of each supported operation.  The
//! [`matrix::Matrix`] type is a dense, rectangular grid of such elements and
//! carries the usual matrix arithmetic: cell-wise addition and subtraction,
//! the inner-dimension product, Laplace determinants, integer powers and
//! inversion through the adjugate.  A matrix over a group is itself a group
//! under cell-wise addition and subtraction, so matrices can nest.

pub mod grids;

pub mod group;

pub mod laws;

pub mod matrix;

pub mod scalars;
