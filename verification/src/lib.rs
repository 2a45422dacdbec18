//! A grid-based incompressible fluid solver over fixed-point numbers.
//!
//! Every field lives on a square grid of `n` by `n` cells and holds signed
//! fixed-point values, so that each stage of a time step is an exact,
//! platform-independent function of its inputs. One time step pushes the
//! fluid where the pointer strokes it, carries the velocity and the density
//! along the flow, lets both decay and takes the divergence out of the
//! velocity with a fixed number of pressure sweeps.
//!
//! - [`fixed`]: the numbers and their arithmetic.
//! - [`single`], [`half`]: conversions to and from floating-point bit
//!   patterns.
//! - [`grid`]: grids and double-buffered fields.
//! - [`store`]: the five fields of a simulation.
//! - [`params`], [`error`]: the parameters of a step and their validation.
//! - [`inject`], [`advect`], [`diffuse`], [`project`]: the stages, each as a
//!   function from committed fields to a staged one.
//! - [`scheduler`]: the stages run on a store, and the whole step.
//! - [`pointer`]: the pointer's state between steps.
//! - [`texture`]: fields as texture data.

pub mod advect;
pub mod diffuse;
pub mod error;
pub mod fixed;
pub mod grid;
pub mod half;
pub mod inject;
pub mod params;
pub mod pointer;
pub mod project;
pub mod scheduler;
pub mod single;
pub mod store;
pub mod texture;
