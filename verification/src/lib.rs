//! Verified core of an offline ray tracer.
//!
//! The numeric kernels of a ray tracer work on real-valued vectors; everything
//! that *decides* - which surface a ray sees first, whether a light is hidden,
//! when the mirror recursion stops, in which order pixels are produced and
//! where their bytes land - is integer logic, and lives here with contracts.
//! Scalars enter this crate as the bit patterns of IEEE 754 doubles; they are
//! compared here, never computed with.

pub mod camera;
pub mod color;
pub mod geometry;
pub mod hit;
pub mod image;
pub mod logger;
pub mod renderer;
pub mod scalar;
pub mod tracer;
