//! A 3-dimensional vector value type with verified integer arithmetic.
//!
//! The central type is [`Vector3`], an aggregate of three `i64` components
//! supporting construction, axis decomposition, componentwise and scalar
//! arithmetic, normalization, and the dot and cross products. Every
//! operation carries a contract stated over the mathematical model
//! [`model::Vec3Model`], a triple of unbounded integers.

pub mod int_div;
pub mod int_sqrt;
pub mod model;
pub mod vector3;

pub use vector3::Vector3;
