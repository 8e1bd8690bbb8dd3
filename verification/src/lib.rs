//! Synthetic structural data for a multi-storey building: pier cross-sections,
//! the loads acting on them, and the stresses that follow from joining the two.
//!
//! Every quantity is a decimal fixed-point number held in an unsigned integer,
//! so that all arithmetic is exact and every rounding step is specified: a
//! value that lies exactly between two neighbours goes to the one further from
//! zero.

pub mod dataset;
pub mod geometry;
pub mod ident;
pub mod join;
pub mod loads;
pub mod model;
pub mod rounding;

pub use dataset::{
    build_app_data, build_app_data_with_levels, calculate_with_params, AppData, StressParams,
};
pub use geometry::generate_sections;
pub use join::compute_stress;
pub use loads::generate_forces;
pub use model::{Combo, Force, LoadFactors, Pier, Section, StressResult};
