//! Sensitivity analysis for event studies.

pub mod adaptive_grid;
pub mod assessment;
pub mod basis_memory;
pub mod branch_search;
pub mod branches;
pub mod calibration;
pub mod cholesky;
pub mod cone;
pub mod conic;
pub mod constraints;
pub mod covariance;
pub mod cv_cache;
pub mod dense_simplex;
pub mod directions;
pub mod dual;
pub mod elimination;
pub mod errors;
pub mod exact;
pub mod factorization;
pub mod functional;
pub mod functional_sets;
mod grid_memory;
pub mod grids;
pub mod input;
pub mod inversion;
pub mod linear_program;
pub mod lp_arithmetic;
pub mod matrix;
pub mod moment_workspace;
pub mod moments;
pub mod multi_intervals;
pub mod normal;
pub mod number;
pub mod prepared;
pub mod prepared_sets;
pub mod paths;
pub mod pricing;
pub mod programs;
pub mod projection;
pub mod regions;
pub mod relative_magnitude;
pub mod report;
pub mod sharpness;
pub mod simplex;
pub mod simulation;
pub mod smoothness;
pub mod smoothness_intervals;
pub mod smoothness_test;
pub mod study;
pub mod summary;
pub mod surface;
pub mod systems;
pub mod text;
pub mod theta_test;
pub mod truth;
pub mod types;
pub mod vertices;
pub mod workflow;
pub mod workspaces;
