//! Minute-by-minute photovoltaic production estimation for a two-sided
//! (east/west) rooftop panel array.
//!
//! All physical quantities are carried as fixed-point integers scaled by
//! `fixed::SCALE` (one millionth), so that every formula of the engine is an
//! exact integer computation with a proved contract.  The solar geometry
//! provider and all I/O live outside the library and exchange plain scaled
//! values with it.

pub mod fixed;
pub mod models;
pub mod attenuation;
pub mod thermal;
pub mod shading;
pub mod sampler;
pub mod production;
pub mod weather;
pub mod fox;
pub mod config;
