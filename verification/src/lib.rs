//! Password generation under composition rules, and password strength analysis.

pub mod analyzer;
pub mod generator;
pub mod policy;
pub mod random;
pub mod text;
