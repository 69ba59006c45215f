//! A binary-outcome prediction market engine: pricing curves, the market's
//! lifecycle, and the settlement of claims against locked collateral.
pub mod curve;
pub mod error;
pub mod fixed;
pub mod laws;
pub mod market;
