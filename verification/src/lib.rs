//! A discrete-time SIR (Susceptible-Infected-Removed) epidemic simulator.
//!
//! The engine advances the three compartments one day at a time by forward
//! Euler integration and yields one snapshot per simulated day.  All
//! quantities are fixed-point numbers: an `i128` counts millionths of a
//! population unit, so the arithmetic is exact and the conservation law
//! `susceptible + infected + removed == total_pop` is proved to hold at
//! every snapshot rather than merely checked at run time.

pub mod calculations;
