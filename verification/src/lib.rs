//! The classic balance puzzle: twelve masses, eleven of one weight and a
//! single odd one, and a scale that may be used three times. This crate
//! holds the weighing-and-deduction engine: the mass registry, the balance
//! evaluator, the outcome comparator, the scripted manual loop, the fixed
//! three-weighing decision tree, and an iterative deduction variant.

pub mod auto;
pub mod balance;
pub mod deduce;
pub mod game;
pub mod mass;
pub mod select;
