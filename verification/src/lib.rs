//! Search engine for Golomb rulers: an ordered set of integer marks whose
//! pairwise differences are all distinct, of minimal total length for a
//! given number of marks.

pub mod counting;
pub mod lut;
pub mod ruler;
pub mod solver;
pub mod tracker;
