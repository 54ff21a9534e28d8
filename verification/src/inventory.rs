//! Item containers.
use vstd::prelude::*;

verus! {

/// A grid of item slots: its kind, its size, and one row of slot contents per line.
pub struct inventory {
    pub inv_type: u8,
    pub size_x: u8,
    pub size_y: u8,
    pub contents: Vec<Vec<u8>>,
}

} // verus!
