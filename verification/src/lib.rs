//! Verified logic of the grid overview: hot-corner configuration, the grid's
//! cell arrangement and keyboard navigation, and small configuration records.
#![allow(unused_imports)]

use vstd::prelude::*;

pub mod kdl;
pub mod text;
pub mod seqs;
pub mod gestures;
pub mod grid;
pub mod overview;
pub mod cursor;
pub mod misc;
pub mod padding;

verus! {

} // verus!
