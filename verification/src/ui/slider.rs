//! The positions of a slider.
use vstd::prelude::*;

verus! {

/// The four positions of a slider.
#[derive(Clone, Copy, Debug, PartialEq, Eq, Structural)]
pub enum SliderValue {
    Tiny,
    Small,
    Medium,
    Large,
}

} // verus!
