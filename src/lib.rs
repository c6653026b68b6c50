//! An eight-way compass: classifies magnetometer samples into compass
//! sectors, and holds the decisions of the button interrupt and of the
//! sensing/render loop that drive a 5×5 LED display and a tone pin.

use vstd::prelude::*;

pub mod controls;
pub mod direction;

pub use direction::{calculate_direction, Direction};

verus! {

} // verus!
