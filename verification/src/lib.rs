//! The logic of a small tile world: which sprite each cell of a bordered
//! grid gets, and a repeating timer that reports the time at each interval.

pub mod grid;
pub mod timer;
