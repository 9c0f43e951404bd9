//! A timed vocabulary quiz: answer judging with character feedback, a record of
//! the rounds answered correctly, and the statistics reported when time runs out.

pub mod evaluate;
pub mod stats;
pub mod vocab;
pub mod timing;
pub mod session;
pub mod format;
