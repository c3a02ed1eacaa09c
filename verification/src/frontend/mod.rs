//! What a front end shows and what it reports, apart from any windowing or
//! input technology.

pub mod display;
pub mod input;
pub mod pacing;
