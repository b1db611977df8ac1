pub mod math;
pub mod retry;
pub mod time;
