pub mod music;
pub mod now;
pub mod pause;
pub mod seek;
pub mod skip;
pub mod utils;
