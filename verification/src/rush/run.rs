pub mod custom;
pub mod dir;
pub mod utils;
