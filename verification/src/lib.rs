pub mod audio;
pub mod commons;
pub mod display;
pub mod errors;
pub mod keyboard;
pub mod machine;
pub mod memory;
pub mod timer;
