pub mod config;
pub mod native_interop;
pub mod theme;
pub mod time_calc;
pub mod window;
