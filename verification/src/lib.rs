//! The verified library of the Finalizer CPU scheduler.
pub mod config;
pub mod cpu_handle;
pub mod devices;
pub mod logger;
pub mod scheduler;
pub mod text;
pub mod utils;
