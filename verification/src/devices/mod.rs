pub mod touch;
