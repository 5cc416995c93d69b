pub mod data;
