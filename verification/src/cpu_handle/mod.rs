pub mod cpu_freq;
pub mod cpu_stat;
