//! cpufreq policies and the per-policy load tracker.
pub mod cpu_freq;
pub mod cpu_stat;
