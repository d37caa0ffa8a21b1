//! Network throughput sampling and display for a panel applet: choosing the
//! interface to watch, turning cumulative byte counters into rates, and
//! rendering a rate as a short value and a unit suffix.

pub mod app;
pub mod config;
pub mod display;
pub mod network;
