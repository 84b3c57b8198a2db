//! Verified core of a set of Waybar modules: sliding metric histories,
//! chart rendering, scale selection and the JSON lines the modules print.

pub mod text;
pub mod window;
pub mod chart;
pub mod metrics;
pub mod net_graph;
pub mod disk_usage;
pub mod tooltip;
pub mod cpu_graph;
pub mod mem_graph;
pub mod temp_graph;
pub mod disk_space;
pub mod arch_updates;
pub mod stocks;
pub mod plugin;
