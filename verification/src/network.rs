pub mod connection_filter;
pub mod network_listener;
pub mod service_detector;
pub mod types;
