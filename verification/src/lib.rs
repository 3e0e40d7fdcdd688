//! Network-ingress core of a honeypot platform: connection filtering by IP and
//! port policy, service detection from listening port or early payload bytes,
//! and the data types handed to the session layer.

pub mod configuration;
pub mod controller;
pub mod error_handling;
pub mod network;
pub mod session_management;
