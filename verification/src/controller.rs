pub mod controller_handler;
