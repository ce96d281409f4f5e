//! What the program needs of the platform it runs on.
pub mod crash;
pub mod file_logger;
