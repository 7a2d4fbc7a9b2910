//! Supervisor library for zero-downtime reloads of a network-serving
//! worker process: listener sockets are created once, cached for the
//! supervisor's lifetime, and handed to every worker generation; a new
//! worker takes over gracefully from its predecessor, whose identity is
//! read from the PID file it writes.

pub mod addr;
pub mod cli;
pub mod config;
pub mod control;
pub mod haproxy;
pub mod listener;
pub mod text;
