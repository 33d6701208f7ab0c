//! Host introspection helpers: the pure, verified part of a system
//! information tool (formatters, parsers of kernel text files, classifiers
//! and the assembly of the final record).

pub mod bytes;
pub mod cpus;
pub mod desktop;
pub mod number;
pub mod procfs;
pub mod text;
pub mod uptime;
pub mod user_data;
