//! Decision logic of a network-connected sauna monitor: sensor decoding,
//! request building and a small HTTP/1.1 client state machine, all on
//! fixed-capacity buffers.
pub mod ambient;
pub mod decimal;
pub mod ds18b20_wrapper;
pub mod env_ii_sensor;
pub mod fixed;
pub mod http;
pub mod report;
pub mod scan;
pub mod status;
pub mod text;
