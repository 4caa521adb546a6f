//! Multi Cast Streamer: the decision logic of a service that takes stereo audio
//! from a media server over a datagram socket and streams it to gRPC subscribers.

pub mod text;
pub mod payload;
pub mod udp_server;
pub mod channels;
pub mod db_client;
pub mod file_spec;
pub mod http_server;
pub mod settings;
pub mod http_client;
pub mod fs_tcp_client;
pub mod recorder;
pub mod metrics;
