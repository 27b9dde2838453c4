//! An MQTT client, server and client-tester toolkit whose protocol logic is
//! specified and proved with Verus.

pub mod bytes;
pub mod client_identifier;
pub mod codecs;
pub mod frame;
pub mod keep_alive;
pub mod payload;
pub mod properties;
pub mod util;
pub mod packet_identifier;
pub mod packet_storage;
pub mod packet_stream;
pub mod packets;
pub mod client;
pub mod qos;
pub mod server;
pub mod string;
pub mod topic;
pub mod tester;
