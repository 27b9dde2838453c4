//! The client tester: it runs an MQTT client binary against scripted server
//! behaviour and checks what the client sends.

pub mod executable;
pub mod report;
pub mod packet;
pub mod client_report;
pub mod behaviour;
pub mod command;
pub mod no_username_means_no_password;
