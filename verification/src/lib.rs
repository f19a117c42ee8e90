//! Decision logic of a TURN/DTLS UDP proxy: configuration merging, address
//! resolution plans, the round-robin balancer over sub-connections, the
//! packet-forwarding flow and the listeners' accept/rotation decisions.

pub mod client_config;
pub mod server_config;
pub mod address;
pub mod balancer;
pub mod worker;
pub mod flow;
pub mod listening;
pub mod dns;
