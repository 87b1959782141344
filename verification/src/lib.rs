//! The exit-relay core of a mix-network node: the onion layer engine that
//! peels one hop from a cores package, the exit actor's stream bookkeeping,
//! and the small collaborators both rely on.

pub mod cryptde;
pub mod wire;
pub mod cryptde_null;
pub mod dispatcher;
pub mod dns_inspector;
pub mod hop;
pub mod hopper;
pub mod laws;
pub mod live_cores_package;
pub mod net;
pub mod proxy_client;
pub mod route;
pub mod stream;
pub mod stream_contexts;
pub mod wallet;
