//! The verified core of a ZeroMQ latency benchmark: the wire markers, the state machines of the
//! senders, receivers and routers, the endpoints and the schedule of the runs, and the latency
//! histograms.
pub mod text;
pub mod zmq_helpers;
pub mod sender;
pub mod receiver;
pub mod protocol;
pub mod router;
pub mod proxy_router;
pub mod endpoints;
pub mod records;
pub mod errors;
pub mod aggregator;
pub mod plans;
pub mod frames;
pub mod publisher;
pub mod subscriber;
pub mod dealer_sender;
pub mod dealer_receiver;
pub mod dealerrouter_dealer;
pub mod dealerrouter_router;
pub mod proxy_dealer;
pub mod roles;
pub mod pairing;
pub mod suite;
