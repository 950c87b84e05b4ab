//! A rendezvous relay for one-to-one file transfers: a sender registers an
//! upload, a receiver claims it, and the bytes stream from the sender's
//! request to the receiver's response through a small bounded bridge.

pub mod bridge;
pub mod cleanup;
pub mod config;
pub mod jwt;
pub mod middleware;
pub mod protocol;
pub mod transfer;
