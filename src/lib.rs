//! Registering a name for an account on a server parachain by a cross-chain
//! call: the client side builds and hands over the call, the server side
//! authenticates its origin and records the name.
pub mod codec;
pub mod origin;
pub mod registry;
pub mod xclient;
pub mod xserver;
