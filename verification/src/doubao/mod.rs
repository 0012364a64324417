//! The Doubao speech service: credential bootstrap, wire format, audio framing and session.

pub mod bootstrap;
pub mod driver;
pub mod framer;
pub mod managed;
pub mod opus;
pub mod recognition;
pub mod runner;
pub mod session;
pub mod websocket;
pub mod wire;
