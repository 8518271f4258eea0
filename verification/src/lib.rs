//! Core of a desktop status daemon: the shared snapshot of subsystem
//! state, the line-oriented request router with its JSON replies, the
//! compositor event parser, and the pure readings of the provider tools'
//! outputs. Everything here is plain computation on bytes and numbers;
//! sockets, timers and tool invocations live with the caller.

pub mod battery;
pub mod brightness;
pub mod bytes;
pub mod digits;
pub mod hyprland;
pub mod ipc;
pub mod json;
pub mod media;
pub mod network;
pub mod state;
