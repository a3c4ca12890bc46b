//! Keeps the media players of several viewers in step: a pause, a resume or a
//! seek at one of them reaches all the others in its room, and a resume is
//! timed so that it arrives everywhere at once.
//!
//! The relay keeps a table of rooms ([`registry`], [`room`]) and, for every
//! connection, what it knows of the peer ([`connection`]). The peer keeps one
//! state that its player and the relay both act on ([`reconciler`]). Both
//! sides speak in [`message`]s. Rooms are named by hashes of [`room_code`]s,
//! and [`chat`] travels sealed under a key made from the same code.
//!
//! Nothing here touches a socket, a clock or a player. Every operation takes
//! what happened as plain values, changes the state and hands back what is to
//! be done: messages to send, timers to start, commands for the player.
//! Playback positions are whole microseconds and latencies whole nanoseconds.

pub mod chat;
pub mod clock;
pub mod connection;
pub mod connection_laws;
pub mod message;
pub mod reconciler;
pub mod reconciler_laws;
pub mod registry;
pub mod registry_laws;
pub mod relay_url;
pub mod room;
pub mod room_code;
