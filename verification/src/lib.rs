//! Per-connection synchronisation core of a chat gateway: a permission-filtered
//! cache of servers, channels, members and users, the set of topics the
//! connection is subscribed to, and the state machine that keeps both in step
//! with a stream of mutation events.
//!
//! The core decides; it asks nothing of the outside itself. Where the
//! handling of an event needs the database or the permission engine, the
//! state machine hands out a request and goes on when it is given the reply.
//!
//! - `ids`, `record`, `table`, `recent`: identifiers, records with a view, and
//!   the containers of the cache.
//! - `user`, `server`, `member`, `channel`, `voice`, `event`: the records of
//!   the protocol and what an update does to each.
//! - `cache`, `state`: what a connection knows and what it is subscribed to.
//! - `step`, `rules`: requests, replies, and the rules of the state machine
//!   as functions on views.
//! - `applier`, `recalc`, `ready`, `presence`: the state machine itself.
//! - `laws`: what holds of the rules whatever the events and the replies.
//! - `server_members`, `ack`, `moderation`: member listings, the board on
//!   which acknowledgements wait, and the rules of banning.

pub mod ack;
pub mod applier;
pub mod cache;
pub mod channel;
pub mod event;
pub mod ids;
pub mod laws;
pub mod member;
pub mod moderation;
pub mod presence;
pub mod ready;
pub mod recalc;
pub mod recent;
pub mod record;
pub mod rules;
pub mod server;
pub mod server_members;
pub mod state;
pub mod step;
pub mod table;
pub mod user;
pub mod voice;
