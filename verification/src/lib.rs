//! A best-effort, in-memory relay for presence and social events between
//! the open sessions of a music-streaming service, and the replies of the
//! service's request handlers.

pub mod envelope;
pub mod hub;
pub mod ident;
pub mod liked_songs;
pub mod music;
pub mod outbox;
pub mod presence;
pub mod profile_picture;
pub mod registry;
pub mod reply;
pub mod router;
pub mod text;
