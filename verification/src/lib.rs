//! A verified core for a CalDAV-style task client: discovery of task
//! calendars on a server, parsing of multistatus query responses, a
//! line-oriented calendar-object parser and serializer, and in-memory
//! task mutation with write-back request construction.
pub mod calobject;
pub mod discovery;
pub mod error;
pub mod collection;
pub mod credentials;
pub mod multistatus;
pub mod strutil;
pub mod transport;
pub mod urlutil;
pub mod xml;
pub mod task;
pub mod timestamp;
