//! A verified core for a minimal HTTP file server.
//!
//! The library covers the request-to-path resolution and response-synthesis
//! pipeline: percent-decoding and -encoding of URL text, confinement of the
//! requested path to a fixed root directory, classification of file names
//! into MIME types, and construction of the HTTP responses for files,
//! directory listings, and errors.  All filesystem and socket work stays
//! outside: callers probe the filesystem themselves and hand the results in
//! as plain values.
pub mod codec;
pub mod dispatch;
pub mod mime;
pub mod resolve;
pub mod response;
pub mod strutil;
