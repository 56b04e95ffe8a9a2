//! Decoding of package specifications from a stream of markup events.
//!
//! A tokenizer turns a metadata document into a flat sequence of
//! [`event::Event`]s. The decoders here pull those events through an
//! [`event::EventCursor`] and build a [`specification::Specification`] with its
//! [`version::Version`]s, [`requirement::Requirement`]s and
//! [`dependency::Dependency`]s, or report exactly one [`error::DecodeError`].
//! Each decoder is stated against a spec function over the stream's model
//! that gives its result, and the position after what it read, for every
//! stream.
pub mod dependency;
pub mod document;
pub mod error;
pub mod event;
pub mod read;
pub mod requirement;
pub mod outcomes;
pub mod scalar;
pub mod specification;
pub mod text;
pub mod version;
