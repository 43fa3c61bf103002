//! A dynamic, type-erased message value (`Pmt`) together with a scoped
//! configuration engine for software-defined-radio devices.
//!
//! The crate has two halves:
//!
//! * [`pmt`] and [`codec`]: a tagged-union message value that crosses
//!   component boundaries, with structural equality, safe downcasting of
//!   opaque payloads, and a self-describing wire format whose round trip
//!   is proved.
//! * [`config`] and [`device`]: typed configuration items, a lenient
//!   converter from legacy string-keyed maps, and an engine that walks an
//!   ordered configuration sequence while tracking the active
//!   channel/direction scope, producing the exact device calls to issue.
//!
//! Hardware itself is reached only by an embedding application: the engine
//! here decides *which* calls to make, as a verified function from the
//! session state and the sequence to a plan of calls.

pub mod builder;
pub mod codec;
pub mod config;
pub mod device;
pub mod error;
pub mod num;
pub mod pmt;
pub mod text;
