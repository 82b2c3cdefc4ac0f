//! Typed encoding of domain values into wire frames and multipart messages.
//!
//! A value is turned into a [`frame::Frame`] by the codec that its type is
//! registered with ([`classify`]), and ordered collections of such values
//! travel as one multipart message ([`encode::VecEncoding`]).

pub mod bp;
pub mod classify;
pub mod encode;
pub mod frame;
pub mod rgb;
