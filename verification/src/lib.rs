//! Core of a text/image clipboard abstraction.
//!
//! Text is stored and loaded through platform backends; when the system
//! clipboard holds only an image, the image's raw bytes are reconstructed
//! into a standalone file, persisted, and a `file:` reference string is
//! returned in place of text. This crate holds the verified logic of that
//! chain — bitmap header parsing and synthesis, artifact naming, reference
//! strings, and the facade's decisions — while the platform calls live with
//! the embedding application.

pub mod artifact;
pub mod dib;
pub mod facade;
pub mod fileurl;
