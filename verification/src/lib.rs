//! A decoder for the MediaRSS feed-extension vocabulary.
//!
//! Given an element of the MediaRSS namespace (a grouping wrapper or a
//! single inline element), the library extracts rich-media metadata
//! (thumbnails, content descriptors, captions, community ratings, credits)
//! into a normalized [`model::MediaObject`], and decodes the "normal play
//! time" textual duration format used by time-coded attributes.

pub mod digits;
pub mod duration;
pub mod mediarss;
pub mod mimetext;
pub mod model;
pub mod npt;
pub mod numbers;
pub mod xml;
