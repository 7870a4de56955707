//! A flat, JSON-ready view of the data elements of a DICOM object.
//!
//! The library takes the elements that a DICOM decoder produced, keeps those
//! whose value representation is on a fixed allow-list, turns each kept value
//! into one text (or marks it as absent), keys it by the element's symbolic
//! name or by its numeric tag, and encodes the resulting record as a JSON
//! object.

pub mod boundary;
pub mod element;
pub mod json;
pub mod key;
pub mod project;
pub mod record;
pub mod temporal;
pub mod text;
pub mod value;
