//! Parsers for the fixed-column ephemeris text of an astronomical ephemeris
//! service: state vectors and orbital elements, read line by line or as a
//! whole document.

pub mod text;
pub mod number;
pub mod error;
pub mod timestamp;
pub mod fields;
pub mod vectors;
pub mod elements;
pub mod document;
pub mod laws;
pub mod parameters;
pub mod command;

pub use elements::EphemerisOrbitalElementsItem;
pub use vectors::EphemerisVectorItem;
pub mod diagnostic;
