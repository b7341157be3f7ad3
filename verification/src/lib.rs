//! Decoder for the cross-referenced substructures of the DEX class-container
//! format: annotations, their directory of associations to classes, fields,
//! methods and parameters, and exception-handler metadata for guarded code
//! regions.
//!
//! Every structure is decoded from a shared, immutable byte image through a
//! [`context::DexContext`], which carries the string and type tables, the
//! endianness for fixed-width fields, and a capacity-bounded resolution cache
//! for structures that several parents reference by byte offset.

pub mod annotation;
pub mod encoded_item;
pub mod cache;
pub mod codec;
pub mod context;
pub mod error;
pub mod jtype;
pub mod value;
