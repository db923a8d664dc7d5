//! Rendering of a linked ASN.1 intermediate representation as
//! ROS-style `.msg` schema text and C-style conversion-header fragments.
//!
//! The front end (parsing, linking, PER-visible constraint merging) lies
//! outside this crate: it hands over the typed tree defined in [`ir`].
//!
//! - [`width`]: integer width selection.
//! - [`constraints`], [`readback`]: range constants and how they read back.
//! - [`case`]: identifier case conventions and comment blocks.
//! - [`resolve`]: the target type name of a type node.
//! - [`members`]: SEQUENCE/SET members, CHOICE options, ENUMERATED items.
//! - [`values`]: literals, default constants, constant classification.
//! - [`syntax`]: information objects against their class's syntax.
//! - [`ros`], [`conversion`]: the `.msg` and header dialects.
pub mod ir;
pub mod text;
pub mod width;
pub mod constraints;
pub mod readback;
pub mod case;
pub mod error;
pub mod resolve;
pub mod members;
pub mod values;
pub mod syntax;
pub mod ros;
pub mod conversion;
