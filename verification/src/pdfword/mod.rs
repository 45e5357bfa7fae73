//! PDF -> Word (docx) with layout preservation: the text rules of the
//! re-flow (runs, bullets, numbering, font faces, colours, heading styles).
//! Geometry and the docx writer are the caller's.

pub mod emit;
pub mod layout;
pub mod parser;
pub mod xml;
