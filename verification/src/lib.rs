//! Morpho core conversion engine: the format matrix, routing, the command
//! lines of the bundled engines, job bookkeeping and history, all verified.

pub mod av;
pub mod clock;
pub mod codec;
pub mod docs;
pub mod engines;
pub mod error;
pub mod format;
pub mod history;
pub mod image;
pub mod ocr;
pub mod office;
pub mod paths;
pub mod pdfs;
pub mod pdfword;
pub mod queue;
pub mod route;
pub mod text;

pub use error::{Error, Result};
pub use format::{Category, Format};
pub use queue::{JobOptions, MatrixEntry};
