//! Drives thermal receipt printers over the ESC/POS protocol: print templates
//! and per-print data compile to an exact byte stream.
pub mod command;
pub mod error;
pub mod formatter;
pub mod image;
pub mod print_data;
pub mod printer;
pub mod text;
pub mod instruction;

pub use command::{Charset, CodeTable, Command, Font, ImageMode};
pub use error::Error;
pub use formatter::{Formatter, Justification, TableOptions};
pub use image::{Bitmap, EscposImage};
pub use instruction::Instruction;
pub use print_data::{PrintData, PrintDataBuilder};
pub use printer::{PrinterConnectionData, PrinterModel, PrinterProfile, PrinterProfileBuilder};
