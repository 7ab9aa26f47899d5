//! A reader for TIFF-family container files: TIFF 6.0 and the DNG profile
//! built on it.
//!
//! The reader validates the image file header, walks the chain of image file
//! directories, decodes every directory entry by the value-or-offset rule and
//! hands the directories to the caller. It reads metadata only: the bytes of
//! a field are handed out as the file holds them.
//!
//! Every function carries a contract over the bytes of the file, and Verus
//! proves it.
//!
//! - [`format`] says what a file holds, as functions of its bytes. Nothing
//!   in it runs.
//! - [`reader`] is the reader. The contract of each of its functions names
//!   the function of [`format`] that it computes.
//! - [`laws`] proves what holds of every file.
//! - [`stream`] holds the bytes of a file and a cursor.
//! - [`byte_order`], [`field_type`] and [`tag`] are the byte-order codec and
//!   the two registries; [`entry`] is an entry in its encoded form, and
//!   [`ifd`] holds fields and directories.

pub mod byte_order;
pub mod entry;
pub mod error;
pub mod field_type;
pub mod format;
pub mod ifd;
pub mod laws;
pub mod reader;
pub mod stream;
pub mod tag;

pub use byte_order::ByteOrder;
pub use entry::IfdEntry;
pub use error::{Error, ErrorKind, Offset};
pub use field_type::Type;
pub use ifd::{Field, FieldMap, Ifd};
pub use reader::{Dng, TiffReader};
pub use stream::ByteStream;
pub use tag::Tag;
