//! Representation and parsing of IEEE EUI-48 (MAC) addresses.
//!
//! An address is six bytes, most significant octet first. It reads from and
//! writes to four notations: canonical (`12-34-56-ab-cd-ef`), hex string
//! (`12:34:56:ab:cd:ef`), dot notation (`1234.56ab.cdef`) and hexadecimal
//! (`0x123456abcdef`). The default text of an address is the canonical one.

pub mod address;
pub mod format;
pub mod parse;

pub use address::{Eui48, Eui64, MacAddress, EUI48LEN, EUI64LEN};
pub use format::MacAddressFormat;
pub use parse::ParseError;

