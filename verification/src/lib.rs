//! A verified core of a TACACS+ (RFC 8907) client: the wire codec for the
//! twelve-byte packet header and the three body families (authentication,
//! authorization, accounting), the MD5-keyed body obfuscation, and the pure
//! decision logic of the session engine and exchange drivers.
//!
//! Transport I/O, asynchronous plumbing and entropy live outside this crate;
//! the library works on plain byte buffers and values handed in by its caller.

pub mod accounting;
pub mod arguments;
pub mod authentication;
pub mod errors;
pub mod fields;
pub mod header;
pub mod authorization;
pub mod obfuscation;
pub mod packet;
pub mod session;
pub mod text;

pub use text::FieldText;
pub use text::AsciiStr;
