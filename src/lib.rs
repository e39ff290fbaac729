//! Token capture and container framing for a DEFLATE encoder.
//!
//! `lzvalue` holds the token type, `huffman_table` the canonical alphabet
//! layout and the length / distance code lookups, `output_writer` the two
//! recorders that capture tokens during match finding, and `zlib` the
//! two-byte container header.
pub mod huffman_table;
pub mod lzvalue;
pub mod output_writer;
pub mod zlib;
