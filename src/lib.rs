//! Binary-encoding primitives for genomics file formats: a bit-level writer that
//! packs narrow fields into bytes, and a block of decompressed content addressed
//! by virtual positions; with the filter header record and the alternate bases of
//! variant call records built on plain values.

pub mod bit_writer;
pub mod block;
pub mod header;
pub mod record;
