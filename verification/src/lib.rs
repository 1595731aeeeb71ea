//! Codec and compositing operators for uncompressed 24-bit truecolor raster
//! images.
//!
//! The crate is organised leaf first:
//!
//! * [`error`]: the error kinds that fallible operations return;
//! * [`header`]: the fixed 18-byte header record and its codec;
//! * [`pixel`]: the pixel and channel types;
//! * [`image`]: the in-memory raster and its mathematical model;
//! * [`codec`]: images to bytes and back;
//! * [`blend`]: the blend operators on channels and pixels;
//! * [`adjust`]: level adjustment of one channel with offsets on all three;
//! * [`compositor`]: operators applied to whole images;
//! * [`transform`]: rearrangements of pixels and channels.
//!
//! Every operation is a pure function: operands are only read and results
//! are new values. Each executable function states what it returns over the
//! mathematical model of its arguments, and the laws that connect the
//! functions (round trips, identities, ranges) are proof functions next to
//! them.
pub mod error;
pub mod header;
pub mod pixel;
pub mod image;
pub mod codec;
pub mod blend;
pub mod adjust;
pub mod compositor;
pub mod transform;
