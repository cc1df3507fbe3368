//! Recovery of a voice-over ("lector") track that was mixed into a copy of a
//! known original recording.
//!
//! The core works on single-channel PCM audio held in memory as sequences of
//! signed 16-bit samples.  Given the original track and the mixed track it
//! estimates the sample lag between them by cross-correlation, aligns the two
//! tracks, estimates the relative gain as an exact integer ratio, and combines
//! the aligned tracks sample by sample into a lector estimate and a remix.
//!
//! File input and output, argument handling, and console reporting live in the
//! surrounding binary; everything here is pure computation over values.
//!
//! Beside the signal core the crate carries two small demonstration modules
//! from the same workshop — a two-argument accumulator (`calc`) and a toy
//! user store (`mysqldb`) — specified and verified with the same discipline.

pub mod align;
pub mod calc;
pub mod combine;
pub mod errors;
pub mod gain;
pub mod lag;
pub mod mysqldb;
pub mod optimality;
pub mod pcm;
pub mod pipeline;
