//! A two-stage compiler for a small line-oriented variable/expression/goto
//! language, targeting a hypothetical 8-bit accumulator machine.
//!
//! The front-end (`lang`) parses source lines into an intermediate
//! instruction sequence, resolving variable storage and labels.  The
//! back-end (`compiler`) re-maps the intermediate opcode names onto a
//! target-architecture encoding and serializes the result into a
//! fixed-capacity memory image.
#![verifier::loop_isolation(false)]

use vstd::prelude::*;

pub mod compiler;
pub mod laws;
pub mod lang;

verus! {

/// Size of the target machine's addressable memory; addresses are one byte.
pub const MEM_SIZE: u8 = 255;

} // verus!
