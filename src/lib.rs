//! Byte-stream rendering: hex dumps, source-code byte arrays and a sine
//! waveform, with every formatting rule stated and proved.
use vstd::prelude::*;

pub mod format;
pub mod page;
pub mod dump;
pub mod array;

verus! {

} // verus!
