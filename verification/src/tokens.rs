//! Ids of the special tokens of the BPE vocabulary.

use vstd::prelude::*;

verus! {

pub const BOS_ID: u32 = 1;
pub const EOS_ID: u32 = 2;
pub const PAD_ID: u32 = 0;
pub const UNK_ID: u32 = 3;

} // verus!
