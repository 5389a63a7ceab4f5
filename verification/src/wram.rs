//! The console's 2KB of work RAM. The CPU sees it mirrored four times
//! across 0x0000-0x1FFF; the mirroring itself lives in the bus decoder.

use vstd::prelude::*;

verus! {

/// Size of work RAM in bytes; addresses in 0x0000-0x1FFF reduce modulo this.
pub const WRAM_SIZE: usize = 2048;

#[derive(Debug, Clone)]
pub struct Wram {
    pub contents: Vec<u8>,
}

impl Wram {
    /// Work RAM always holds exactly 2048 bytes.
    pub open spec fn wf(&self) -> bool {
        self.contents@.len() == WRAM_SIZE
    }

    /// Fresh work RAM, all bytes zero.
    pub fn new() -> (r: Self)
        ensures
            r.wf(),
            forall|i: int| 0 <= i < WRAM_SIZE ==> r.contents@[i] == 0u8,
    {
        Wram { contents: vec![0u8; WRAM_SIZE] }
    }
}

} // verus!
