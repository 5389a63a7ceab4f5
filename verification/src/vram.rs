//! The picture unit's 2KB of video RAM (two nametables).

use vstd::prelude::*;

verus! {

/// Size of video RAM in bytes.
pub const VRAM_SIZE: usize = 2048;

#[derive(Debug, Clone)]
pub struct Vram {
    pub contents: Vec<u8>,
}

impl Vram {
    /// Video RAM always holds exactly 2048 bytes.
    pub open spec fn wf(&self) -> bool {
        self.contents@.len() == VRAM_SIZE
    }

    /// Fresh video RAM, all bytes zero.
    pub fn new() -> (r: Self)
        ensures
            r.wf(),
            forall|i: int| 0 <= i < VRAM_SIZE ==> r.contents@[i] == 0u8,
    {
        Vram { contents: vec![0u8; VRAM_SIZE] }
    }
}

} // verus!
