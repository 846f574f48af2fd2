use vstd::prelude::*;

pub mod compositor;
pub mod frame;

verus! {

/// One texel of a blit source buffer, as four 8-bit channels.
#[derive(Clone, Copy, Debug, Default, PartialEq, Eq)]
pub struct Pixel {
    pub r: u8,
    pub g: u8,
    pub b: u8,
    pub a: u8,
}

} // verus!
